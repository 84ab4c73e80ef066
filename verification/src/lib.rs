//! Guitar tablature: the notation model of a score and the whole-number
//! parameters of the staff that displays it.

pub mod fraction;
pub mod image;
pub mod notation;
pub mod position;
pub mod widget;

pub use image::make_image_data;
pub use notation::AppData;
pub use position::BarPosition;
pub use widget::TablatureWidget;

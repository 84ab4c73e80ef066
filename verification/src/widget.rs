//! The staff widget: what it asks of its parent and what it draws, as far as
//! that is whole numbers. Turning these into strokes on a canvas is left to
//! the program that owns the window.

use vstd::prelude::*;

verus! {

/// A point of the canvas, in pixels from its top left corner.
pub struct Point {
    pub x: u32,
    pub y: u32,
}

/// What the staff answers when its parent asks how large it wants to be.
pub enum SizeRequest {
    /// This size, fitted into the parent's limits.
    Preferred { width: u32, height: u32 },
    /// The largest size that the parent allows.
    Largest,
}

/// Where the `i`-th copy of the placeholder text starts: each copy lies 10
/// pixels to the right of the one before and 15 below it.
pub open spec fn text_origin(i: int) -> Point {
    Point { x: (80 + 10 * i) as u32, y: (40 + 15 * i) as u32 }
}

/// A staff of six strings.
pub struct TablatureWidget {}

impl TablatureWidget {
    /// Colour of the strings. Colours are packed as red, green, blue and
    /// alpha, one byte each and red first.
    pub const STRING_COLOR: u32 = 0x0080_00ff;

    /// Colour of the canvas under the staff.
    pub const BACKGROUND_COLOR: u32 = 0xffff_ffff;

    /// Colour of the nut and of the placeholder text.
    pub const NUT_COLOR: u32 = 0x0000_00ff;

    /// Colour of the notice.
    pub const NOTICE_COLOR: u32 = 0x8000_00ff;

    /// Number of strings.
    pub const STRING_COUNT: u32 = 6;

    /// The height is divided into this many equal parts, and a string runs
    /// along each boundary between two of them.
    pub const STAFF_DIVISIONS: u32 = 7;

    /// A string is drawn this many pixels thick.
    pub const STRING_WIDTH: u32 = 4;

    /// The nut is as wide as one part in this many of the distance between
    /// two strings.
    pub const NUT_DIVISOR: u32 = 5;

    /// Width and height that the staff asks for where it may choose.
    pub const PREFERRED_SIDE: u32 = 100;

    /// Number of copies of the placeholder text.
    pub const TEXT_COPIES: u32 = 10;

    /// Size of both texts, in points.
    pub const FONT_SIZE: u32 = 24;

    /// Distance of the notice from the left edge of the canvas.
    pub const NOTICE_LEFT: u32 = 100;

    /// Distance of the notice from the top edge of the canvas.
    pub const NOTICE_TOP: u32 = 25;

    /// Width and height of the gradient, in pixels.
    pub const IMAGE_SIDE: usize = 256;

    /// The staff. It keeps no state of its own: what it shows is the score
    /// that it is handed.
    pub fn new() -> (widget: TablatureWidget)
        ensures
            widget == (TablatureWidget {}),
    {
        TablatureWidget {}
    }

    /// The size to ask for: the preferred one where the parent bounds the
    /// width or the height, and all there is where it bounds neither.
    pub fn size_request(width_bounded: bool, height_bounded: bool) -> (request: SizeRequest)
        ensures
            width_bounded || height_bounded ==> request == (SizeRequest::Preferred {
                width: 100,
                height: 100,
            }),
            !width_bounded && !height_bounded ==> request == SizeRequest::Largest,
    {
        if width_bounded || height_bounded {
            SizeRequest::Preferred { width: Self::PREFERRED_SIDE, height: Self::PREFERRED_SIDE }
        } else {
            SizeRequest::Largest
        }
    }

    /// Where the copies of the placeholder text start, in drawing order.
    pub fn text_origins() -> (origins: Vec<Point>)
        ensures
            origins@ == Seq::new(10, |i: int| text_origin(i)),
    {
        let mut origins: Vec<Point> = Vec::new();
        for i in 0..Self::TEXT_COPIES
            invariant
                origins@ == Seq::new(i as nat, |j: int| text_origin(j)),
        {
            origins.push(Point { x: 80 + 10 * i, y: 40 + 15 * i });
        }
        origins
    }
}

} // verus!

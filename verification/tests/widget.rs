use tablature::widget::{Point, SizeRequest};
use tablature::TablatureWidget;

fn xy(point: &Point) -> (u32, u32) {
    (point.x, point.y)
}

#[test]
fn widget_can_be_made() {
    let TablatureWidget {} = TablatureWidget::new();
}

#[test]
fn layout_prefers_a_hundred_pixels_where_bounded() {
    for (width_bounded, height_bounded) in [(true, true), (true, false), (false, true)] {
        match TablatureWidget::size_request(width_bounded, height_bounded) {
            SizeRequest::Preferred { width, height } => {
                assert_eq!((width, height), (100, 100));
            }
            SizeRequest::Largest => panic!("a bounded staff asked for all the space"),
        }
    }
}

#[test]
fn layout_takes_all_where_unbounded() {
    assert!(matches!(TablatureWidget::size_request(false, false), SizeRequest::Largest));
}

#[test]
fn text_is_drawn_ten_times() {
    assert_eq!(TablatureWidget::TEXT_COPIES, 10);
    assert_eq!(TablatureWidget::text_origins().len(), 10);
}

#[test]
fn text_origins_step_down_and_right() {
    let origins: Vec<(u32, u32)> = TablatureWidget::text_origins().iter().map(xy).collect();
    assert_eq!(
        origins,
        vec![
            (80, 40),
            (90, 55),
            (100, 70),
            (110, 85),
            (120, 100),
            (130, 115),
            (140, 130),
            (150, 145),
            (160, 160),
            (170, 175),
        ]
    );
}

#[test]
fn colours_are_packed_red_first() {
    assert_eq!(TablatureWidget::STRING_COLOR.to_be_bytes(), [0, 128, 0, 255]);
    assert_eq!(TablatureWidget::BACKGROUND_COLOR.to_be_bytes(), [255, 255, 255, 255]);
    assert_eq!(TablatureWidget::NUT_COLOR.to_be_bytes(), [0, 0, 0, 255]);
    assert_eq!(TablatureWidget::NOTICE_COLOR.to_be_bytes(), [128, 0, 0, 255]);
}

#[test]
fn staff_has_six_strings_between_seven_parts() {
    assert_eq!(TablatureWidget::STRING_COUNT, 6);
    assert_eq!(TablatureWidget::STAFF_DIVISIONS, TablatureWidget::STRING_COUNT + 1);
    assert_eq!(TablatureWidget::STRING_WIDTH, 4);
    assert_eq!(TablatureWidget::NUT_DIVISOR, 5);
    assert_eq!(TablatureWidget::PREFERRED_SIDE, 100);
    assert_eq!(TablatureWidget::IMAGE_SIDE, 256);
    assert_eq!(TablatureWidget::FONT_SIZE, 24);
    assert_eq!((TablatureWidget::NOTICE_LEFT, TablatureWidget::NOTICE_TOP), (100, 25));
}

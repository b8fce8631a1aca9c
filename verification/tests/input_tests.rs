use tuxparty::tputil::{
    Alignment, AlignmentX, AlignmentY, Axis, Button, InputMethod, InputState, Point2D,
    SourceInput,
};

#[test]
fn point_distance_is_rounded_euclidean() {
    let a = Point2D::new(0, 0);
    let b = Point2D::new(3000, 4000);
    assert_eq!(Point2D::dist(a, b), 5000);
    let c = Point2D::new(1000, 1000);
    assert_eq!(Point2D::dist(a, c), 1414);
}

#[test]
fn point_lerp_interpolates() {
    let a = Point2D::new(0, 0);
    let b = Point2D::new(1000, -2000);
    let mid = Point2D::lerp(a, b, 500);
    assert_eq!((mid.x, mid.y), (500, -1000));
    let start = Point2D::lerp(a, b, 0);
    assert_eq!((start.x, start.y), (0, 0));
    let end = Point2D::lerp(a, b, 1000);
    assert_eq!((end.x, end.y), (1000, -2000));
}

#[test]
fn point_scaling_is_fixed_point() {
    let p = Point2D::new(2000, -3000);
    let half = p.multiply_scalar(500);
    assert_eq!((half.x, half.y), (1000, -1500));
}

fn idle(source: InputMethod) -> SourceInput {
    SourceInput {
        source,
        axis_x: 0,
        axis_y: 0,
        south: false,
        east: false,
        start: false,
        south_pressed: false,
        start_pressed: false,
    }
}

#[test]
fn get_axis_reads_the_matching_source() {
    let mut a = idle(InputMethod::Gamepad(1));
    a.axis_x = 700;
    a.axis_y = -300;
    let state = InputState { sources: vec![a, idle(InputMethod::Keyboard)] };
    assert_eq!(state.get_axis(&InputMethod::Gamepad(1), Axis::X), 700);
    assert_eq!(state.get_axis(&InputMethod::Gamepad(1), Axis::Y), -300);
    assert_eq!(state.get_axis(&InputMethod::Keyboard, Axis::X), 0);
}

#[test]
fn get_axis_of_absent_source_is_zero() {
    let state = InputState { sources: vec![] };
    assert_eq!(state.get_axis(&InputMethod::Gamepad(9), Axis::X), 0);
}

#[test]
fn is_pressed_reads_held_buttons() {
    let mut a = idle(InputMethod::Gamepad(2));
    a.south = true;
    a.east = true;
    let state = InputState { sources: vec![a] };
    assert!(state.is_pressed(&InputMethod::Gamepad(2), Button::South));
    assert!(state.is_pressed(&InputMethod::Gamepad(2), Button::East));
    assert!(!state.is_pressed(&InputMethod::Gamepad(2), Button::Start));
    assert!(!state.is_pressed(&InputMethod::Keyboard, Button::South));
}

#[test]
fn get_pressed_any_lists_edge_presses_in_order() {
    let mut a = idle(InputMethod::Gamepad(1));
    a.south_pressed = true;
    let b = idle(InputMethod::Gamepad(2));
    let mut c = idle(InputMethod::Keyboard);
    c.south_pressed = true;
    let state = InputState { sources: vec![a, b, c] };
    let pressed = state.get_pressed_any(Button::South);
    assert_eq!(pressed, vec![InputMethod::Gamepad(1), InputMethod::Keyboard]);
}

#[test]
fn alignment_offsets() {
    let top_left = Alignment(AlignmentX::Left, AlignmentY::Top);
    assert_eq!(top_left.get_offset_x(400), 0);
    assert_eq!(top_left.get_text_offset_y(100), 100);
    let mid_center = Alignment(AlignmentX::Center, AlignmentY::Middle);
    assert_eq!(mid_center.get_offset_x(400), -200);
    assert_eq!(mid_center.get_text_offset_y(100), 50);
    let bottom_right = Alignment(AlignmentX::Right, AlignmentY::Bottom);
    assert_eq!(bottom_right.get_offset_x(400), -400);
    assert_eq!(bottom_right.get_text_offset_y(100), 0);
    let p = mid_center.get_text_offset(400, 100);
    assert_eq!((p.x, p.y), (-200, 50));
}

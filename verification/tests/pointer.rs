use shitty::event::ScrollDirection;
use shitty::pointer::{Pointer, PointerButton, PointerButtonState, PointerReportEncoding, PointerReportFilter};

fn pointer_with(filter: PointerReportFilter, encoding: PointerReportEncoding) -> Pointer {
    let mut pointer = Pointer::new();
    pointer.report_filter = filter;
    pointer.report_encoding = encoding;
    pointer
}

#[test]
fn utf8_mouse_encoding_uses_utf8_bytes_for_coordinates() {
    let mut pointer = pointer_with(PointerReportFilter::Button, PointerReportEncoding::UTF8);
    pointer.x = 95;
    pointer.y = 0;

    let bytes = pointer.encode_press(PointerButton::Left, (1, 1));

    assert_eq!(bytes, b"\x1b[M \xc2\x80!");
}

#[test]
fn utf8_mouse_encoding_matches_legacy_for_small_coordinates() {
    let mut pointer = pointer_with(PointerReportFilter::Button, PointerReportEncoding::UTF8);
    pointer.x = 0;
    pointer.y = 0;

    let bytes = pointer.encode_press(PointerButton::Left, (1, 1));

    assert_eq!(bytes, b"\x1b[M !!");
}

#[test]
fn legacy_press_and_release() {
    let mut pointer = pointer_with(PointerReportFilter::Button, PointerReportEncoding::Legacy);
    assert_eq!(pointer.encode_press(PointerButton::Left, (1, 1)), b"\x1b[M !!");
    assert_eq!(pointer.encode_release(PointerButton::Left, (1, 1)), b"\x1b[M#!!");
}

#[test]
fn sgr_press_release_and_motion() {
    let mut pointer = pointer_with(PointerReportFilter::ButtonMotion, PointerReportEncoding::SGR);
    assert_eq!(pointer.encode_press(PointerButton::Left, (8, 16)), b"\x1b[<0;1;1M");
    pointer.x = 16;
    assert_eq!(pointer.encode_move((8, 16)), b"\x1b[<32;3;1M");
    pointer.x = 17;
    assert_eq!(pointer.encode_move((8, 16)), b"");
    assert_eq!(pointer.encode_release(PointerButton::Left, (8, 16)), b"\x1b[<0;3;1m");
}

#[test]
fn any_motion_without_button_uses_release_code() {
    let mut pointer = pointer_with(PointerReportFilter::AnyMotion, PointerReportEncoding::SGR);
    pointer.x = 8;
    assert_eq!(pointer.encode_move((8, 16)), b"\x1b[<35;2;1M");
}

#[test]
fn x10_reports_press_but_not_release() {
    let mut pointer = pointer_with(PointerReportFilter::X10, PointerReportEncoding::Legacy);
    assert_eq!(pointer.encode_press(PointerButton::Middle, (1, 1)), b"\x1b[M!!!");
    assert_eq!(pointer.encode_release(PointerButton::Middle, (1, 1)), b"");
}

#[test]
fn urxvt_press_and_release() {
    let mut pointer = pointer_with(PointerReportFilter::Button, PointerReportEncoding::URXVT);
    assert_eq!(pointer.encode_press(PointerButton::Right, (1, 1)), b"\x1b[34;1;1M");
    assert_eq!(pointer.encode_release(PointerButton::Right, (1, 1)), b"\x1b[35;1;1M");
}

#[test]
fn wheel_and_extra_buttons() {
    let mut pointer = pointer_with(PointerReportFilter::Button, PointerReportEncoding::SGR);
    assert_eq!(pointer.encode_scroll(ScrollDirection::Up, (1, 1)), b"\x1b[<64;1;1M");
    assert_eq!(pointer.encode_scroll(ScrollDirection::Down, (1, 1)), b"\x1b[<65;1;1M");
    assert_eq!(pointer.encode_press(PointerButton::X1, (1, 1)), b"\x1b[<128;1;1M");
    assert_eq!(pointer.encode_press(PointerButton::X2, (1, 1)), b"\x1b[<129;1;1M");
}

#[test]
fn modifiers_are_added_except_in_x10() {
    let mut pointer = pointer_with(PointerReportFilter::Button, PointerReportEncoding::SGR);
    pointer.modifiers = 4 | 16;
    assert_eq!(pointer.encode_press(PointerButton::Left, (1, 1)), b"\x1b[<20;1;1M");

    let mut x10 = pointer_with(PointerReportFilter::X10, PointerReportEncoding::Legacy);
    x10.modifiers = 4 | 16;
    assert_eq!(x10.encode_press(PointerButton::Left, (1, 1)), b"\x1b[M !!");
}

#[test]
fn calc_mode_keeps_encoding_independent_of_reporting() {
    let mut pointer = Pointer::new();
    pointer.set_dec_mode(1006, true);
    assert!(!pointer.reporting());
    assert_eq!(pointer.report_encoding, PointerReportEncoding::SGR);

    pointer.set_dec_mode(1000, true);
    assert_eq!(pointer.report_filter, PointerReportFilter::Button);

    pointer.set_dec_mode(1002, true);
    assert_eq!(pointer.report_filter, PointerReportFilter::ButtonMotion);

    pointer.set_dec_mode(9, true);
    assert_eq!(pointer.report_filter, PointerReportFilter::ButtonMotion);

    pointer.set_dec_mode(1002, false);
    pointer.set_dec_mode(1000, false);
    assert_eq!(pointer.report_filter, PointerReportFilter::X10);
}

#[test]
fn focus_reporting() {
    let mut pointer = Pointer::new();
    assert_eq!(pointer.encode_focus(true), b"");
    pointer.set_dec_mode(1004, true);
    assert_eq!(pointer.encode_focus(true), b"\x1b[I");
    assert_eq!(pointer.encode_focus(false), b"\x1b[O");
}

#[test]
fn dec_mode_status_follows_set_and_reset() {
    let mut pointer = Pointer::new();
    assert_eq!(pointer.dec_mode_status(1000), 2);
    assert_eq!(pointer.dec_mode_status(25), 0);
    pointer.set_dec_mode(1000, true);
    assert_eq!(pointer.dec_mode_status(1000), 1);
    assert_eq!(pointer.dec_mode_status(1002), 2);
    pointer.set_dec_mode(25, true);
    assert_eq!(pointer.dec_mode_status(25), 0);
    pointer.x = 40;
    pointer.reset_modes();
    assert_eq!(pointer.dec_mode_status(1000), 2);
    assert_eq!(pointer.report_filter, PointerReportFilter::Off);
    assert_eq!(pointer.x, 40);
}

#[test]
fn button_state_press_release_count() {
    let mut s = PointerButtonState::new();
    s.press(PointerButton::Right);
    s.press(PointerButton::X2);
    assert!(s.is_pressed(PointerButton::Right));
    assert!(s.is_released(PointerButton::Left));
    assert_eq!(s.num_pressed(), 2);
    s.release(PointerButton::Right);
    assert!(!s.is_pressed(PointerButton::Right));
    assert!(s.is_pressed(PointerButton::X2));
    assert_eq!(s.num_pressed(), 1);
    s.clear();
    assert_eq!(s.num_pressed(), 0);
}

#[test]
fn release_of_last_button_falls_back_to_lowest_pressed() {
    let mut pointer = pointer_with(PointerReportFilter::ButtonMotion, PointerReportEncoding::SGR);
    pointer.encode_press(PointerButton::Right, (1, 1));
    pointer.encode_press(PointerButton::Middle, (1, 1));
    pointer.encode_release(PointerButton::Middle, (1, 1));
    pointer.x = 5;
    // Right (code 2) is the remaining button: motion code 2 + 32.
    assert_eq!(pointer.encode_move((1, 1)), b"\x1b[<34;6;1M");
}

#[test]
fn pixel_coordinates_and_clamping() {
    let mut pointer = pointer_with(PointerReportFilter::Button, PointerReportEncoding::SGR);
    pointer.enabled_1016 = true;
    pointer.x = 123;
    pointer.y = -5;
    assert_eq!(pointer.encode_press(PointerButton::Left, (8, 16)), b"\x1b[<0;124;1M");

    let mut legacy = pointer_with(PointerReportFilter::Button, PointerReportEncoding::Legacy);
    legacy.x = 1000;
    assert_eq!(legacy.encode_press(PointerButton::Left, (1, 1)), vec![0x1b, b'[', b'M', 32, 255, 33]);
}

#[test]
fn negative_pixels_use_floor_division() {
    let mut pointer = pointer_with(PointerReportFilter::Button, PointerReportEncoding::URXVT);
    pointer.x = -1;
    pointer.y = 17;
    // Cell -1 is clamped to column 1; row 17/8 = 2 is reported as 3.
    assert_eq!(pointer.encode_press(PointerButton::Left, (0, 8)), b"\x1b[32;1;3M");
}

#[test]
fn scroll_not_reported_when_off() {
    let mut pointer = Pointer::new();
    assert_eq!(pointer.encode_scroll(ScrollDirection::Left, (1, 1)), b"");
    pointer.set_dec_mode(1000, true);
    assert_eq!(pointer.encode_scroll(ScrollDirection::Right, (1, 1)), b"\x1b[M\x63!!");
}

#[test]
fn enter_leave_and_forget_cell() {
    let mut pointer = pointer_with(PointerReportFilter::AnyMotion, PointerReportEncoding::SGR);
    assert_eq!(pointer.encode_enter((1, 1)), b"");
    assert!(pointer.captured);
    assert_eq!(pointer.encode_move((1, 1)), b"\x1b[<35;1;1M");
    assert_eq!(pointer.encode_move((1, 1)), b"");
    pointer.forget_cell();
    assert_eq!(pointer.encode_move((1, 1)), b"\x1b[<35;1;1M");
    assert_eq!(pointer.encode_leave((1, 1)), b"");
    assert!(!pointer.captured);
}

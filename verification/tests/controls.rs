use flashdark::controls::{mouse_button_text, parse_mouse_button, MouseButtonName};

#[test]
fn mouse_buttons_are_written_with_their_prefix() {
    assert_eq!(mouse_button_text(MouseButtonName::Left), "MouseLeft");
    assert_eq!(mouse_button_text(MouseButtonName::Middle), "MouseMiddle");
    assert_eq!(mouse_button_text(MouseButtonName::Right), "MouseRight");
}

#[test]
fn mouse_buttons_read_back() {
    for b in [MouseButtonName::Left, MouseButtonName::Middle, MouseButtonName::Right] {
        assert_eq!(parse_mouse_button(&mouse_button_text(b)), Some(b));
    }
}

#[test]
fn other_texts_name_no_mouse_button() {
    assert_eq!(parse_mouse_button("Left"), None);
    assert_eq!(parse_mouse_button("MouseBack"), None);
    assert_eq!(parse_mouse_button("Mouse"), None);
    assert_eq!(parse_mouse_button("mouseLeft"), None);
    assert_eq!(parse_mouse_button("MouseLeft "), None);
}

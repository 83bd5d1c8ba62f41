use luminol::web_input::{InputEvent, Modifiers, WebInput};

fn held() -> Modifiers {
    Modifiers { alt: true, ctrl: false, shift: true, mac_cmd: false, command: true }
}

#[test]
fn default_input_is_focused() {
    let input = WebInput::default();
    assert!(input.raw.focused);
    assert_eq!(input.primary_touch, None);
    assert!(input.raw.events.is_empty());
    assert_eq!(input.raw.modifiers, Modifiers::default());
}

#[test]
fn same_focus_changes_nothing() {
    let mut input = WebInput::default();
    input.primary_touch = Some(7);
    input.raw.modifiers = held();
    input.set_focus(true);
    assert_eq!(input.primary_touch, Some(7));
    assert_eq!(input.raw.modifiers, held());
    assert!(input.raw.events.is_empty());
}

#[test]
fn focus_change_resets_and_records() {
    let mut input = WebInput::default();
    input.primary_touch = Some(7);
    input.raw.modifiers = held();
    input.set_focus(false);
    assert!(!input.raw.focused);
    assert_eq!(input.primary_touch, None);
    assert_eq!(input.raw.modifiers, Modifiers::default());
    assert_eq!(input.raw.events, vec![InputEvent::WindowFocused(false)]);
    input.set_focus(false);
    assert_eq!(input.raw.events, vec![InputEvent::WindowFocused(false)]);
    input.set_focus(true);
    assert!(input.raw.focused);
    assert_eq!(
        input.raw.events,
        vec![InputEvent::WindowFocused(false), InputEvent::WindowFocused(true)]
    );
}

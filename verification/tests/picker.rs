use luminol::field::Field;
use luminol::graphic_picker::{entry_rows, Modal};

fn paths(v: &[&str]) -> Vec<String> {
    v.iter().map(|s| s.to_string()).collect()
}

#[test]
fn button_opens_only_when_closed() {
    let mut picker = Modal::new();
    assert!(!picker.is_open());
    assert!(!picker.should_open(false));
    assert!(picker.should_open(true));
    picker.open(&None, paths(&["a.png"]));
    assert!(picker.is_open());
    assert!(!picker.should_open(true));
}

#[test]
fn save_writes_selection_and_closes() {
    let mut picker = Modal::new();
    let mut data = Some("old.png".to_string());
    picker.open(&data.clone(), paths(&["a.png", "b.png"]));
    picker.select_entry("b.png".to_string());
    assert!(picker.end_frame(true, false, true, &mut data));
    assert_eq!(data, Some("b.png".to_string()));
    assert!(!picker.is_open());
}

#[test]
fn none_row_clears_graphic() {
    let mut picker = Modal::new();
    let mut data = Some("old.png".to_string());
    picker.open(&data.clone(), paths(&["old.png"]));
    picker.select_none();
    assert!(picker.end_frame(true, true, true, &mut data));
    assert_eq!(data, None);
    assert!(picker.is_open());
}

#[test]
fn closing_without_save_keeps_graphic() {
    let mut picker = Modal::new();
    let mut data = Some("keep.png".to_string());
    picker.open(&data.clone(), paths(&["x.png"]));
    picker.select_entry("x.png".to_string());
    picker.mark_scrolled();
    assert!(!picker.end_frame(false, true, false, &mut data));
    assert_eq!(data, Some("keep.png".to_string()));
    assert!(!picker.is_open());
    assert!(picker.needs_scroll());
}

#[test]
fn closed_picker_saves_nothing() {
    let mut picker = Modal::new();
    let mut data = None;
    assert!(!picker.end_frame(true, true, true, &mut data));
    assert_eq!(data, None);
}

#[test]
fn save_right_after_open_gives_back_graphic() {
    let mut picker = Modal::new();
    let mut data = Some("same.png".to_string());
    picker.open(&data.clone(), paths(&["other.png", "same.png"]));
    picker.set_search("oth".to_string(), paths(&["other.png"]));
    assert!(picker.end_frame(true, true, true, &mut data));
    assert_eq!(data, Some("same.png".to_string()));
}

#[test]
fn scroll_rows() {
    let mut picker = Modal::new();
    picker.open(&None, paths(&["a", "b"]));
    assert!(picker.needs_scroll());
    assert_eq!(picker.scroll_row(Some(1)), Some(0));
    picker.select_entry("b".to_string());
    assert_eq!(picker.scroll_row(Some(1)), Some(2));
    assert_eq!(picker.scroll_row(None), None);
    picker.mark_scrolled();
    assert!(!picker.needs_scroll());
    picker.reset();
    assert!(!picker.is_open());
    assert!(picker.needs_scroll());
}

#[test]
fn rows_skip_none_row() {
    assert_eq!(entry_rows(0, 5), (0, 4));
    assert_eq!(entry_rows(3, 9), (2, 8));
    assert_eq!(entry_rows(0, 0), (0, 0));
}

#[test]
fn field_label_has_colon() {
    let field = Field::new("Name".to_string(), 5u8);
    assert_eq!(field.label(), "Name:");
    assert_eq!(field.callback, 5);
    assert_eq!(Field::new(String::new(), ()).label(), ":");
}

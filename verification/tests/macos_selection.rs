use qview_gui::macos::selection::{Selection, TextPoint};
use qview_gui::macos::text::utf16_to_byte;
use qview_gui::macos::view::PointerState;

fn line(n: u64, byte: usize) -> TextPoint {
    TextPoint { line: n, byte }
}

#[test]
fn ordering_by_line_then_byte() {
    assert!(line(1, 5) < line(2, 0));
    assert!(line(1, 2) < line(1, 5));
    assert_eq!(line(3, 1).cmp(&line(3, 1)), std::cmp::Ordering::Equal);
}

#[test]
fn single_line_range() {
    let mut sel = Selection::empty();
    sel.anchor = line(2, 3);
    sel.focus = line(2, 7);
    sel.active = true;
    assert_eq!(sel.selected_range_for_line(2, 100), Some((3, 7)));
    assert_eq!(sel.selected_range_for_line(1, 100), None);
    assert_eq!(sel.selected_range_for_line(3, 100), None);
}

#[test]
fn multi_line_range_expands_middle_rows() {
    let mut sel = Selection::empty();
    sel.anchor = line(1, 2);
    sel.focus = line(3, 4);
    sel.active = true;
    assert_eq!(sel.selected_range_for_line(1, 100), Some((2, 100)));
    assert_eq!(sel.selected_range_for_line(2, 50), Some((0, 50)));
    assert_eq!(sel.selected_range_for_line(3, 100), Some((0, 4)));
    assert_eq!(sel.selected_range_for_line(4, 100), None);
}

#[test]
fn reversed_anchor_focus_same_range() {
    let mut sel = Selection::empty();
    sel.anchor = line(3, 8);
    sel.focus = line(1, 1);
    sel.active = true;
    assert_eq!(sel.selected_range_for_line(1, 100), Some((1, 100)));
    assert_eq!(sel.selected_range_for_line(3, 100), Some((0, 8)));
}

#[test]
fn copy_string_joins_lines() {
    let fake = |l: u64| match l {
        0 => "hello".to_string(),
        1 => "world".to_string(),
        2 => "foo".to_string(),
        _ => String::new(),
    };
    let mut sel = Selection::empty();
    sel.anchor = line(0, 2);
    sel.focus = line(1, 3);
    sel.active = true;
    assert_eq!(sel.copy_string(fake), "llo\nwor");

    // the other way round it is the same
    sel.anchor = line(1, 3);
    sel.focus = line(0, 2);
    assert_eq!(sel.copy_string(fake), "llo\nwor");
}

#[test]
fn collapsed_selection_is_empty() {
    let mut sel = Selection::empty();
    sel.anchor = line(0, 4);
    sel.focus = line(0, 4);
    sel.active = true;
    assert!(sel.is_empty());
    assert_eq!(sel.copy_string(|_| "xxxxx".to_string()), "");
}

#[test]
fn copying_keeps_blank_lines_and_whole_characters() {
    let fake = |l: u64| match l {
        0 => "日志".to_string(),
        1 => String::new(),
        _ => "a😀b".to_string(),
    };
    let mut sel = Selection::empty();
    sel.anchor = line(0, 3);
    sel.focus = line(2, 5);
    sel.active = true;
    assert_eq!(sel.copy_string(fake), "志\n\na😀");
    sel.focus = line(2, 0);
    assert_eq!(sel.copy_string(fake), "志\n\n");
    sel.active = false;
    assert_eq!(sel.copy_string(fake), "");
    let three = |l: u64| if l == 0 { "a".to_string() } else if l == 1 { String::new() } else { "b".to_string() };
    let all = Selection { anchor: line(0, 0), focus: line(2, 1), active: true };
    assert_eq!(all.copy_string(three), "a\n\nb");
    assert_eq!(all.selected_range_for_line(1, 0), Some((0, 0)));
    assert_eq!(all.selected_range_for_line(0, 0), None);
}

#[test]
fn ascii_maps_one_to_one() {
    assert_eq!(utf16_to_byte("hello", 0), 0);
    assert_eq!(utf16_to_byte("hello", 2), 2);
    assert_eq!(utf16_to_byte("hello", 5), 5);
    assert_eq!(utf16_to_byte("hello", 99), 5);
}

#[test]
fn bmp_multibyte_counts_two_bytes_per_char() {
    assert_eq!(utf16_to_byte("你好", 1), 3);
    assert_eq!(utf16_to_byte("你好", 2), 6);
}

#[test]
fn astral_char_counts_two_u16_units() {
    let s = "a😀b";
    assert_eq!(utf16_to_byte(s, 0), 0);
    assert_eq!(utf16_to_byte(s, 1), 1);
    assert_eq!(utf16_to_byte(s, 3), 5);
    assert_eq!(utf16_to_byte(s, 4), 6);
}

fn pointer() -> PointerState {
    PointerState { selection: Selection::empty(), current_line: 0, hover_line: None }
}

#[test]
fn shift_click_extends_the_selection() {
    let mut p = pointer();
    p.mouse_down(line(4, 2), false);
    assert!(p.selection.is_empty());
    assert_eq!(p.current_line, 4);
    p.mouse_down(line(6, 1), true);
    assert_eq!(p.selection.anchor, line(4, 2));
    assert_eq!(p.selection.focus, line(6, 1));
    p.mouse_dragged(line(2, 9));
    assert_eq!(p.selection.ordered(), (line(2, 9), line(4, 2)));
    p.mouse_down(line(1, 1), false);
    assert_eq!(p.selection.anchor, line(1, 1));
}

#[test]
fn right_click_selects_the_word() {
    let mut p = pointer();
    p.right_mouse_down(line(3, 5), Some((4, 9)));
    assert_eq!(p.selection.selected_range_for_line(3, 20), Some((4, 9)));
    assert_eq!(p.current_line, 3);
    p.right_mouse_down(line(7, 0), None);
    assert!(!p.selection.active);
    assert_eq!(p.current_line, 3);
}

#[test]
fn hovering_tells_when_the_line_changes() {
    let mut p = pointer();
    assert!(p.mouse_moved(Some(3)));
    assert!(!p.mouse_moved(Some(3)));
    assert!(p.mouse_exited());
    assert!(!p.mouse_exited());
    p.select_all(9, 12);
    assert_eq!(p.selection.anchor, line(0, 0));
    assert_eq!(p.selection.focus, line(9, 12));
}

use qview_gui::egui::highlight::{
    clip_ranges, file_ranges, line_hits, line_hits_multiline, paint_segments, row_hits, row_hits_multiline,
    Hit, Segment, SegmentKind,
};
use qview_gui::egui::huge_cache::{
    drop_stale, ensure_huge_meta, position_of, HugeLayout, HugeLineCache, RowMeta,
};
use qview_gui::egui::panel::{
    caret_row, carries_gutter, column_of, context_menu, gutter_label, head_of, highlight_bar, is_multiline,
    line_chars, line_mode, line_style, match_window, query_update, selection_columns, selection_rows,
    visible_lines, visible_slack, width_scan, Dialogs, HighlightKind, HugeLines, LineMode, LineWalk,
    PointerFrame, PointerState, QueryUpdate, RowSpan, WidthScan,
};
use qview_gui::egui::rows::{
    estimated_rows, lay_rows, lay_text_rows, row_slice, rows_in_view, seek_row, RowCursor,
};
use qview_gui::egui::toolbar::{
    enter_for_box, goto_enter, item_fill, item_label, item_tip, item_width, on_click, search_enter,
    search_rows, KeyMods, SearchEnter, SearchFlags, ToolbarAction, ToolbarItem, ToolbarState,
};
use qview_gui::egui::viewer::{Color, FilterSpec, LevelColors};
use qview_gui::text::RawLine;

fn hit(start: usize, end: usize, current: bool) -> Hit {
    Hit { start, end, current }
}

#[test]
fn segments_cover_the_line() {
    let segs = paint_segments(&vec![hit(2, 4, false), hit(4, 5, true)], 8);
    let seg = |start, end, kind| Segment { start, end, kind };
    assert_eq!(
        segs,
        vec![
            seg(0, 2, SegmentKind::Plain),
            seg(2, 4, SegmentKind::Match),
            seg(4, 5, SegmentKind::Current),
            seg(5, 8, SegmentKind::Plain),
        ]
    );
    assert_eq!(paint_segments(&vec![], 0), vec![]);
}

#[test]
fn ranges_are_clipped_to_the_window() {
    let ranges = vec![(0, 5), (8, 12), (15, 30), (40, 41)];
    assert_eq!(clip_ranges(&ranges, 10, 20), vec![(0, 2), (5, 10)]);
    assert_eq!(clip_ranges(&ranges, 5, 8), vec![]);
}

#[test]
fn a_match_over_a_row_edge_is_in_both_rows() {
    let m = vec![(3, 8)];
    assert_eq!(row_hits(&m, 20, 0, 5, 100, Some(104)), vec![hit(3, 5, true)]);
    assert_eq!(row_hits(&m, 20, 5, 10, 100, Some(104)), vec![hit(0, 3, false)]);
    assert_eq!(row_hits(&m, 20, 10, 20, 100, None), vec![]);
}

#[test]
fn the_match_of_the_search_is_marked() {
    assert_eq!(
        line_hits(&vec![(1, 3), (5, 99)], 10, 8, Some(16)),
        vec![hit(1, 3, false), hit(5, 8, true)]
    );
    assert_eq!(
        line_hits_multiline(&vec![(8, 14)], 10, 6, Some(8), 6),
        vec![hit(0, 4, true)]
    );
    assert_eq!(
        line_hits_multiline(&vec![(8, 14)], 10, 6, Some(20), 6),
        vec![hit(0, 4, false)]
    );
    assert_eq!(row_hits_multiline(&vec![(8, 14)], 10, 6, Some(12)), vec![hit(0, 4, true)]);
}

#[test]
fn a_layout_remembers_rows() {
    let mut l = HugeLayout::new();
    assert_eq!(l.get(3), None);
    l.set_row(3, 120, 40);
    assert_eq!(l.get(3), Some(RowMeta { start: 120, char_count: 40 }));
    assert_eq!(l.get(2), None);
    l.clear();
    assert_eq!(l.get(3), None);
}

#[test]
fn very_long_lines_are_cached() {
    let read = |line: u64| RawLine { start_byte: line * 1000, text: "é".repeat(60) };
    let mut cache: Vec<HugeLineCache> = Vec::new();
    assert_eq!(ensure_huge_meta(&mut cache, read, 1, (10, 20), 120), None);
    assert_eq!(ensure_huge_meta(&mut cache, read, 1, (10, 20), 100), Some(0));
    assert_eq!(ensure_huge_meta(&mut cache, read, 2, (10, 20), 100), Some(1));
    assert_eq!(cache[1].start_byte, 2000);
    assert_eq!(cache[1].char_count, 60);
    assert_eq!(cache[1].byte_index, vec![(0, 0)]);
    // what is used goes to the end
    assert_eq!(ensure_huge_meta(&mut cache, read, 1, (10, 20), 100), Some(1));
    assert_eq!(position_of(&cache, 2), Some(0));
    assert_eq!(position_of(&cache, 9), None);
    // an edited line is dropped
    drop_stale(&mut cache, 2, 120);
    assert_eq!(cache.len(), 2);
    drop_stale(&mut cache, 2, 121);
    assert_eq!(position_of(&cache, 2), None);
    // a new layout reads the line again
    cache[0].layout.set_row(0, 0, 9);
    assert_eq!(ensure_huge_meta(&mut cache, read, 1, (11, 20), 100), Some(0));
    assert_eq!(cache[0].layout.get(0), None);
    assert_eq!(cache[0].layout_key, (11, 20));
    // the two zeros are one number, and what is not a number is never the same
    let zero = (0.0f32.to_bits(), 1.0f32.to_bits());
    let minus_zero = ((-0.0f32).to_bits(), 1.0f32.to_bits());
    let nan = (f32::NAN.to_bits(), 1.0f32.to_bits());
    for (first, second, kept) in [(zero, minus_zero, true), (nan, nan, false), (zero, nan, false)] {
        assert_eq!(ensure_huge_meta(&mut cache, read, 1, first, 100), Some(0));
        cache[0].layout.set_row(0, 0, 9);
        assert_eq!(ensure_huge_meta(&mut cache, read, 1, second, 100), Some(0));
        assert_eq!(cache[0].layout.get(0).is_some(), kept);
    }
    // a line that is no longer long leaves the cache
    assert_eq!(ensure_huge_meta(&mut cache, read, 1, (12, 20), 120), None);
    assert_eq!(position_of(&cache, 1), None);
}

#[test]
fn the_cache_stays_in_its_budget() {
    let mut cache: Vec<HugeLineCache> = Vec::new();
    let read = |line: u64| RawLine { start_byte: line, text: "x".repeat(20 * 1024 * 1024) };
    for line in 0..5 {
        assert!(ensure_huge_meta(&mut cache, read, line, (0, 0), 1).is_some());
    }
    assert_eq!(position_of(&cache, 0), None);
    assert_eq!(position_of(&cache, 4), Some(cache.len() - 1));
    let held: usize = cache.iter().map(|e| e.text.len()).sum();
    assert!(held <= 64 * 1024 * 1024);
}

#[test]
fn rows_end_at_line_breaks() {
    let text = "ab\ncdefghijklmnop";
    assert_eq!(row_slice(text, 0, 0, 4), ("ab", true));
    let (row, nl) = row_slice(text, 3, 3, 4);
    assert_eq!(row, "cdefghijklmn");
    assert!(!nl);
    let mut c = RowCursor::start();
    assert!(c.advance("ab", 2, true));
    assert_eq!((c.row, c.char_pos, c.byte_pos), (1, 3, 3));
    assert!(!c.advance("", 0, false));
    assert_eq!((c.row, c.char_pos), (2, 3));
}

#[test]
fn a_row_is_found_by_passing_the_rows_before() {
    let mut cache: Vec<HugeLineCache> = Vec::new();
    let read = |_: u64| RawLine { start_byte: 0, text: "é".repeat(50) };
    ensure_huge_meta(&mut cache, read, 0, (0, 0), 1);
    let fit = |row: &str| row.chars().count().min(7);
    let c = seek_row(&mut cache[0], 3, 7, fit);
    assert_eq!((c.row, c.char_pos, c.byte_pos), (3, 21, 42));
    assert_eq!(cache[0].layout.get(2), Some(RowMeta { start: 14, char_count: 7 }));
    // the rows that are known are not laid out again
    let c = seek_row(&mut cache[0], 3, 7, |_: &str| 1);
    assert_eq!(c.char_pos, 21);
}

#[test]
fn rows_of_a_long_line_are_estimated() {
    assert_eq!(estimated_rows(0, 80), 0);
    assert_eq!(estimated_rows(80, 80), 1);
    assert_eq!(estimated_rows(81, 80), 2);
    assert_eq!(rows_in_view(10, 30, 4), (6, 20));
    assert_eq!(rows_in_view(10, 30, 25), (0, 5));
    assert_eq!(rows_in_view(10, 30, 40), (0, 0));
}

fn dialogs() -> Dialogs {
    Dialogs {
        about: false,
        donate: false,
        help: false,
        shortcuts: false,
        settings: false,
        file_properties: false,
        index_manager: false,
        encoding_confirm: false,
        annotation_dialog: false,
        annotation_list: false,
    }
}

#[test]
fn dialogs_keep_the_wheel() {
    let mut d = dialogs();
    assert!(!d.any_open());
    assert_eq!(d.wheel_axes(false), (true, true));
    assert_eq!(d.wheel_axes(true), (true, false));
    d.annotation_list = true;
    assert!(d.any_open());
    assert_eq!(d.wheel_axes(false), (false, false));
}

#[test]
fn the_view_shows_some_rows_more() {
    assert_eq!(visible_slack(true), 12);
    assert_eq!(visible_slack(false), 2);
    assert_eq!(visible_lines(3, 10, 100), (3, 11));
    assert_eq!(visible_lines(3, 10, 5), (3, 5));
    assert_eq!(visible_lines(9, 2, 5), (4, 5));
    let mut w = LineWalk { line: 7, vrow: 20 };
    assert!(!w.is_done(30, 9));
    w.step(12);
    assert_eq!((w.line, w.vrow), (8, 32));
    assert!(w.is_done(30, 9));
}

#[test]
fn long_lines_are_shown_row_by_row() {
    assert_eq!(line_mode(true, true, 5, 100), LineMode::CachedRows);
    assert_eq!(line_mode(true, false, 500, 100), LineMode::TextRows);
    assert_eq!(line_mode(false, false, 100, 100), LineMode::Whole);
    let mut h = HugeLines { lines: Vec::new(), built_for: None };
    assert!(h.refresh((1, 2), || None));
    assert_eq!(h.built_for, None);
    assert!(h.refresh((1, 2), || Some(vec![(4, 5)])));
    assert_eq!(h.lines, vec![(4, 5)]);
    assert!(!h.refresh((1, 2), || Some(vec![])));
    assert_eq!(h.lines, vec![(4, 5)]);
}

#[test]
fn lines_are_coloured_and_dimmed() {
    let c = |r: u8| Color { r, g: 0, b: 0, a: 255 };
    let t = LevelColors {
        level_error: c(1),
        level_warn: c(2),
        level_info: c(3),
        level_debug: c(4),
        level_trace: c(5),
    };
    let f = Some(FilterSpec::Contains { needle: "disk".to_string() });
    assert_eq!(line_style("[warn] disk", true, &f, &t, c(9)), (c(2), false));
    assert_eq!(line_style("[warn] net", true, &f, &t, c(9)), (c(2), true));
    assert_eq!(line_style("[warn] net", false, &None, &t, c(9)), (c(9), false));
    assert_eq!(head_of(&"你".repeat(300)), "你".repeat(200));
    assert_eq!(head_of("short"), "short");
}

#[test]
fn queries_over_lines_need_a_wider_window() {
    assert!(is_multiline("a\nb".as_bytes()));
    assert!(!is_multiline("ab".as_bytes()));
    assert_eq!(match_window(100, 200, 5), (96, 104));
    assert_eq!(match_window(2, 200, 5), (0, 200));
    assert_eq!(match_window(100, 50, 0), (100, 0));
    let s = |t: &str| t.to_string();
    assert_eq!(query_update(&s("a"), &s("a")), QueryUpdate::Keep);
    assert_eq!(query_update(&s(""), &s("a")), QueryUpdate::Clear);
    assert_eq!(query_update(&s("b"), &s("a")), QueryUpdate::Parse);
}

#[test]
fn only_some_lines_are_measured() {
    assert_eq!(width_scan(false, false, false, 9, 0, 1, 100), WidthScan::Later);
    assert_eq!(width_scan(true, false, false, 20_000, 0, 1, 100), WidthScan::EveryLine);
    assert_eq!(width_scan(true, false, false, 20_001, 7, 101, 100), WidthScan::Line(7));
    assert_eq!(width_scan(true, false, false, 20_001, 7, 102, 100), WidthScan::Nothing);
}

#[test]
fn the_pointer_selects() {
    let mut p = PointerState { was_down: false, selecting: false, selection: None, edit_cursor: None };
    let frame = |down, hovered, at| PointerFrame { down, hovered, at, edit_mode: true };
    assert!(p.update(&frame(true, true, Some((3, 4)))));
    assert_eq!(p.selection, Some((3, 4, 3, 4)));
    assert_eq!(p.edit_cursor, Some((3, 4)));
    assert!(!p.update(&frame(true, false, Some((5, 1)))));
    assert_eq!(p.selection, Some((3, 4, 5, 1)));
    p.update(&frame(false, true, Some((9, 9))));
    assert!(!p.selecting);
    assert_eq!(p.selection, Some((3, 4, 5, 1)));
}

#[test]
fn a_selection_is_cut_into_columns_and_rows() {
    assert_eq!(selection_columns((5, 1, 3, 4), 3, 10), Some((4, 10)));
    assert_eq!(selection_columns((5, 1, 3, 4), 4, 10), Some((0, 10)));
    assert_eq!(selection_columns((5, 1, 3, 4), 5, 10), Some((0, 1)));
    assert_eq!(selection_columns((5, 1, 3, 4), 6, 10), None);
    let rows = vec![4, 4, 2];
    assert_eq!(
        selection_rows(0, &rows, 2, 9),
        vec![
            RowSpan { row: 0, lo: 2, hi: 4 },
            RowSpan { row: 1, lo: 0, hi: 4 },
            RowSpan { row: 2, lo: 0, hi: 1 },
        ]
    );
    assert_eq!(column_of(10, &rows, 2, 1), 19);
    assert_eq!(caret_row(0, &rows, 5, 10), Some((1, 1)));
    assert_eq!(caret_row(0, &rows, 99, 10), None);
}

#[test]
fn the_gutter_numbers_lines_from_one() {
    assert_eq!(gutter_label(0), "     1 │ ");
    assert_eq!(gutter_label(1_234_566), "1234567 │ ");
    assert!(carries_gutter(true, 0));
    assert!(!carries_gutter(true, 7));
    let bars = vec![(3, 5, HighlightKind::Annotation), (4, 4, HighlightKind::AgentFocus)];
    assert_eq!(highlight_bar(&bars, 4), Some(Color { r: 0xe0, g: 0xac, b: 0x38, a: 0xff }));
    assert_eq!(highlight_bar(&bars, 6), None);
}

#[test]
fn the_toolbar_follows_the_file() {
    let mut s = ToolbarState {
        file_open: false,
        searching: true,
        has_status: false,
        edit_mode: true,
        modified: true,
        is_new_file: true,
    };
    let items = s.toolbar_items();
    assert_eq!(items.len(), 13);
    assert_eq!(items[2], ToolbarItem::CaseSensitive);
    assert_eq!(items[11..], [ToolbarItem::GotoBox, ToolbarItem::Goto]);
    s.file_open = true;
    let items = s.toolbar_items();
    assert_eq!(items[2], ToolbarItem::Close);
    assert!(items.contains(&ToolbarItem::Stop));
    assert!(items.contains(&ToolbarItem::ModifiedMark));
    assert!(!items.contains(&ToolbarItem::SaveAs));
    s.is_new_file = false;
    assert!(s.toolbar_items().contains(&ToolbarItem::SaveAs));
}

#[test]
fn toolbar_clicks_act() {
    let mut f = SearchFlags { case_sensitive: false, use_regex: false, whole_word: false };
    assert_eq!(on_click(ToolbarItem::Regex, &mut f), ToolbarAction::Nothing);
    assert!(f.use_regex);
    assert_eq!(on_click(ToolbarItem::Regex, &mut f), ToolbarAction::Nothing);
    assert!(!f.use_regex);
    assert_eq!(on_click(ToolbarItem::Find, &mut f), ToolbarAction::RunSearch);
    assert_eq!(on_click(ToolbarItem::Goto, &mut f), ToolbarAction::GotoLine);
    assert_eq!(item_fill(ToolbarItem::Open, false), Some(Color { r: 33, g: 115, b: 237, a: 255 }));
    assert_eq!(item_fill(ToolbarItem::SearchBox, false), None);
    assert_eq!(item_label(ToolbarItem::WholeWord), "\\b");
    assert_eq!(item_label(ToolbarItem::Clear), "清空");
    assert_eq!(item_tip(ToolbarItem::Prev), Some("上一个匹配"));
    assert_eq!(item_tip(ToolbarItem::Find), None);
    assert_eq!(item_width(ToolbarItem::Save), 44);
}

#[test]
fn enter_searches_or_breaks_the_line() {
    assert_eq!(search_enter(true, true, false, false, false), SearchEnter::RunSearch);
    assert_eq!(search_enter(true, true, true, false, false), SearchEnter::InsertNewline);
    assert_eq!(search_enter(true, true, false, false, true), SearchEnter::InsertNewline);
    assert_eq!(search_enter(false, true, false, false, false), SearchEnter::Ignore);
    assert!(goto_enter(true, true));
    assert!(!goto_enter(true, false));
    let held = KeyMods { shift: true, ctrl: false, command: false, alt: true, mac_cmd: false };
    let bare = KeyMods { shift: false, ctrl: false, command: false, alt: false, mac_cmd: false };
    assert_eq!(enter_for_box(SearchEnter::InsertNewline, held), Some(bare));
    assert_eq!(enter_for_box(SearchEnter::RunSearch, bare), None);
    assert_eq!(enter_for_box(SearchEnter::Ignore, held), Some(held));
    assert_eq!(search_rows(""), 1);
    assert_eq!(search_rows("a\nb"), 2);
    assert_eq!(search_rows("a\nb\nc\nd"), 3);
}

#[test]
fn visible_rows_follow_each_other() {
    let mut cache: Vec<HugeLineCache> = Vec::new();
    let text = format!("{}\n{}", "é".repeat(10), "b".repeat(20));
    let read = |_: u64| RawLine { start_byte: 0, text: text.clone() };
    ensure_huge_meta(&mut cache, read, 0, (0, 0), 1);
    let fit = |row: &str| row.chars().count().min(12);
    let rows = lay_rows(&mut cache[0], RowCursor::start(), 9, 12, fit);
    let spans: Vec<(usize, usize, usize)> =
        rows.iter().map(|r| (r.char_pos, r.byte_pos, r.chars)).collect();
    assert_eq!(spans, vec![(0, 0, 10), (11, 21, 12), (23, 33, 8)]);
    assert_eq!(rows[0].text_len, 20);
    assert_eq!(cache[0].layout.get(1), Some(RowMeta { start: 11, char_count: 12 }));
    let again = seek_row(&mut cache[0], 1, 12, fit);
    assert_eq!((again.char_pos, again.byte_pos), (11, 21));
    let some = lay_rows(&mut cache[0], RowCursor { row: 1, char_pos: 11, byte_pos: 21 }, 1, 12, fit);
    assert_eq!(some, rows[1..2].to_vec());
    assert_eq!(lay_text_rows(&text, 9, 12, fit), rows);
    assert_eq!(lay_text_rows(&text, 20, 12, |_: &str| 0).len(), 1);
    let narrow = |row: &str| row.chars().count().min(1);
    let starts = |text: &str| -> Vec<usize> {
        lay_text_rows(text, 20, 12, narrow).iter().map(|r| r.char_pos).collect()
    };
    assert_eq!(starts("abc\n"), vec![0, 1, 2]);
    assert_eq!(starts("aé\n\nb"), vec![0, 1, 3, 4]);
    assert_eq!(lay_text_rows("", 9, 12, fit), vec![]);
}

#[test]
fn characters_of_a_line_are_counted() {
    let mut cache: Vec<HugeLineCache> = Vec::new();
    let read = |_: u64| RawLine { start_byte: 0, text: "é".repeat(50) };
    ensure_huge_meta(&mut cache, read, 3, (0, 0), 1);
    assert_eq!(line_chars(&cache, 3, |_: u64| RawLine { start_byte: 0, text: String::new() }), 50);
    assert_eq!(line_chars(&cache, 4, |_: u64| RawLine { start_byte: 0, text: "你好".to_string() }), 2);
    assert_eq!(context_menu(None, false), None);
    assert_eq!(context_menu(Some((0, 0, 0, 1)), true), Some(false));
    assert_eq!(context_menu(Some((0, 0, 0, 1)), false), Some(true));
    assert_eq!(file_ranges(&vec![(1, 3)], 100), vec![(101, 103)]);
}

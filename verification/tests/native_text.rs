use qview_gui::native::annotations::{
    marked_lines, new_annotation, now, snapshot, store_path, Annotation, Annotations, LocalTime,
};
use qview_gui::native::app::{StoredSearchFlags, ViewFlags};
use qview_gui::native::diagnostics::{human, module_report};
use qview_gui::native::dlg::donate::{
    asset_candidates, donate_button, loaded_from, picture_slot, show_donate, Picture,
};
use qview_gui::native::dlg::encoding::{
    chosen_encoding, confirm_buttons, show_encoding_confirm, show_encoding_menu, switch_encoding,
};
use qview_gui::native::dlg::frame::{class_name, is_caption, key_closes, DlgCtx, DlgPress};
use qview_gui::native::dlg::indexes::{
    cleared_status, files_to_delete, index_buttons, only_indexes, show_index_manager,
};
use qview_gui::native::dlg::notes::{
    edit_buttons, empty_list_status, entry_at, find_annotation, jump_to, list_action, list_buttons,
    save_action, save_status, show_annotation_edit, show_annotation_list, ListAction, SaveAction,
};
use qview_gui::native::dlg::settings::{
    apply_settings, cache_index, cache_value, encoding_index, font_index, scan_index, scan_value,
    settings_buttons, show_settings, small_index, small_value, tab_at, tab_label, tab_rect,
    theme_of_radio, EngineOptions, Options, SettingsForm, ID_FONT_SIZE, ID_THEME_BASE,
};
use qview_gui::native::dlg::text_panel::{
    build_text_lines, collapse_spaces, line_height, line_kind, line_parts, role_color, split_kv,
    split_lines, text_total_height, wrap_line, TKind, TextLine, TextRole, TextViewState,
};
use qview_gui::native::dlg::texts::{
    build_properties_info, ok_button, panel_rect, panel_text_width, show_about, show_help,
    show_properties, show_shortcuts, FileFacts,
};
use qview_gui::native::fontmgr::{all_system_fonts, enum_mono_fonts, fallback_fonts};
use qview_gui::native::geom::Rect;
use qview_gui::native::layout::{
    line_char_widths, prefix_width, wrap_line_into, CharWidthCache, LaidLine, VisualRow,
};
use qview_gui::native::marks::{
    build_byte_to_unit, gutter_label, has_level, indent_guides, is_alternate, leading_cols,
    level_color, line_matches, mark_edges, match_in_row, row_visible, selection_in_row,
    whitespace_marks, SpaceMark, UnitMatch,
};
use qview_gui::native::paint::{clip_area, human_bytes};
use qview_gui::native::selection::{annotation_bytes, copy_text, utf16_to_byte_offset, Selection};
use qview_gui::native::settings::{
    config_path, data_dir, exe_dir, index_dir, AppSettings, FontSetting,
};
use qview_gui::native::theme::builtin;
use qview_gui::native::view::{
    clamp_h_scroll, clamp_top, content_width, first_line_y, font_target, lay_out_lines,
    longest_line, page_rows, pixel_to_line_col, row_height, top_line, visible_span, wrap_factor,
    ViewLayout,
};
use qview_gui::native::widgets::{BtnKind, BtnState, Button};
use qview_gui::numbers::Number;
use qview_gui::text::RawLine;

fn rect(left: i32, top: i32, right: i32, bottom: i32) -> Rect {
    Rect { left, top, right, bottom }
}

fn strings(list: &[&str]) -> Vec<String> {
    list.iter().map(|s| s.to_string()).collect()
}

fn note(id: u64, from: u64, to: u64) -> Annotation {
    Annotation {
        id,
        file_key: "k".to_string(),
        start_byte: 0,
        end_byte: 0,
        start_line: from,
        end_line: to,
        start_col: 1,
        end_col: 2,
        selected_text: "sel".to_string(),
        text: "note".to_string(),
        created_at: String::new(),
        color: 0,
        stale: false,
    }
}

#[test]
fn annotations_mark_lines() {
    let m = marked_lines(&vec![note(1, 3, 5), note(2, 10, 1000)]);
    assert!(m.contains(&3) && m.contains(&5) && !m.contains(&6));
    assert!(m.contains(&10) && !m.contains(&1000));
    let mut a = Annotations::none();
    assert_eq!(a.count(), 0);
    a.reload(Some(vec![note(1, 3, 5)]));
    assert_eq!(a.count(), 1);
    assert!(a.marked.contains(&4));
    a.reload(None);
    assert!(a.marked.is_empty());
}

#[test]
fn annotations_keep_a_bounded_text() {
    assert_eq!(snapshot("short"), "short");
    let long = "你".repeat(2000);
    assert_eq!(snapshot(&long).len(), 4095);
    let sel = Selection { start_line: 5, start_col: 1, end_line: 2, end_col: 7 };
    let a = new_annotation(&sel, (10, 20), "f".to_string(), "txt", "n".to_string(), "t".to_string());
    assert_eq!((a.start_line, a.start_col, a.end_line, a.end_col), (2, 7, 5, 1));
    assert_eq!((a.id, a.start_byte, a.end_byte, a.selected_text.as_str()), (0, 10, 20, "txt"));
    let t = LocalTime {
        year: 2024,
        month: 3,
        day: 9,
        hour: 1,
        minute: 2,
        second: 3,
        milliseconds: 7,
    };
    assert_eq!(now(&t), "2024-03-09 01:02:03.007");
}

#[test]
fn data_lives_beside_the_program() {
    assert_eq!(exe_dir(None), ".");
    let d = exe_dir(Some("C:\\q".to_string()));
    assert!(data_dir(&d).starts_with("C:\\q\\"));
    assert_eq!(config_path(&d), format!("{}\\config.json", data_dir(&d)));
    assert_eq!(index_dir(&d), format!("{}\\index", data_dir(&d)));
    assert_eq!(store_path(&d), format!("{}\\annotations.json", data_dir(&d)));
    assert!(AppSettings::default().recent_files.is_empty());
    assert_eq!(FontSetting::default().pixel, AppSettings::default().font.pixel);
}

#[test]
fn modules_are_reported_by_size() {
    assert_eq!(human(1536), "   1.50 KiB");
    let r = module_report(vec![("a.dll".to_string(), 1024), ("b.dll".to_string(), 2048)]);
    assert_eq!(r.len(), 3);
    assert!(r[0].contains("3.00 KiB"));
    assert!(r[1].starts_with("    b.dll"));
    assert!(r[2].starts_with("    a.dll"));
    let many = (0..30).map(|i| (format!("m{i}"), i)).collect();
    assert_eq!(module_report(many).len(), 16);
}

#[test]
fn assets_are_looked_for() {
    let c = asset_candidates(Some("C:\\w"), Some("C:\\p"), "a.png");
    assert!(!c.is_empty());
    assert!(c[0].starts_with("C:\\w\\") && c[0].ends_with("a.png"));
    assert!(c.last().unwrap().starts_with("C:\\p"));
    assert!(asset_candidates(None, None, "a.png").is_empty());
    assert_eq!(picture_slot(40).frame, rect(40, 100, 220, 280));
    assert_eq!(donate_button().kind, BtnKind::Primary);
}

#[test]
fn encodings_are_chosen() {
    let m = show_encoding_menu("UTF-8");
    assert_eq!(m.len(), 11);
    assert_eq!(m.iter().filter(|e| e.checked).count(), 1);
    let at = m.iter().position(|e| e.checked).unwrap();
    assert_eq!(chosen_encoding(m[at].id as i32, "UTF-8"), None);
    let other = (at + 1) % 11;
    assert_eq!(chosen_encoding(m[other].id as i32, "UTF-8"), Some(other));
    assert_eq!(chosen_encoding(9, "UTF-8"), None);
    assert_eq!(
        show_encoding_confirm("UTF-8", "GBK"),
        "将编码从 UTF-8 切换到 GBK？\n切换后重新加载文件。"
    );
    assert_eq!(confirm_buttons()[1].label, "取消");
    assert_eq!(encoding_index("UTF-8"), at);
    assert_eq!(encoding_index("none"), 0);
}

fn dialog() -> DlgCtx {
    let b = vec![
        Button::new(rect(100, 100, 200, 130), BtnKind::Primary, "好"),
        Button::new(rect(220, 100, 320, 130), BtnKind::Neutral, "取消"),
    ];
    DlgCtx::new("t", 400, 200, b, None)
}

#[test]
fn a_pressed_button_acts() {
    let mut d = dialog();
    assert!(d.on_move(150, 110));
    assert_eq!(d.buttons[0].state, BtnState::Hover);
    assert!(!d.on_move(151, 110));
    assert_eq!(d.on_press(150, 110), DlgPress::Forward);
    assert_eq!(d.buttons[0].state, BtnState::Pressed);
    assert_eq!(d.hit_btn(150, 110), Some(0));
    assert_eq!(d.on_release(150, 110), Some(0));
    assert_eq!(d.on_release(150, 110), None);
    assert_eq!(d.on_press(380, 10), DlgPress::Close);
    assert_eq!(d.hit_btn(5, 5), None);
    assert!(!d.on_wheel(120));
    assert!(key_closes(0x1B, true) && !key_closes(0x1B, false) && !key_closes(0x0D, true));
    assert!(is_caption(400, 10, 10) && !is_caption(400, 380, 10) && !is_caption(400, 10, 50));
    assert_eq!(class_name().len(), 8);
}

#[test]
fn clearing_keeps_the_open_file() {
    let files = vec![
        ("b.qli".to_string(), 1024),
        ("a.qli".to_string(), 512),
        ("x.txt".to_string(), 9),
    ];
    assert_eq!(only_indexes(files.clone()).len(), 2);
    assert_eq!(
        show_index_manager(files.clone(), Some("b.qli"), 3, 4),
        "  512 B  a.qli\n★ 1.00 KiB  b.qli\n\n共 2 个索引文件，占用 1.50 KiB\n最近文件 3 条 · 搜索历史 4 条"
    );
    assert!(show_index_manager(vec![], None, 0, 0).starts_with("（无缓存文件）"));
    assert_eq!(files_to_delete(&files, Some("b.qli")), (strings(&["a.qli"]), 512));
    assert_eq!(files_to_delete(&files, None).1, 1536);
    assert_eq!(cleared_status(512), "已清空缓存（512 B 释放）");
    assert_eq!(index_buttons()[0].kind, BtnKind::Danger);
}

#[test]
fn annotations_are_written() {
    let list = vec![note(7, 3, 5)];
    assert_eq!(find_annotation(&list, 7), Some(0));
    assert_eq!(find_annotation(&list, 8), None);
    let v = show_annotation_edit(&list, Some(7), None);
    assert_eq!((v.title.as_str(), v.preview.as_str(), v.note.as_str()), ("编辑批注", "sel", "note"));
    let v = show_annotation_edit(&list, None, Some(""));
    assert_eq!((v.title.as_str(), v.caption.as_str()), ("添加批注", "（请先在日志中选中内容）"));
    assert_eq!(show_annotation_edit(&list, None, Some("abc")).preview, "abc");
    assert_eq!(save_action("", true, None, true, true), SaveAction::EmptyNote);
    assert_eq!(save_action("n", false, None, true, true), SaveAction::Nothing);
    assert_eq!(save_action("n", true, Some(7), false, false), SaveAction::Change(7));
    assert_eq!(save_action("n", true, None, false, false), SaveAction::NoSelection);
    assert_eq!(save_action("n", true, None, true, true), SaveAction::Add);
    assert_eq!(save_status(SaveAction::EmptyNote), Some("批注内容不能为空"));
    assert_eq!(save_status(SaveAction::Add), Some("批注已保存"));
    assert_eq!(save_status(SaveAction::Nothing), None);
    assert_eq!(edit_buttons()[0].label, "保存");
}

#[test]
fn a_press_chooses_what_is_painted() {
    let list: Vec<Annotation> = (0..8).map(|i| note(i, i, i + 1)).collect();
    let t = builtin(0);
    let entries = show_annotation_list(&list, 2, &t);
    assert_eq!(entries.len(), 6);
    assert!(entries[2].chosen && !entries[1].chosen);
    for (i, e) in entries.iter().enumerate() {
        assert_eq!(entry_at(e.rect.left, e.rect.top, list.len()), Some(i));
    }
    assert_eq!(entry_at(5, 50, 8), None);
    assert_eq!(list_action(0, &list, 2), ListAction::Edit(2));
    assert_eq!(list_action(1, &list, 2), ListAction::Jump(2));
    assert_eq!(list_action(1, &list, -1), ListAction::Nothing);
    assert_eq!(list_action(2, &list, -1), ListAction::Close);
    let j = jump_to(&list[3]);
    assert_eq!((j.line, j.status.as_str()), (3, "跳转到批注 · 行 4"));
    assert_eq!(empty_list_status(&list), None);
    assert_eq!(empty_list_status(&vec![]), Some("当前文件还没有批注"));
    assert_eq!(list_buttons().len(), 3);
}

fn options() -> Options {
    Options {
        font_family: "Consolas".to_string(),
        font_size: Number::of_whole(13),
        row_height: Number::of_whole(18),
        view: ViewFlags {
            show_line_numbers: true,
            word_wrap: false,
            show_whitespace: false,
            show_indent_guides: false,
            level_coloring: true,
        },
        search: StoredSearchFlags { case_sensitive: false, use_regex: false, whole_word: false },
        engine: EngineOptions {
            encoding: "UTF-8".to_string(),
            small_file_threshold: 10 << 20,
            line_cache_capacity: 10000,
            scan_window_mb: 64,
            index_cache_enabled: true,
        },
    }
}

#[test]
fn settings_are_applied() {
    let mut o = options();
    let form = SettingsForm {
        font_sel: 1,
        font_size: " 99 ".to_string(),
        row_height: "x".to_string(),
        view: o.view,
        search: o.search,
        enc_sel: -1,
        small_sel: 0,
        cache_sel: 3,
        scan_sel: 4,
        index_cache: false,
    };
    let fonts = strings(&["Consolas", "Hack"]);
    assert_eq!(apply_settings(&mut o, &form, &fonts), (36, 18));
    assert_eq!(o.font_family, "Hack");
    assert_eq!((o.font_size.whole, o.row_height.whole), (36, 18));
    assert_eq!(o.engine.small_file_threshold, 1 << 20);
    assert_eq!(o.engine.line_cache_capacity, 50000);
    assert_eq!(o.engine.scan_window_mb, 256);
    assert!(!o.engine.index_cache_enabled);
    let form = SettingsForm { font_size: "12.5".to_string(), row_height: "17.25".to_string(), ..form };
    assert_eq!(apply_settings(&mut o, &form, &fonts), (12, 17));
    assert_eq!((o.font_size.fraction.as_str(), o.row_height.fraction.as_str()), ("5", "25"));
    assert_eq!(font_index(&fonts, "Hack"), 1);
    assert_eq!(font_index(&fonts, "none"), 0);
}

#[test]
fn offered_values_come_back() {
    for i in 0..5 {
        assert_eq!(small_index(small_value(i)), i);
        assert_eq!(scan_index(scan_value(i)), i);
    }
    for i in 0..4 {
        assert_eq!(cache_index(cache_value(i)), i);
    }
    assert_eq!(small_index(7), 2);
    assert_eq!(theme_of_radio(ID_THEME_BASE + 5), Some(5));
    assert_eq!(theme_of_radio(ID_THEME_BASE + 6), None);
    for i in 0..4 {
        let r = tab_rect(i, 520);
        assert_eq!(tab_at(r.left, r.top, 520), Some(i));
    }
    assert_eq!(tab_at(10, 10, 520), None);
    assert_eq!(tab_label(2), "主题");
    let c = show_settings(&options(), 2, &strings(&["Consolas"]));
    assert!(c.iter().any(|x| x.id == ID_THEME_BASE + 2 && x.on));
    assert!(c.iter().any(|x| x.id == ID_FONT_SIZE && x.text == "13"));
    assert_eq!(settings_buttons()[0].label, "应用");
}

#[test]
fn texts_are_broken_into_lines() {
    assert_eq!(split_lines("a\nb\n"), strings(&["a", "b"]));
    assert_eq!(collapse_spaces("a   b"), "a b");
    assert_eq!(line_kind("路径：x"), TKind::Kv);
    assert_eq!(line_kind("no label"), TKind::Body);
    assert_eq!(split_kv("大小：5"), ("大小".to_string(), "：5".to_string()));
    let width = |s: &str| 10 * s.chars().count() as i32;
    let mut out = Vec::new();
    wrap_line(&width, "abcdefgh", 30, TKind::Body, &mut out);
    let texts: Vec<&str> = out.iter().map(|l| l.text.as_str()).collect();
    assert_eq!(texts, vec!["abc", "def", "gh"]);
    let lines = build_text_lines(&width, "## 标题\r\n\n  内容：x   y", 1000);
    assert_eq!(lines.len(), 3);
    assert_eq!((lines[0].text.as_str(), lines[0].kind), ("标题", TKind::Header));
    assert_eq!((lines[2].text.as_str(), lines[2].kind), ("内容：x y", TKind::Kv));
    assert_eq!(text_total_height(&lines), lines.iter().map(line_height).sum::<i32>());
    let t = builtin(0);
    assert_eq!(role_color(TextRole::Heading, &t), t.info);
    let l = TextLine { text: "大小：5".to_string(), kind: TKind::Kv };
    let parts = line_parts(&l);
    assert_eq!(parts.len(), 2);
    assert_eq!(parts[1], (TextRole::Value, "：5".to_string()));
}

#[test]
fn text_panels_scroll() {
    let lines: Vec<TextLine> =
        (0..40).map(|i| TextLine { text: format!("l{i}"), kind: TKind::Body }).collect();
    let mut v = TextViewState::new(lines, rect(10, 40, 410, 340));
    assert!(v.max_scroll > 0);
    let shown = v.visible_lines();
    assert_eq!(shown[0].0, 0);
    assert!(shown.len() < 40);
    v.wheel(-120);
    assert_eq!(v.scroll, 36);
    v.wheel(1200);
    assert_eq!(v.scroll, 0);
    let track = v.track_rect();
    v.track = track;
    v.thumb = rect(track.left, track.top, track.right, track.top + 20);
    assert!(!v.press(track.left + 1, track.top + 5));
    assert!(v.press(track.left + 1, track.bottom - 2));
    assert_eq!(v.scroll, v.max_scroll.min(300));
    assert!(!v.press(20, 100));
    assert!(v.text_area().0 < v.text_area().1 || v.text_area().1 > 0);
    let short = TextViewState::new(vec![], rect(10, 40, 410, 340));
    assert_eq!(short.max_scroll, 0);
}

#[test]
fn dialogs_of_text() {
    assert!(show_help().body.contains("取消"));
    assert!(show_shortcuts().body.contains("Ctrl+R"));
    assert!(show_about("1.2.3").body.contains("1.2.3"));
    assert!(!build_properties_info(None).is_empty());
    let f = FileFacts {
        file_name: "a.log".to_string(),
        path: "C:\\a.log".to_string(),
        size: 2048,
        line_count: 7,
        encoding: "UTF-8".to_string(),
        crlf: true,
        index_cache_enabled: true,
        index_path: "C:\\i".to_string(),
        index_size: Some(1024),
    };
    let d = show_properties(Some(&f));
    assert!(d.body.contains("a.log") && d.body.contains("CRLF") && d.body.contains("2.00 KiB"));
    let p = panel_rect(d.w, d.h);
    assert!(p.left < p.right && panel_text_width(&p) < p.right - p.left);
    assert_eq!(ok_button(d.w, d.h).kind, BtnKind::Primary);
}

#[test]
fn fonts_are_listed_once() {
    let face = |s: &str| {
        let mut u: Vec<u16> = s.encode_utf16().collect();
        u.push(0);
        u.resize(32, 7);
        u
    };
    assert_eq!(
        enum_mono_fonts(&vec![face("Hack"), face("Consolas"), face("Hack")]),
        strings(&["Hack", "Consolas"])
    );
    assert_eq!(all_system_fonts(&vec![]), fallback_fonts());
    assert!(fallback_fonts().contains(&"Consolas".to_string()));
}

#[test]
fn lines_wrap_between_characters() {
    let mut c = CharWidthCache::default();
    assert!(c.is_stale(13));
    c.ensure(13, None);
    assert!(!c.is_stale(13));
    assert_eq!(c.width(65), 8);
    assert_eq!(c.width(0x4F60), 0);
    c.ensure(14, Some([7; 128]));
    assert_eq!(c.width(65), 7);
    let mut w = Vec::new();
    line_char_widths(&[65, 0x4F60, 66], &c.ascii, &|_| Some(14), &mut w);
    assert_eq!(w, vec![7, 14, 7]);
    assert_eq!(prefix_width(&w, 1, 3), 21);
    let mut rows = Vec::new();
    wrap_line_into(&[10; 7], 30, &mut rows);
    let spans: Vec<(usize, usize, i32)> = rows.iter().map(|r| (r.start, r.end, r.width)).collect();
    assert_eq!(spans, vec![(0, 3, 30), (3, 6, 30), (6, 7, 10)]);
    wrap_line_into(&[], 30, &mut rows);
    assert_eq!(rows.len(), 1);
}

fn row(start: usize, end: usize) -> VisualRow {
    VisualRow { start, end, x_off: 0, width: 0 }
}

#[test]
fn marks_stand_on_units() {
    let t = builtin(0);
    assert_eq!(level_color("[warn] x", &t), Some(t.level_warn));
    assert_eq!(level_color("[ınfo] x", &t), None);
    assert!(has_level("ERROR: X".as_bytes(), "ERROR".as_bytes()));
    assert!(!has_level("ERROR: X".as_bytes(), "".as_bytes()));
    let mut map = Vec::new();
    build_byte_to_unit("a😀b", &mut map);
    assert_eq!(map, vec![0, 1, 1, 1, 1, 3, 4]);
    let m = line_matches("a😀b", &vec![(0, 1), (1, 5)], 100, Some(102));
    assert_eq!(
        m,
        vec![
            UnitMatch { start: 0, end: 1, current: false },
            UnitMatch { start: 1, end: 3, current: true },
        ]
    );
    assert_eq!(match_in_row(&m[1], &row(2, 9)), Some((2, 3)));
    assert_eq!(match_in_row(&m[0], &row(2, 9)), None);
    let sel = Selection { start_line: 1, start_col: 2, end_line: 3, end_col: 4 };
    assert_eq!(selection_in_row(&sel, 1, 10, &row(0, 10)), Some((2, 10)));
    assert_eq!(selection_in_row(&sel, 3, 10, &row(0, 10)), Some((0, 4)));
    assert_eq!(selection_in_row(&sel, 4, 10, &row(0, 10)), None);
    assert_eq!(mark_edges(50, &vec![8, 8, 8], 1, 3), (58, 74));
    assert_eq!(mark_edges(50, &vec![8, 8, 8], 1, 1), (58, 59));
}

#[test]
fn indentation_is_guided() {
    assert_eq!(leading_cols(" \t x"), 6);
    let g = indent_guides(9, 50, 8, 800);
    assert_eq!(g.len(), 2);
    assert_eq!(g[1] - g[0], 32);
    let units: Vec<u16> = "a b\t".encode_utf16().collect();
    assert_eq!(whitespace_marks(&units, &row(0, 4)), vec![(1, SpaceMark::Dot), (3, SpaceMark::Arrow)]);
    assert!(row_visible(30, 18, 38, 500) && !row_visible(10, 18, 38, 500));
    assert!(is_alternate(3) && !is_alternate(4));
    assert_eq!(gutter_label(9), "    10 │");
    assert_eq!(human_bytes(1 << 40), "1024.00 GiB");
    assert_eq!(clip_area(5, 6, 0), rect(5, 6, 6, 1006));
}

#[test]
fn selections_are_copied() {
    let read = |l: u64| match l {
        1 => "ab😀".to_string(),
        2 => "mid".to_string(),
        _ => "last".to_string(),
    };
    let sel = Selection { start_line: 3, start_col: 2, end_line: 1, end_col: 2 };
    assert_eq!(sel.normalized(), (1, 2, 3, 2));
    assert!(!sel.is_empty());
    let text = copy_text(Some(read), &sel).unwrap();
    assert_eq!(text.replace("\r\n", "\n"), "😀\nmid\nla");
    assert_eq!(copy_text(None::<fn(u64) -> String>, &sel), None);
    assert_eq!(utf16_to_byte_offset("ab😀c", 4), 6);
    let first = RawLine { start_byte: 100, text: "ab😀".to_string() };
    let last = RawLine { start_byte: 200, text: "last".to_string() };
    assert_eq!(annotation_bytes(&first, &last, &sel), (102, 202));
}

#[test]
fn the_view_is_laid_out() {
    assert_eq!(row_height(13), 18);
    assert_eq!(row_height(2), 14);
    assert_eq!(font_target(0), 13);
    assert_eq!(content_width(800, 60), 720);
    assert_eq!(content_width(50, 60), 40);
    assert_eq!(wrap_factor(false, 8, 720), 1);
    assert_eq!(wrap_factor(true, 8, 200), 4);
    assert_eq!(page_rows(520, 18), 28);
    assert_eq!(clamp_top(5000, 100, 18, 180), 90);
    assert_eq!(top_line(7, 3), (2, 1));
    assert_eq!(first_line_y(38, 1, 18), 20);
    assert_eq!(clamp_h_scroll(500, 300, 200), (100, 100));
    let read = |l: u64| RawLine { start_byte: l * 10, text: "x".repeat(l as usize + 1) };
    let laid = lay_out_lines(0, 4, 38, 500, 18, false, 700, &[8; 128], &read, &|_| None);
    assert_eq!(laid.len(), 4);
    assert_eq!(laid[3].y_top, 38 + 3 * 18);
    assert_eq!(longest_line(&laid), 32);
    assert_eq!(visible_span(&laid, 60, 0), (1, 3));
    let v = ViewLayout {
        laid,
        content_x: 60,
        gutter_w: 54,
        text_right: 780,
        view_top: 38,
        view_h: 462,
        row_h: 18,
    };
    assert_eq!(pixel_to_line_col(60 + 17, 38 + 40, &v), (2, 2));
    let wrapped: Vec<LaidLine> =
        lay_out_lines(3, 4, 38, 500, 18, true, 16, &[8; 128], &read, &|_| None);
    assert_eq!(wrapped[0].rows.len(), 2);
    assert_eq!(wrapped[0].line_h, 36);
}

#[test]
fn agreeing_switches_the_encoding() {
    let mut engine = EngineOptions {
        encoding: "UTF-8".to_string(),
        small_file_threshold: 1,
        line_cache_capacity: 2,
        scan_window_mb: 3,
        index_cache_enabled: true,
    };
    let refused = switch_encoding(&mut engine, "GBK", false, Some("a.log"));
    assert!(!refused.save && refused.reopen.is_none());
    assert_eq!(engine.encoding, "UTF-8");
    let agreed = switch_encoding(&mut engine, "GBK", true, Some("a.log"));
    assert!(agreed.save);
    assert_eq!(agreed.reopen, Some("a.log".to_string()));
    assert_eq!(engine.encoding, "GBK");
    assert_eq!((engine.small_file_threshold, engine.scan_window_mb), (1, 3));
    assert_eq!(switch_encoding(&mut engine, "UTF-8", true, None).reopen, None);
}

#[test]
fn the_donation_dialog_shows_what_was_loaded() {
    let theme = builtin(0);
    let view = show_donate(500, &theme, true, true, false);
    assert_eq!(view.title, "❤ 捐赠");
    assert_eq!((view.heading.x, view.heading.y), (190, 52));
    assert_eq!(view.heading.text, "❤ 为作者续命 ❤");
    assert!(matches!(view.slots[0].picture, Picture::Shown { x: 60, y: 100 }));
    assert_eq!(view.slots[0].label.text, "微信支付");
    match &view.slots[1].picture {
        Picture::Missing { frame, fill, note } => {
            assert_eq!(*frame, rect(260, 100, 440, 280));
            assert_eq!(*fill, theme.bg_tertiary);
            assert_eq!((note.x, note.y, note.text.as_str()), (305, 180, "二维码缺失"));
        }
        Picture::Shown { .. } => panic!("the picture was not loaded"),
    }
    assert_eq!((view.slots[1].label.x, view.slots[1].label.y), (310, 290));
    assert_eq!((view.footer.x, view.footer.y), (120, 340));
    assert!(show_donate(500, &theme, false, true, true).slots.is_empty());
    let paths = strings(&["a", "b", "c"]);
    assert_eq!(loaded_from(&paths, &|p: &String| p != "a"), Some(1));
    assert_eq!(loaded_from(&paths, &|_: &String| false), None);
}

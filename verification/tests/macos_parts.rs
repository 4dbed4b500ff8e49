use qview_gui::macos::bridge::DisplayLine;
use qview_gui::macos::config::GuiConfig;
use qview_gui::macos::dialogs::{
    deleted_text, is_index, manage_indexes, open_error, prompt_goto, search_error, show_about,
    show_help, show_properties, show_shortcuts, FileFacts,
};
use qview_gui::macos::lines::{collect_rows, hit_test, line_at, segment_at, Place};
use qview_gui::macos::menu::{
    build_context_menu, build_main_menu, set_check, sync_recent_menu, sync_search_checks,
    sync_theme_checks, sync_view_checks, Action, MenuState, Mods, RecentFile, RowKind, Target,
};
use qview_gui::macos::selection::TextPoint;
use qview_gui::macos::settings_sheet::{
    apply_snapshot, available_mono_families, build_display_tab, build_engine_tab, build_search_tab,
    build_theme_tab, cache_of_label, cache_popup, encoding_entries, font_popup, index_dir_text,
    is_mono, sync_theme_radios, threshold_of_label, threshold_popup, EngineOptions, PartKind,
    PartRole, SettingsSnapshot,
};
use qview_gui::macos::text::{
    clamp_offset, overlap, pick_font, replace_whitespace, visual_rows, wrap_into_segments,
    ReportedFont,
};
use qview_gui::macos::theme::{
    all_builtin_themes, dark_high_contrast, dark_pro, dracula, hex, light, monokai, solarized_dark,
    theme_by_name, theme_names, Rgba,
};
use qview_gui::macos::toolbar::{
    allowed_item_identifiers, default_item_identifiers, id, identifiers_with_stop,
    item_for_identifier, look, set_stop_visible, Item, ItemKind,
};
use qview_gui::macos::util::{byte_ranges_to_utf16, human_bytes};
use qview_gui::macos::window::{dragging_entered, read_dragged_path, DragOperation};

fn strings(list: &[&str]) -> Vec<String> {
    list.iter().map(|s| s.to_string()).collect()
}

#[test]
fn dialogs_say_what_is_open() {
    let f = FileFacts { path: "/a.log".to_string(), size: 2048, lines: 3, indexing: false };
    let d = show_properties(Some(&f));
    assert_eq!(d.title, "文件属性");
    assert_eq!(d.text, "文件: /a.log\n大小: 2.00 KiB\n行数: 3\n索引: 就绪");
    assert_eq!(show_properties(None).text, "未打开文件");
    assert_eq!(show_about().title, "关于 qview");
    assert_eq!(show_help().title, "帮助");
    assert!(show_shortcuts().text.contains("F3 / Cmd+G      下一个"));
    assert_eq!(prompt_goto(12).unwrap(), "行号范围 1 - 12");
    assert_eq!(prompt_goto(0), None);
    assert_eq!(open_error("/a", "no"), "无法打开文件:\n/a\n\nno");
    assert_eq!(search_error("bad"), "搜索失败: bad");
}

#[test]
fn indexes_are_listed_by_name() {
    assert!(is_index("a.qli"));
    assert!(!is_index("a.log"));
    let files = vec![("b.qli".to_string(), 1024), ("a.qli".to_string(), 512)];
    let d = manage_indexes("/i", false, files);
    assert_eq!(
        d.body,
        "索引缓存目录:\n/i\n\n2 个缓存文件，共 1.50 KiB\n · a.qli  (512 B)\n · b.qli  (1.00 KiB)\n"
    );
    assert!(d.can_delete);
    assert_eq!(d.button, "清空缓存");
    let d = manage_indexes("/i", true, vec![]);
    assert_eq!(d.body, "索引缓存目录:\n/i\n\n⚠ 正在建立索引，请完成后清理\n\n没有索引缓存文件");
    assert!(!d.can_delete);
    let many = (0..17).map(|i| (format!("{:02}.qli", i), 1)).collect();
    assert!(manage_indexes("/i", false, many).body.ends_with(" · …其余 2 个\n"));
    assert_eq!(deleted_text(2), "已删除 2 个缓存文件。\n重新打开文件时索引会自动重建。");
}

fn menu_state() -> MenuState {
    MenuState {
        recent: vec![
            RecentFile { path: "/x/a.log".to_string(), name: Some("a.log".to_string()) },
            RecentFile { path: "/".to_string(), name: None },
        ],
        theme: "Light".to_string(),
        show_line_numbers: true,
        word_wrap: false,
        show_whitespace: false,
        level_coloring: true,
        show_indent_guides: false,
        case_sensitive: false,
        use_regex: true,
        whole_word: false,
    }
}

#[test]
fn the_menu_bar_shows_the_state() {
    let mut rows = build_main_menu(&menu_state());
    let find = |rows: &Vec<qview_gui::macos::menu::MenuRow>, t: &str| {
        rows.iter().position(|r| r.title == t).unwrap()
    };
    assert_eq!(rows[0].title, "qview");
    let i = find(&rows, "a.log");
    assert_eq!(rows[i].path, "/x/a.log");
    assert_eq!(rows[i].action, Action::OpenRecent);
    assert_eq!(rows[i + 1].title, "/");
    assert!(rows[find(&rows, "Light")].on);
    assert!(!rows[find(&rows, "Monokai")].on);
    assert!(rows[find(&rows, "显示行号")].on);
    let next = find(&rows, "查找下一个");
    assert_eq!(rows[next].key, "\u{F706}");
    assert_eq!(rows[next + 1].mods, Mods::Shift);
    set_check(&mut rows, "显示行号", false);
    assert!(!rows[find(&rows, "显示行号")].on);
    assert!(rows[find(&rows, "Light")].on);
}

#[test]
fn menus_of_the_text_and_of_recent_files() {
    let rows = build_context_menu();
    assert_eq!(rows.len(), 2);
    assert_eq!((rows[1].title.as_str(), rows[1].key.as_str()), ("全选", "a"));
    assert_eq!(rows[0].target, Target::Responder);
    let rows = sync_recent_menu(&vec![]);
    assert_eq!(rows.len(), 1);
    assert_eq!((rows[0].title.as_str(), rows[0].kind), ("（无）", RowKind::Disabled));
}

#[test]
fn labels_stand_for_values() {
    assert_eq!(threshold_of_label("50 MB"), 50 * 1024 * 1024);
    assert_eq!(threshold_of_label("7 MB"), 10 * 1024 * 1024);
    assert_eq!(cache_of_label("20000"), 20000);
    assert_eq!(cache_of_label("x"), 10000);
    let p = threshold_popup(5 * 1024 * 1024);
    assert_eq!((p.entries.len(), p.selected), (5, 1));
    let p = threshold_popup(7 * 1024 * 1024);
    assert!(p.entries.contains(&"7 MB".to_string()));
    assert_eq!(p.selected, 0);
    let p = cache_popup(50000);
    assert_eq!((p.entries.len(), p.selected), (4, 3));
    assert_eq!(cache_popup(123).entries.len(), 5);
    assert_eq!(encoding_entries().len(), 11);
    assert_eq!(index_dir_text(None), "未设置");
    assert_eq!(index_dir_text(Some("/i")), "/i");
}

#[test]
fn monospaced_fonts_are_offered() {
    assert!(is_mono("jetbrains mono"));
    assert!(!is_mono("arial"));
    let names = strings(&["Arial", "Fira MONO", "Courier New", "Menlo", "Courier New"]);
    let list = available_mono_families(&names);
    assert_eq!(list, strings(&["Monaco", "SF Mono", "Courier New", "Fira MONO", "Menlo"]));
    let p = font_popup(&list, "Menlo");
    assert_eq!((p.entries.len(), p.selected), (5, 4));
    let p = font_popup(&list, "Hack");
    assert_eq!((p.entries.len(), p.selected), (6, 5));
}

#[test]
fn a_sheet_is_taken_into_the_settings() {
    let mut gui = GuiConfig::default();
    let mut engine = EngineOptions {
        encoding: "utf-8".to_string(),
        small_file_threshold: 0,
        index_cache_enabled: false,
        line_cache_capacity: 0,
    };
    let snap = SettingsSnapshot {
        font_family: "Monaco".to_string(),
        font_size: 14.0f32.to_bits(),
        row_height: 20.0f64.to_bits(),
        show_line_numbers: false,
        word_wrap: true,
        show_whitespace: true,
        level_coloring: false,
        show_indent_guides: true,
        case_sensitive: true,
        use_regex: false,
        whole_word: true,
        encoding: "gbk".to_string(),
        threshold_label: "1 MB".to_string(),
        index_cache_enabled: true,
        cache_label: "5000".to_string(),
    };
    assert!(apply_snapshot(&mut gui, &mut engine, snap));
    assert_eq!(gui.theme, "Dark Pro");
    assert_eq!(gui.font_family, "Monaco");
    assert!(gui.word_wrap && gui.whole_word && gui.show_indent_guides);
    assert_eq!(engine.encoding, "gbk");
    assert_eq!(engine.small_file_threshold, 1024 * 1024);
    assert_eq!(engine.line_cache_capacity, 5000);
}

#[test]
fn the_tabs_of_the_sheet() {
    let g = GuiConfig::default();
    let d = build_display_tab(&g, "13", "18");
    assert_eq!(d.len(), 13);
    assert_eq!(d[4].text, "13");
    assert_eq!(d[8].kind, PartKind::Check(true));
    assert_eq!(build_search_tab(&g).len(), 3);
    let t = build_theme_tab("Dracula");
    assert!(t.iter().any(|p| p.role == PartRole::Theme(4) && p.kind == PartKind::Radio(true)));
    assert!(t.iter().any(|p| p.role == PartRole::Theme(0) && p.kind == PartKind::Radio(false)));
    let e = build_engine_tab(true, "/i");
    assert_eq!(e[8].text, "/i");
    assert_eq!(e[4].kind, PartKind::Check(true));
    assert_eq!(sync_theme_radios("Light"), vec![false, false, true, false, false, false]);
}

#[test]
fn blanks_become_visible() {
    assert_eq!(replace_whitespace("a b\tc"), "a·b→c");
}

#[test]
fn segments_follow_each_other() {
    assert_eq!(wrap_into_segments(10, &|s| s + 4), vec![(0, 4), (4, 8), (8, 10)]);
    assert_eq!(wrap_into_segments(10, &|_| 4), vec![(0, 4), (4, 10)]);
    assert_eq!(wrap_into_segments(0, &|s| s + 4), vec![]);
    assert_eq!(wrap_into_segments(5000, &|s| s + 1).len(), 1000);
    assert_eq!(visual_rows(0), 1);
    assert_eq!(visual_rows(3), 3);
    assert_eq!(overlap(2, 9, 4, 3), Some((0, 3)));
    assert_eq!(overlap(5, 6, 4, 3), Some((1, 2)));
    assert_eq!(overlap(7, 9, 4, 3), None);
    assert_eq!(clamp_offset(-1, 4, 3), 4);
    assert_eq!(clamp_offset(6, 4, 3), 6);
    assert_eq!(clamp_offset(99, 4, 3), 7);
}

#[test]
fn the_first_font_that_exists_is_picked() {
    let font = |a: &str, b: &str| ReportedFont {
        post_script_name: a.to_string(),
        family_name: b.to_string(),
    };
    let c = strings(&["Nope", "menlo"]);
    assert_eq!(pick_font(&c, &vec![font("Helvetica", "Helvetica"), font("Menlo-Regular", "Menlo")]), Some(1));
    assert_eq!(pick_font(&c, &vec![font("H", "H"), font("H", "H")]), None);
}

#[test]
fn colours_are_read() {
    assert_eq!(hex("#1C1E22"), Rgba(0x1C, 0x1E, 0x22, 0xFF));
    assert_eq!(hex("01020380"), Rgba(1, 2, 3, 0x80));
    assert_eq!(hex("#zz0203"), Rgba(0xAA, 2, 3, 0xFF));
    assert_eq!(Rgba(1, 2, 3, 4).with_alpha(9), Rgba(1, 2, 3, 9));
}

#[test]
fn there_are_six_themes() {
    assert_eq!(
        theme_names(),
        vec!["Dark Pro", "Dark High Contrast", "Light", "Solarized Dark", "Dracula", "Monokai"]
    );
    let all = all_builtin_themes();
    let backs = [
        dark_pro().bg_primary,
        dark_high_contrast().bg_primary,
        light().bg_primary,
        solarized_dark().bg_primary,
        dracula().bg_primary,
        monokai().bg_primary,
    ];
    for (i, (name, t)) in all.iter().enumerate() {
        assert_eq!(t.bg_primary, backs[i]);
        assert_eq!(theme_by_name(name).bg_primary, backs[i]);
    }
    assert_eq!(dark_pro().level_error, Rgba(0xE0, 0x47, 0x54, 0xFF));
    assert_eq!(theme_by_name("none").bg_primary, backs[0]);
}

#[test]
fn the_stop_item_comes_and_goes() {
    let ids = default_item_identifiers();
    assert_eq!(ids.len(), 11);
    assert_eq!(ids[0], id(Item::Open));
    assert_eq!(allowed_item_identifiers(), identifiers_with_stop(true));
    assert_eq!(identifiers_with_stop(false), ids);
    assert_eq!(set_stop_visible(&ids, false), None);
    let with = set_stop_visible(&ids, true).unwrap();
    assert_eq!(with.last().unwrap(), "qlog.stop");
    assert_eq!(set_stop_visible(&with, true), None);
    assert_eq!(set_stop_visible(&with, false).unwrap(), ids);
}

#[test]
fn toolbar_items_are_known_by_name() {
    assert_eq!(item_for_identifier("qlog.prev"), ItemKind::Button(Item::Prev));
    assert_eq!(item_for_identifier("qlog.search"), ItemKind::SearchField);
    assert_eq!(item_for_identifier("qlog.goto"), ItemKind::GotoField);
    assert_eq!(item_for_identifier("x"), ItemKind::Other);
    assert_eq!(look(Item::Reload), ("arrow.clockwise", "重新加载", Action::ReloadDocument));
}

#[test]
fn sizes_go_up_to_pebibytes() {
    assert_eq!(human_bytes(1024), "1.00 KiB");
    assert_eq!(human_bytes(1 << 50), "1.00 PiB");
    assert_eq!(human_bytes(3 << 60), "3072.00 PiB");
}

#[test]
fn byte_ranges_become_unit_ranges() {
    let spans = [(1, 5), (5, 6), (0, 99)];
    assert_eq!(byte_ranges_to_utf16("a😀b", &spans), vec![(1, 3), (3, 4), (0, 4)]);
}

#[test]
fn dropped_files_are_opened() {
    assert_eq!(dragging_entered(true), DragOperation::Copy);
    assert_eq!(dragging_entered(false), DragOperation::Refuse);
    let s = |t: &str| Some(t.to_string());
    assert_eq!(read_dragged_path(&vec![None, s("/a"), s("/b")], s("/c")), s("/a"));
    assert_eq!(read_dragged_path(&vec![None], s("/c")), s("/c"));
    assert_eq!(read_dragged_path(&vec![], None), None);
}

#[test]
fn painted_lines_are_those_in_view() {
    let theme = theme_by_name("dark-pro");
    let read = |line: u64| DisplayLine {
        text: format!("line {line}"),
        matches: if line % 2 == 0 { vec![(0, 4)] } else { vec![] },
        is_current: line == 4,
    };
    let tall = |text: &String| if text.ends_with('2') { 3 } else { 1 };
    let view = |above: u64, rows: u64| {
        if above + rows < 2 {
            Place::Above
        } else if above > 6 {
            Place::Below
        } else {
            Place::Inside
        }
    };
    let rows = collect_rows(0, 100, true, true, &theme, read, tall, view);
    let got: Vec<(u64, u64, u64)> = rows.iter().map(|r| (r.row, r.above, r.rows)).collect();
    assert_eq!(got, vec![(1, 1, 1), (2, 2, 3), (3, 5, 1), (4, 6, 1)]);
    assert_eq!(rows[1].matches, vec![(0, 4)]);
    assert_eq!(rows[3].current_matches, vec![(0, 4)]);
    assert!(rows[3].matches.is_empty());
    let flat = collect_rows(0, 3, false, true, &theme, read, tall, |_, _| Place::Inside);
    assert_eq!(flat.iter().map(|r| r.above).collect::<Vec<u64>>(), vec![0, 1, 2]);
}

#[test]
fn pointing_finds_the_painted_line() {
    let read = |line: u64| format!("é{line}");
    let tall = |text: &String| if text.ends_with('2') { 3 } else { 1 };
    for (row, line, above) in [(0u64, 0u64, 0u64), (2, 2, 2), (4, 2, 2), (5, 3, 5)] {
        let holds = |a: u64, rows: u64| row < a + rows;
        assert_eq!(line_at(0, 10, true, read, tall, holds), Some((line, above)));
    }
    assert_eq!(line_at(0, 10, true, read, tall, |_, _| false), None);
    assert_eq!(segment_at(1, 3), 1);
    assert_eq!(segment_at(9, 3), 2);
    assert_eq!(segment_at(0, 0), 0);
    let point = hit_test(true, 10, Some(3), read, |_: &String| 1);
    assert_eq!(point, Some(TextPoint { line: 3, byte: 2 }));
    let below = hit_test(true, 10, None, read, |_: &String| 0);
    assert_eq!(below, Some(TextPoint { line: 9, byte: 3 }));
    assert_eq!(hit_test(false, 10, Some(3), read, |_: &String| 1), None);
    assert_eq!(hit_test(true, 0, None, read, |_: &String| 1), None);
}

#[test]
fn check_marks_follow_the_state() {
    let mut state = MenuState {
        recent: vec![],
        theme: "light".to_string(),
        show_line_numbers: false,
        word_wrap: false,
        show_whitespace: false,
        level_coloring: false,
        show_indent_guides: false,
        case_sensitive: false,
        use_regex: false,
        whole_word: false,
    };
    let mut rows = build_main_menu(&state);
    state.word_wrap = true;
    state.show_indent_guides = true;
    sync_view_checks(&mut rows, &state);
    let marked = |rows: &[qview_gui::macos::menu::MenuRow]| -> Vec<String> {
        rows.iter().filter(|r| r.on && r.level == 1).map(|r| r.title.clone()).collect()
    };
    assert_eq!(marked(&rows), vec!["自动换行", "缩进参考线"]);
    state.use_regex = true;
    sync_search_checks(&mut rows, &state);
    assert_eq!(marked(&rows), vec!["自动换行", "缩进参考线", "正则表达式"]);
    let names = theme_names();
    let chosen = names[3];
    sync_theme_checks(&mut rows, chosen);
    let on: Vec<String> = rows.iter().filter(|r| r.on).map(|r| r.title.clone()).collect();
    assert_eq!(on, vec![chosen]);
}

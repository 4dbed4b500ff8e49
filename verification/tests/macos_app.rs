use qview_gui::macos::app::{
    copied_message, count_leading_whitespace_cols, cycle_theme, detect_level, goto_end, goto_line,
    indent_stops, is_alternate, is_hit_line, level_color, page_down, page_up, parse_progress_pct,
    poll_tasks, resubmits, row_color, row_fill, split_matches, status_left, status_mid,
    status_right, submit_search, update_hit_lines, visible_range, word_at, CopyWhat, Level, Poll,
    RowFill, SearchEntry,
};
use qview_gui::macos::bridge::{Bridge, DisplayLine};
use qview_gui::macos::config::{
    config_dir, config_path, default_font_family, default_theme, default_true, later_version,
    AppConfig, GuiConfig, Loaded, OldFlatConfig,
};
use qview_gui::macos::selection::TextPoint;
use qview_gui::macos::session::{App, Toggle};
use qview_gui::macos::theme::dark_pro;

#[test]
fn lines_are_coloured_by_level() {
    assert_eq!(detect_level("a [Warn] b"), Some(Level::Warn));
    assert_eq!(detect_level("crit: b"), Some(Level::Error));
    assert_eq!(detect_level("notice: b"), Some(Level::Info));
    assert_eq!(detect_level("nothing here"), None);
    let t = dark_pro();
    assert_eq!(level_color(Level::Trace, &t), t.level_trace);
    assert_eq!(row_color(Some(Level::Error), true, &t), t.level_error);
    assert_eq!(row_color(Some(Level::Error), false, &t), t.text_primary);
    assert_eq!(row_color(None, true, &t), t.text_primary);
}

#[test]
fn lines_that_are_gone_to_exist() {
    assert_eq!(goto_line(3, 10), Some(3));
    assert_eq!(goto_line(30, 10), Some(9));
    assert_eq!(goto_line(3, 0), None);
    assert_eq!(goto_end(10), Some(9));
    assert_eq!(goto_end(0), None);
    assert_eq!(page_up(5, 20, 10), Some(0));
    assert_eq!(page_up(5, 0, 10), Some(4));
    assert_eq!(page_down(5, 20, 10), Some(9));
    assert_eq!(page_down(u64::MAX, 7, 10), Some(9));
    assert_eq!(visible_range(5, 10, false, 100), (5, 17));
    assert_eq!(visible_range(5, 10, true, 100), (5, 23));
    assert_eq!(visible_range(5, 10, true, 9), (5, 9));
}

#[test]
fn rows_are_filled() {
    assert_eq!(row_fill(3, 3, Some(3)), RowFill::Current);
    assert_eq!(row_fill(3, 4, Some(3)), RowFill::Hover);
    assert_eq!(row_fill(3, 4, None), RowFill::Nothing);
    assert!(is_alternate(1));
    assert!(!is_alternate(2));
}

#[test]
fn matches_of_the_current_line_stand_out() {
    let line = |is_current| DisplayLine {
        text: "abcdef".to_string(),
        matches: vec![(0, 2), (4, 5)],
        is_current,
    };
    assert_eq!(split_matches(&line(true)), (vec![], vec![(0, 2), (4, 5)]));
    assert_eq!(split_matches(&line(false)), (vec![(0, 2), (4, 5)], vec![]));
}

#[test]
fn lines_with_matches_are_listed_once() {
    let lines = update_hit_lines(&vec![9, 2, 9, 5, 2]);
    assert_eq!(lines, vec![2, 5, 9]);
    assert!(is_hit_line(&lines, 5));
    assert!(!is_hit_line(&lines, 6));
    assert!(!is_hit_line(&vec![], 6));
}

#[test]
fn tabs_end_at_stops() {
    assert_eq!(count_leading_whitespace_cols("  x"), 2);
    assert_eq!(count_leading_whitespace_cols(" \tx"), 4);
    assert_eq!(count_leading_whitespace_cols("\t\tx"), 8);
    assert_eq!(count_leading_whitespace_cols("x  "), 0);
    assert_eq!(indent_stops(9), vec![4, 8]);
    assert_eq!(indent_stops(3), vec![]);
}

#[test]
fn words_are_found_by_a_byte() {
    assert_eq!(word_at("one two", 5), Some((4, 7)));
    assert_eq!(word_at("one two", 0), Some((0, 3)));
    assert_eq!(word_at("日志 x", 1), Some((0, 6)));
    assert_eq!(word_at("", 0), None);
}

#[test]
fn themes_follow_each_other() {
    assert_eq!(cycle_theme("Dark Pro"), "Dark High Contrast");
    assert_eq!(cycle_theme("Monokai"), "Dark Pro");
    assert_eq!(cycle_theme("unknown"), "Dark High Contrast");
}

#[test]
fn background_work_is_reported() {
    let mut p = Poll {
        file_open: true,
        index_done: true,
        indexing: false,
        hits_before: 0,
        search_done: false,
        hits: 0,
    };
    let r = poll_tasks(&p);
    assert!(r.changed && r.index_finished && !r.search_finished);
    assert_eq!(r.flash.unwrap().text, "索引完成");
    p.search_done = true;
    assert_eq!(poll_tasks(&p).flash.unwrap().text, "未找到匹配");
    p.hits = 12;
    let f = poll_tasks(&p).flash.unwrap();
    assert_eq!((f.text.as_str(), f.millis), ("找到 12 条匹配", 3000));
    p.file_open = false;
    let r = poll_tasks(&p);
    assert!(!r.changed && r.flash.is_none());
}

#[test]
fn percentages_are_read_off_messages() {
    assert_eq!(parse_progress_pct("索引 42%").unwrap().whole, 42);
    assert!(parse_progress_pct("索引中").is_none());
}

#[test]
fn the_status_bar_speaks() {
    assert_eq!(status_left(None, None), "未打开文件");
    assert_eq!(status_left(Some("/a/b.log"), Some("b.log")), "b.log");
    assert_eq!(status_left(Some("/"), None), "/");
    assert_eq!(status_mid(Some("hi"), true, true, 1, 0, 5), "hi");
    assert_eq!(status_mid(None, true, true, 1, 0, 5), "正在建立索引…");
    assert_eq!(status_mid(None, false, true, 3, 1, 5), "2/3 条匹配");
    assert_eq!(status_mid(None, false, true, 0, 0, 5), "搜索中…");
    assert_eq!(status_mid(None, false, false, 0, 0, 5), "5 行");
    assert_eq!(status_right(Some(1536), 7, "utf-8"), "1.50 KiB │ 7 行 │ utf-8");
    assert_eq!(status_right(None, 7, "utf-8"), "");
}

#[test]
fn copying_is_told() {
    assert_eq!(copied_message(CopyWhat::Selection, "日志").unwrap(), "已复制选区（2 字符）");
    assert_eq!(copied_message(CopyWhat::Line(3), "x").unwrap(), "已复制当前行");
    assert_eq!(copied_message(CopyWhat::Nothing, ""), None);
    assert_eq!(submit_search(""), SearchEntry::Cancel);
    assert_eq!(submit_search("x"), SearchEntry::Submit);
    assert!(resubmits("x"));
    assert!(!resubmits(""));
}

#[test]
fn recent_files_stand_newest_first() {
    let mut c = AppConfig::with_version("9");
    for i in 0..12 {
        c.add_recent(format!("f{i}"));
    }
    assert_eq!(c.recent_files.len(), 10);
    assert_eq!(c.recent_files[0], "f11");
    assert_eq!(c.recent_files[9], "f2");
    c.add_recent("f5".to_string());
    assert_eq!(c.recent_files.len(), 10);
    assert_eq!(c.recent_files[0], "f5");
    assert_eq!(c.recent_files[1], "f11");
    for i in 0..25 {
        c.add_search_history(format!("q{i}"));
    }
    assert_eq!(c.search_history.len(), 20);
    assert_eq!(c.search_history[0], "q24");
}

#[test]
fn the_configuration_has_a_place() {
    assert_eq!(
        config_dir(Some("/Users/x")).unwrap(),
        "/Users/x/Library/Application Support/qview"
    );
    assert_eq!(
        config_path(Some("/Users/x")).unwrap(),
        "/Users/x/Library/Application Support/qview/config.json"
    );
    assert_eq!(config_path(None), None);
    let c = AppConfig::with_defaults("9", Some("/h"));
    assert_eq!(c.index_dir.unwrap(), "/h/Library/Application Support/qview/index");
    assert_eq!(c.gui.theme, default_theme());
    assert_eq!(c.gui.font_family, default_font_family());
    assert!(default_true() && c.gui.show_line_numbers && c.gui.level_coloring);
    assert_eq!(f32::from_bits(c.gui.font_size), 13.0);
    assert_eq!(f64::from_bits(c.gui.row_height), 18.0);
    assert_eq!(f32::from_bits(c.gui.window_size.0), 1280.0);
    assert_eq!(f32::from_bits(c.gui.window_size.1), 860.0);
    let d = GuiConfig::default();
    assert_eq!(d.theme, "Dark Pro");
}

fn flat() -> OldFlatConfig {
    OldFlatConfig {
        version: "1.0".to_string(),
        theme: "Light".to_string(),
        font_family: "Monaco".to_string(),
        font_size: 14.0f32.to_bits(),
        row_height: 20.0f64.to_bits(),
        show_line_numbers: false,
        word_wrap: true,
        show_whitespace: true,
        level_coloring: false,
        case_sensitive: true,
        use_regex: true,
        whole_word: true,
        recent_files: vec!["a".to_string()],
        window_size: (1, 2),
        window_maximized: true,
        search_history: vec!["q".to_string()],
    }
}

#[test]
fn old_configurations_are_migrated() {
    let c = flat().migrate("2.1.0");
    assert_eq!(c.version, "2.1.0");
    assert_eq!(c.gui.theme, "Light");
    assert!(c.gui.word_wrap && c.gui.use_regex && !c.gui.show_indent_guides);
    assert_eq!(c.recent_files, vec!["a".to_string()]);
}

#[test]
fn what_was_stored_decides_what_is_used() {
    let read = |version: &str, has_groups: bool| {
        let mut old = flat();
        old.version = version.to_string();
        AppConfig::load(Some(AppConfig::with_version(version)), Some(old), has_groups, "2.1.0", None)
    };
    for version in ["2.0.0", "1.9.12", "2", "", "2.0.0-rc1", "0.3"] {
        match read(version, false) {
            Loaded::Migrated(c) => {
                assert_eq!(c.gui.theme, "Light");
                assert!(c.gui.word_wrap);
                assert_eq!(c.version, "2.1.0");
            },
            _ => panic!("the old form was stored"),
        }
    }
    for (version, has_groups) in [("2.0.0", true), ("2.1.0", false), ("2.0.1", false), ("10.0", false)] {
        match read(version, has_groups) {
            Loaded::Stored(c) => assert_eq!(c.gui.theme, "Dark Pro"),
            _ => panic!("the present form was stored"),
        }
    }
    let mut bare = AppConfig::with_version("x");
    bare.gui.theme = String::new();
    match AppConfig::load(Some(bare), Some(flat()), true, "9", Some("/h")) {
        Loaded::Migrated(c) => {
            assert_eq!(c.gui.theme, "Light");
            assert!(c.index_dir.unwrap().starts_with("/h/"));
        },
        _ => panic!("the old form was stored"),
    }
    match AppConfig::load(None, None, false, "9", None) {
        Loaded::Broken(c) => assert_eq!(c.version, "9"),
        _ => panic!("nothing was stored"),
    }
    assert!(later_version("2.1.0") && !later_version("2.0.0"));
}

#[test]
fn the_window_is_remembered() {
    let mut c = AppConfig::with_version("9");
    c.set_window_state((5, 6), false);
    assert_eq!(c.gui.window_size, (5, 6));
    c.set_window_state((7, 8), true);
    assert_eq!(c.gui.window_size, (5, 6));
    assert!(c.gui.window_maximized);
    c.index_dir = Some("/x".to_string());
    c.ensure_index_dir(Some("/h"));
    assert_eq!(c.index_dir.unwrap(), "/x");
}

fn app() -> App {
    let mut a = App::new(AppConfig::with_version("9"));
    a.open_path("p".to_string(), Some(Bridge::open("p".to_string(), 100, 10, 50, false)));
    a
}

#[test]
fn opening_closes_what_was_open() {
    let mut a = app();
    assert!(a.busy());
    assert_eq!(a.total_lines(), 10);
    assert_eq!(a.config.recent_files, vec!["p".to_string()]);
    a.goto_line(7);
    a.select_all_lines(3);
    assert_eq!(a.selection.focus, TextPoint { line: 9, byte: 3 });
    a.open_path("q".to_string(), None);
    assert!(a.bridge.is_none() && !a.busy() && !a.selection.active);
    assert_eq!(a.config.recent_files, vec!["p".to_string()]);
    assert_eq!(a.total_lines(), 0);
    assert!(!a.goto_top());
    assert_eq!(a.current_line, 7);
}

#[test]
fn the_session_goes_from_match_to_match() {
    let mut a = app();
    let line_of = |b: u64| b / 10;
    a.submit_search("x".to_string(), true);
    assert!(a.search_active);
    assert_eq!(a.config.search_history, vec!["x".to_string()]);
    assert!(!a.search_next(&line_of));
    let r = a.poll_tasks(Some(12), Some(vec![25, 21, 77]), &line_of);
    assert!(r.changed && r.index_finished && r.search_finished);
    assert!(!a.busy());
    assert_eq!(a.total_lines(), 12);
    assert_eq!(a.hit_lines, vec![2, 7]);
    assert_eq!(a.status_flash.as_ref().unwrap().text, "找到 3 条匹配");
    a.expire_flash(2999);
    assert!(a.status_flash.is_some());
    a.expire_flash(3000);
    assert!(a.status_flash.is_none());
    assert!(a.search_prev(&line_of));
    assert_eq!(a.current_line, 7);
    assert!(a.search_next(&line_of));
    assert_eq!(a.current_line, 2);
    a.cancel_tasks();
    assert!(a.hit_lines.is_empty() && !a.busy());
    assert_eq!(a.total_lines(), 12);
}

#[test]
fn a_failed_search_changes_nothing() {
    let mut a = app();
    a.submit_search("(".to_string(), false);
    assert!(!a.search_active && a.config.search_history.is_empty());
    a.close_file();
    a.submit_search("x".to_string(), true);
    assert!(!a.search_active);
}

#[test]
fn the_session_moves_by_pages() {
    let mut a = app();
    assert!(a.page_down(4));
    assert_eq!(a.current_line, 4);
    assert!(a.page_up(0));
    assert_eq!(a.current_line, 3);
    assert!(a.goto_end());
    assert_eq!(a.current_line, 9);
    assert_eq!(a.copy_selection_or_line(), CopyWhat::Line(9));
    a.select_all_lines(1);
    assert_eq!(a.copy_selection_or_line(), CopyWhat::Selection);
    assert!(a.clear_selection());
    assert!(!a.clear_selection());
    a.close_file();
    assert_eq!(a.copy_selection_or_line(), CopyWhat::Nothing);
}

#[test]
fn options_are_turned_over() {
    let mut a = app();
    assert!(!a.toggle(Toggle::WordWrap));
    assert!(a.config.gui.word_wrap);
    assert!(!a.toggle(Toggle::Regex));
    a.submit_search("x".to_string(), true);
    assert!(a.toggle(Toggle::Regex));
    assert!(!a.config.gui.use_regex);
    assert!(!a.toggle(Toggle::LineNumbers));
    a.cycle_theme();
    assert_eq!(a.config.gui.theme, "Dark High Contrast");
    a.apply_theme("Light".to_string());
    assert_eq!(a.config.gui.theme, "Light");
    a.flash_status("hi".to_string(), 5);
    assert_eq!(a.status_flash.unwrap().millis, 5);
}

#[test]
fn every_option_has_its_switch() {
    let mut a = app();
    let before = (a.config.gui.show_whitespace, a.config.gui.show_indent_guides);
    a.toggle_whitespace();
    a.toggle_indent_guides();
    assert_eq!((a.config.gui.show_whitespace, a.config.gui.show_indent_guides), (!before.0, !before.1));
    let before = (a.config.gui.show_line_numbers, a.config.gui.word_wrap, a.config.gui.level_coloring);
    a.toggle_line_numbers();
    a.toggle_word_wrap();
    a.toggle_level_coloring();
    assert_eq!(a.config.gui.show_line_numbers, !before.0);
    assert_eq!(a.config.gui.word_wrap, !before.1);
    assert_eq!(a.config.gui.level_coloring, !before.2);
    assert!(!a.toggle_case_sensitive());
    assert!(a.config.gui.case_sensitive);
    a.submit_search("x".to_string(), true);
    assert!(a.toggle_whole_word());
    assert!(a.toggle_regex());
    assert!(a.config.gui.whole_word && a.config.gui.use_regex);
    assert_eq!(a.shown_hit(), None);
    a.poll_tasks(None, Some(vec![40, 70]), &|byte| byte / 10);
    let b = a.bridge.as_ref().unwrap();
    assert_eq!(b.hit_line(1, &|byte| byte / 10), Some(7));
    assert_eq!(b.hit_line(2, &|byte| byte / 10), None);
    assert_eq!(a.shown_hit(), None);
    a.submit_search("y".to_string(), true);
    assert!(a.search_active);
}

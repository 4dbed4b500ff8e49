use qview_gui::native::annotations::Annotation;
use qview_gui::native::app::{
    cycle_theme, entry_line, finish_search, font_dec, font_inc, font_reset, jump_after_seek,
    jump_arrived, jump_start, opened_status, str_wide, submit_query, switch_theme, toggle_search_flag,
    window_parts, window_size, HitPos, JumpStep, SearchFlag, StoredSearchFlags, SubmitAction,
    ViewFlag, ViewFlags,
};
use qview_gui::native::drawing::{anno_amber, draw_ground, draw_line, Draw, Frame, Style};
use qview_gui::native::engine_bridge::{indexes_in_background, IndexState, SearchState};
use qview_gui::native::geom::Rect;
use qview_gui::native::layout::{LaidLine, VisualRow};
use qview_gui::native::menu::{
    build_menu_bar, dispatch, short_path, wide, Command, MenuState, RowKind, IDM_FILE_OPEN,
    IDM_RECENT_BASE, IDM_THEME_BASE, IDM_VIEW_WORDWRAP,
};
use qview_gui::native::msg::{
    class_name_wide, context_command, decode_command, decode_point, decode_wheel, drag_step,
    edit_key, next_history, on_command, on_key, on_timer, press_target, trunc, view_area,
    wheel_action, Capture, ContextCommand, EditAction, EditKind, FileStatus, HitAreas, KeyCommand,
    MoveTarget, Poll, PressTarget, ReleaseAction, Wheel, WheelAction, WindowCommand, BTN_GOTO,
    BTN_SEARCH, VK_DOWN, VK_ESCAPE, VK_F3, VK_G, VK_PRIOR, VK_R, VK_RETURN, VK_T,
};
use qview_gui::native::scroll::ScrollState;
use qview_gui::native::selection::Selection;
use qview_gui::native::session::{App, Opened};
use qview_gui::native::statusbar::{
    annotation_label, cancel_rect, center_area, center_text, current_progress, has_progress,
    line_label, path_text, progress_color, progress_percent, right_part, CenterText, LabelWidths,
    StatusRects,
};
use qview_gui::native::theme::{builtin, find_index, Rgb};
use qview_gui::native::toolbar::{
    btn_colors, hit, label, layout, ToolbarAction, ToolbarCommand,
};
use qview_gui::palettes::theme_name;
use qview_gui::native::widgets::{
    centered, close_rect, hit_close, hit_titlebar, tooltip_rect, BtnKind, BtnState, Button, Label,
};

fn rect(left: i32, top: i32, right: i32, bottom: i32) -> Rect {
    Rect { left, top, right, bottom }
}

fn flags() -> ViewFlags {
    ViewFlags {
        show_line_numbers: true,
        word_wrap: false,
        show_whitespace: false,
        show_indent_guides: false,
        level_coloring: true,
    }
}

#[test]
fn flags_are_turned_over() {
    let mut f = flags();
    assert!(f.toggle(ViewFlag::WordWrap));
    assert!(f.word_wrap);
    assert!(f.toggle(ViewFlag::WordWrap));
    assert_eq!(f, flags());
    assert!(!f.toggle(ViewFlag::LineNumbers));
    assert!(!f.show_line_numbers);
    let mut s = SearchState::default();
    let mut stored = StoredSearchFlags { case_sensitive: false, use_regex: false, whole_word: false };
    toggle_search_flag(&mut s, &mut stored, SearchFlag::Regex);
    assert!(s.use_regex && stored.use_regex && !stored.whole_word);
}

#[test]
fn native_themes_and_fonts() {
    assert_eq!(switch_theme(8), (2, "Light"));
    assert_eq!(cycle_theme(5), (0, "Dark Pro"));
    let mut idx = 3;
    for _ in 0..6 {
        idx = cycle_theme(idx).0;
    }
    assert_eq!(idx, 3);
    assert_eq!(font_inc(36), 36);
    assert_eq!(font_inc(12), 13);
    assert_eq!(font_dec(8), 8);
    assert_eq!(font_dec(13), 12);
}

#[test]
fn opened_files_are_announced() {
    assert_eq!(opened_status(false, 12, 1536), "已打开 · 12 行 · 1.50 KiB");
    assert_eq!(opened_status(true, 12, 3 << 40), "索引中... · 3072.00 GiB");
}

#[test]
fn searches_start_and_end() {
    let mut s = SearchState::default();
    assert_eq!(submit_query(&mut s, "x".to_string()), SubmitAction::Search);
    assert!(s.searching);
    assert_eq!(s.status, "搜索中...");
    assert!(finish_search(&mut s, 7));
    assert_eq!((s.status.as_str(), s.total, s.searching), ("7 条匹配", 7, false));
    assert!(!finish_search(&mut s, 0));
    assert_eq!(s.status, "无匹配");
    assert_eq!(submit_query(&mut s, String::new()), SubmitAction::Clear);
    assert_eq!(s.status, "");
    s.whole_word = true;
    s.cancel();
    assert!(s.whole_word && s.query.is_empty());
}

#[test]
fn jumps_start_from_the_view() {
    assert_eq!(jump_start(true, 0, Some(5), 0, 9, 100), JumpStep::Stop);
    assert_eq!(jump_start(true, 3, Some(5), 0, 9, 100), JumpStep::MoveNext);
    assert_eq!(jump_start(false, 3, Some(5), 0, 9, 100), JumpStep::MovePrev);
    assert_eq!(jump_start(true, 3, Some(50), 10, 19, 100), JumpStep::SeekLine(10));
    assert_eq!(jump_start(true, 3, None, 500, 519, 100), JumpStep::SeekLine(99));
    assert_eq!(jump_after_seek(true, true), JumpStep::TakeAnchored);
    assert_eq!(jump_after_seek(false, true), JumpStep::MovePrev);
    assert_eq!(jump_after_seek(true, false), JumpStep::WrapToFirst);
    assert_eq!(jump_after_seek(false, false), JumpStep::WrapToLast);
    assert_eq!(entry_line(7, 5), 4);
    assert_eq!(entry_line(7, 0), 0);
    let mut s = SearchState::default();
    let h = HitPos { byte: 42, line: 3, line_start: 40 };
    assert_eq!(jump_arrived(&mut s, JumpStep::WrapToFirst, Some(h), 0, 9), Some(42));
    assert_eq!(s.status, "已到最后 · 1/9 条匹配");
    assert_eq!(jump_arrived(&mut s, JumpStep::WrapToLast, Some(h), 8, 9), Some(42));
    assert_eq!(s.status, "已到头 · 9/9 条匹配");
    assert_eq!(jump_arrived(&mut s, JumpStep::MoveNext, Some(h), 2, 9), Some(42));
    assert_eq!(s.status, "3/9 条匹配");
    assert_eq!(jump_arrived(&mut s, JumpStep::MoveNext, None, 0, 9), None);
    assert_eq!(s.cursor, 2);
}

#[test]
fn windows_have_parts() {
    assert_eq!(window_size(100, 1000), (640, 1000));
    assert_eq!(window_size(2000, 1), (2000, 420));
    assert_eq!(window_parts(600, false), (38, 576, 576));
    assert_eq!(window_parts(600, true), (38, 560, 576));
    assert_eq!(str_wide("a😀"), vec![0x61, 0xD83D, 0xDE00, 0]);
}

#[test]
fn indexing_is_polled() {
    assert!(indexes_in_background(11, 10, false));
    assert!(!indexes_in_background(10, 10, false));
    let mut s = IndexState { line_count: 1, bg_indexing: true };
    assert!(!s.poll(false, 9));
    assert_eq!(s.line_count, 1);
    assert!(s.poll(true, 9));
    assert_eq!(s, IndexState { line_count: 9, bg_indexing: false });
}

#[test]
fn menu_numbers_are_commands() {
    assert_eq!(dispatch(IDM_FILE_OPEN), Command::PickFile);
    assert_eq!(dispatch(IDM_RECENT_BASE + 3), Command::OpenRecent(3));
    assert_eq!(dispatch(IDM_THEME_BASE + 5), Command::SwitchTheme(5));
    assert_eq!(dispatch(IDM_VIEW_WORDWRAP), Command::ToggleView(ViewFlag::WordWrap));
    assert_eq!(dispatch(9), Command::Nothing);
    assert!(qview_gui::native::menu::matches(1001));
    assert!(!qview_gui::native::menu::matches(2001));
    assert_eq!(wide("ab"), vec![0x61, 0x62, 0]);
    let long = "x".repeat(60);
    assert_eq!(short_path(&long), format!("…{}", "x".repeat(47)));
    assert_eq!(short_path("C:\\a.log"), "C:\\a.log");
}

#[test]
fn the_native_menu_bar_shows_the_state() {
    let mut s = MenuState {
        recent_files: vec!["C:\\a.log".to_string()],
        theme_idx: 2,
        view: flags(),
        case_sensitive: true,
        use_regex: false,
        whole_word: false,
    };
    let rows = build_menu_bar(&s);
    let row = |id: u16| rows.iter().find(|r| r.id == id).unwrap();
    assert_eq!(row(IDM_RECENT_BASE).label, "&1 C:\\a.log");
    assert_eq!(row(IDM_THEME_BASE + 2).kind, RowKind::Checked);
    assert_eq!(row(IDM_THEME_BASE).kind, RowKind::Item);
    assert_eq!(row(IDM_VIEW_WORDWRAP).kind, RowKind::Item);
    s.recent_files.clear();
    assert!(build_menu_bar(&s).iter().any(|r| r.kind == RowKind::Grayed));
}

#[test]
fn messages_are_decoded() {
    assert_eq!(decode_wheel(0x0078_0000), Wheel { delta: 120, ctrl: false, shift: false });
    assert_eq!(decode_wheel(0xFF88_000C), Wheel { delta: -120, ctrl: true, shift: true });
    assert_eq!(decode_point(0x0010_0020), (32, 16));
    assert_eq!(decode_command(0x0001_07D1), (2001, 1));
    assert_eq!(trunc(-7, 2), -3);
    assert_eq!(trunc(7, 2), 3);
    assert_eq!(class_name_wide(), wide("QLogNativeMain"));
}

#[test]
fn the_wheel_scrolls_pans_and_zooms() {
    let w = |delta, ctrl, shift| Wheel { delta, ctrl, shift };
    assert_eq!(wheel_action(&w(120, false, false), 13), WheelAction::Lines(-3));
    assert_eq!(wheel_action(&w(-120, false, false), 13), WheelAction::Lines(3));
    assert_eq!(wheel_action(&w(240, false, true), 13), WheelAction::Pan(-80));
    assert_eq!(wheel_action(&w(120, true, false), 13), WheelAction::Font(14));
    assert_eq!(wheel_action(&w(-120, true, false), 8), WheelAction::Font(8));
}

#[test]
fn the_timer_takes_in_what_is_done() {
    let mut s = SearchState::default();
    s.searching = true;
    let mut f = FileStatus { lines: 1, size: 1, text: "t".to_string() };
    let mut p = Poll {
        search_done: false,
        index_done: false,
        file_open: true,
        matches: 4,
        line_count: 9,
        size: 2048,
        indexing: false,
    };
    let r = on_timer(&mut s, &mut f, &p);
    assert!(!r.repaint && r.interval == 100);
    assert_eq!(f.text, "t");
    p.search_done = true;
    p.index_done = true;
    let r = on_timer(&mut s, &mut f, &p);
    assert!(r.repaint && r.anchor_search && !r.drop_hit && r.interval == 500);
    assert_eq!(s.status, "4 条匹配");
    assert_eq!(f.text, "已打开 · 9 行 · 2.00 KiB");
}

#[test]
fn keys_are_commands() {
    assert_eq!(on_key(VK_R, true, false, 30), (Some(KeyCommand::ReopenFile), None));
    assert_eq!(on_key(VK_T, true, false, 30), (None, None));
    assert_eq!(on_key(VK_T, true, true, 30), (Some(KeyCommand::CycleTheme), None));
    assert_eq!(on_key(VK_G, true, true, 30), (Some(KeyCommand::JumpPrev), None));
    assert_eq!(on_key(VK_F3, false, false, 30), (None, Some(KeyCommand::JumpNext)));
    assert_eq!(on_key(VK_ESCAPE, false, false, 30), (None, Some(KeyCommand::ClearSearch)));
    assert_eq!(on_key(VK_PRIOR, false, false, 30), (None, Some(KeyCommand::ScrollLines(-23))));
    assert_eq!(on_command(1001, 0), WindowCommand::Menu(Command::PickFile));
    assert_eq!(on_command(BTN_SEARCH, 0), WindowCommand::SubmitSearch);
    assert_eq!(on_command(1001, 1), WindowCommand::Nothing);
}

#[test]
fn presses_hit_their_targets() {
    let a = HitAreas {
        vsb_thumb: rect(780, 100, 794, 200),
        hsb_thumb: rect(50, 550, 150, 564),
        progress_cancel: rect(740, 562, 796, 574),
        encoding: rect(600, 576, 660, 600),
        annotations: rect(700, 576, 760, 600),
        client_h: 600,
        text_right: 780,
    };
    let target = |x, y| press_target(x, y, None, &a);
    assert_eq!(press_target(10, 10, Some(ToolbarAction::Open), &a), PressTarget::Toolbar(ToolbarAction::Open));
    assert_eq!(target(785, 150), PressTarget::VerticalThumb);
    assert_eq!(target(60, 555), PressTarget::HorizontalThumb);
    assert_eq!(target(750, 568), PressTarget::CancelProgress);
    assert_eq!(target(610, 590), PressTarget::EncodingLabel);
    assert_eq!(target(710, 590), PressTarget::AnnotationLabel);
    assert_eq!(target(300, 300), PressTarget::Text);
    assert_eq!(target(790, 300), PressTarget::Nothing);
}

#[test]
fn a_drag_keeps_its_start() {
    let mut c = Capture {
        toolbar_pressed: None,
        toolbar_hover: None,
        selecting: false,
        thumb_dragging: false,
        selection: None,
    };
    assert!(!c.opens_context_menu(100));
    c.press_text(4, 2);
    c.drag_text(9, 1);
    let s = c.selection.unwrap();
    assert_eq!((s.start_line, s.start_col, s.end_line, s.end_col), (4, 2, 9, 1));
    assert!(c.opens_context_menu(100));
    assert_eq!(c.move_target(100), MoveTarget::Selection);
    assert_eq!(c.move_target(3), MoveTarget::Toolbar);
    assert_eq!(c.release(), ReleaseAction::EndSelection);
    assert_eq!(c.release(), ReleaseAction::EndDrag);
    assert!(c.hover(3, Some(ToolbarAction::Find)));
    assert!(!c.hover(3, Some(ToolbarAction::Find)));
    assert!(c.hover(100, Some(ToolbarAction::Find)));
    c.toolbar_pressed = Some(ToolbarAction::Next);
    assert_eq!(c.release(), ReleaseAction::Click(ToolbarAction::Next));
    assert_eq!(context_command(1), ContextCommand::CopySelection);
    assert_eq!(context_command(2), ContextCommand::AddAnnotation);
    assert_eq!(context_command(0), ContextCommand::Nothing);
}

#[test]
fn a_drag_scrolls_at_the_edges() {
    let d = drag_step(500, 10, 38, 560, 60, 780, true);
    assert_eq!((d.y, d.lines, d.x, d.pan), (38, -3, 500, 0));
    let d = drag_step(900, 660, 38, 560, 60, 780, true);
    assert_eq!((d.y, d.lines, d.x, d.pan), (560, 12, 780, 14));
    let d = drag_step(10, 300, 38, 560, 60, 780, true);
    assert_eq!((d.x, d.pan), (60, 6));
    let d = drag_step(10, 300, 38, 560, 60, 780, false);
    assert_eq!((d.x, d.pan), (10, 0));
    assert_eq!(view_area(800, 600), rect(0, 38, 800, 600));
}

#[test]
fn input_boxes_have_keys() {
    assert_eq!(edit_key(EditKind::Search, VK_RETURN, false, false), EditAction::Post(BTN_SEARCH));
    assert_eq!(edit_key(EditKind::Search, VK_RETURN, true, false), EditAction::PassOn);
    assert_eq!(edit_key(EditKind::Goto, VK_RETURN, true, false), EditAction::Post(BTN_GOTO));
    assert_eq!(edit_key(EditKind::Search, VK_DOWN, false, true), EditAction::NextHistory);
    assert_eq!(edit_key(EditKind::Goto, VK_DOWN, false, true), EditAction::PassOn);
    let h = vec!["a".to_string(), "b".to_string()];
    assert_eq!(next_history(&h, "a"), Some(1));
    assert_eq!(next_history(&h, "b"), Some(0));
    assert_eq!(next_history(&h, "z"), Some(0));
    assert_eq!(next_history(&vec![], "z"), None);
}

#[test]
fn progress_is_shown() {
    assert!(has_progress(true, true, false));
    assert!(!has_progress(false, true, false));
    assert!(has_progress(false, false, true));
    assert_eq!(progress_percent("indexing... 42%").unwrap().whole, 42);
    assert_eq!(progress_percent("indexing... 42.5%").unwrap().fraction, "5");
    assert!(progress_percent("indexing...").is_none());
    let p = current_progress(Some("a 7%".to_string()), Some("b 9%".to_string())).unwrap();
    assert_eq!((p.percent.whole, p.label.as_str(), p.is_indexing), (7, "a 7%", true));
    let p = current_progress(None, Some("b 9%".to_string())).unwrap();
    assert_eq!((p.percent.whole, p.is_indexing), (9, false));
    assert_eq!(current_progress(Some("a".to_string()), None).unwrap().percent.whole, 0);
    assert!(current_progress(None, None).is_none());
    let t = builtin(0);
    assert_eq!(progress_color(true, &t), t.info);
    assert_eq!(progress_color(false, &t), t.success);
    assert_eq!(cancel_rect(800, 560, 576), rect(740, 562, 796, 574));
}

#[test]
fn the_native_status_bar_speaks() {
    assert_eq!(path_text(None), "未打开文件");
    assert_eq!(path_text(Some("C:\\a.log")), "C:\\a.log");
    assert_eq!(path_text(Some(&"p".repeat(51))).chars().count(), 50);
    assert_eq!(center_text(40, "q", "s", "f"), CenterText::Nothing);
    assert_eq!(center_text(41, "q", "s", "f"), CenterText::SearchStatus);
    assert_eq!(center_text(41, "", "s", "f"), CenterText::FileStatus);
    assert_eq!(center_text(41, "", "s", ""), CenterText::Nothing);
    assert_eq!(center_area(1000, 380), (388, 292));
    assert_eq!(annotation_label(3), "批注(3)");
    assert_eq!(line_label(12), "12 行");
    let r = right_part(1000, 576, 600, &LabelWidths { ann: 50, enc: 40, lines: 60, size: 70 });
    assert_eq!((r.ann_x, r.enc_x, r.bar_x, r.lines_x, r.size_x), (944, 890, 874, 804, 722));
    assert_eq!(r.rects.ann, rect(942, 576, 996, 600));
    assert_eq!(r.rects.enc, rect(888, 576, 932, 600));
    assert_eq!(StatusRects::default().enc, Rect::empty());
}

#[test]
fn native_colours() {
    assert_eq!(Rgb::hex("#010203"), Rgb { r: 1, g: 2, b: 3 });
    assert_eq!(Rgb::hex("01"), Rgb { r: 1, g: 0xAA, b: 0xAA });
    assert_eq!(Rgb { r: 0x11, g: 0x22, b: 0x33 }.as_u32(), 0x0033_2211);
    let black = Rgb { r: 0, g: 0, b: 0 };
    let white = Rgb { r: 255, g: 255, b: 255 };
    assert_eq!(white.blend(black, 255), white);
    assert_eq!(white.blend(black, 0), black);
    assert_eq!(find_index("monokai"), 5);
    assert_eq!(find_index("dark h"), 1);
    assert_eq!(find_index("nope"), 0);
    assert_eq!(find_index(""), 0);
    assert_eq!(find_index("Dark"), 0);
    assert_eq!(find_index("sOLARIZED dARK"), 3);
    for i in 0..6 {
        assert_eq!(find_index(theme_name(i)), i);
    }
    assert_eq!(builtin(0).level_error, Rgb { r: 0xE0, g: 0x47, b: 0x54 });
}

#[test]
fn the_native_toolbar() {
    let l = layout(1200, false);
    assert_eq!(l.buttons.len(), 11);
    assert_eq!(l.search_rect, rect(316, 6, 576, 30));
    assert_eq!(l.goto_rect, rect(1078, 6, 1148, 30));
    assert_eq!(layout(1200, true).buttons.len(), 12);
    assert_eq!(hit(10, 10, 1200, false), Some(ToolbarAction::Open));
    assert_eq!(hit(400, 10, 1200, false), None);
    assert_eq!(hit(700, 10, 1200, true), Some(ToolbarAction::Stop));
    assert_eq!(hit(700, 10, 1200, false), Some(ToolbarAction::Prev));
    assert_eq!(label(ToolbarAction::Open), "打开");
    let t = builtin(0);
    let (_, text) = btn_colors(ToolbarAction::Case, false, false, true, false, false, &t);
    assert_eq!(text, t.bg_primary);
    let (_, text) = btn_colors(ToolbarAction::Case, false, false, false, false, false, &t);
    assert_eq!(text, t.text_primary);
    let command = qview_gui::native::toolbar::dispatch;
    assert_eq!(command(ToolbarAction::Case, false), ToolbarCommand::ToggleFlag(SearchFlag::Case));
    assert_eq!(command(ToolbarAction::Open, false), ToolbarCommand::PickFile);
}

#[test]
fn widgets_have_places() {
    let mut b = Button::new(rect(10, 10, 110, 40), BtnKind::Primary, "好");
    assert!(b.contains(10, 10) && !b.contains(200, 10));
    let t = builtin(0);
    assert_eq!(b.colors(&t), (b.base_color(&t), t.text_primary));
    b.state = BtnState::Disabled;
    assert_eq!(b.colors(&t), (t.bg_tertiary, t.text_disabled));
    assert_eq!(centered(&b.rect, 20, 10), (50, 20));
    assert_eq!(centered(&b.rect, 200, 10), (12, 20));
    assert_eq!(close_rect(500), rect(470, 4, 500, 34));
    assert!(hit_close(500, 480, 10) && hit_close(500, 498, 33) && !hit_close(500, 10, 10));
    assert!(hit_titlebar(35) && !hit_titlebar(36));
    assert_eq!(tooltip_rect(100, 200, 50), rect(112, 168, 178, 192));
    assert_eq!(tooltip_rect(1190, 200, 50).left, 1116);
    let l = Label::new(1, 2, 3, t.info, "x");
    assert_eq!((l.x, l.text.as_str()), (1, "x"));
}

#[test]
fn scrolling_stays_in_the_file() {
    let mut s = ScrollState::default();
    s.reset();
    s.page_size_lines = 20;
    s.bottom(100);
    assert_eq!(s.y, 80);
    s.page_up();
    assert_eq!(s.y, 65);
    s.page_down(100);
    assert_eq!(s.y, 80);
    s.page_down(100);
    assert_eq!(s.y, 80);
    s.scroll_by_lines(-200);
    assert_eq!(s.y, 0);
    s.wrap_factor = 3;
    s.goto_line(7);
    assert_eq!(s.y, 21);
    s.anchor_row(50);
    assert_eq!(s.y, 44);
    s.top();
    assert_eq!(s.y, 0);
    s.h_scroll_by(40);
    s.h_scroll_by(-90);
    assert_eq!(s.h_scroll, 0);
}

fn note(line: u64) -> Annotation {
    Annotation {
        id: line,
        file_key: "k".to_string(),
        start_byte: 0,
        end_byte: 0,
        start_line: line,
        end_line: line,
        start_col: 0,
        end_col: 0,
        selected_text: String::new(),
        text: String::new(),
        created_at: String::new(),
        color: 0,
        stale: false,
    }
}

#[test]
fn the_native_session() {
    let mut a = App::new();
    assert_eq!(a.status_text, "就绪");
    let o = Opened { size: 2048, line_count: 9, indexing: false };
    a.scroll.y = 44;
    a.selection = Some(Selection { start_line: 0, start_col: 0, end_line: 0, end_col: 1 });
    a.open_path("p".to_string(), Ok(o), vec![note(3)]);
    assert_eq!(a.status_text, "已打开 · 9 行 · 2.00 KiB");
    assert_eq!(a.scroll.y, 0);
    assert!(a.selection.is_none() && a.annotations.marked.contains(&3));
    a.open_path("q".to_string(), Err("no".to_string()), vec![]);
    assert_eq!(a.status_text, "打开失败: no");
    assert_eq!(a.path.as_deref(), Some("p"));
    assert_eq!(a.submit_search("x".to_string()), SubmitAction::Search);
    let h = HitPos { byte: 42, line: 3, line_start: 40 };
    assert!(a.jump_hit(JumpStep::MoveNext, Some(h), 1, 2));
    assert_eq!(a.current_hit_byte, Some(42));
    assert_eq!(a.search.status, "2/2 条匹配");
    a.clear_search();
    assert_eq!(a.current_hit_byte, None);
    assert!(!a.jump_hit(JumpStep::MoveNext, None, 0, 0));
    a.close_file();
    assert_eq!(a.status_text, "已关闭");
    assert!(a.path.is_none() && a.annotations.list.is_empty());
}

fn laid(line: u64, text: &str, y_top: i32, rows: Vec<VisualRow>) -> LaidLine {
    let units: Vec<u16> = text.encode_utf16().collect();
    LaidLine {
        line,
        y_top,
        line_h: 20 * rows.len() as i32,
        rows,
        char_w: vec![10; units.len()],
        units,
        text: text.to_string(),
        start_byte: 100,
    }
}

fn frame() -> Frame {
    Frame {
        left: 0,
        top: 0,
        height: 100,
        text_right: 500,
        content_x: 60,
        gutter_w: 56,
        row_h: 20,
        avg_char_w: 10,
    }
}

#[test]
fn a_line_is_drawn_in_order() {
    let theme = builtin(0);
    let all = Style { line_numbers: true, whitespace: true, indent_guides: true, level_coloring: true };
    let row = VisualRow { start: 0, end: 5, x_off: 0, width: 50 };
    let l = laid(1, "  a\tb", 0, vec![row]);
    let got = draw_line(&frame(), &all, &theme, &l, &vec![(2, 3)], Some(102), None, false);
    let dot = |x: i32| Draw::Fill { rect: rect(x, 9, x + 2, 11), color: theme.whitespace_marker };
    assert_eq!(
        got,
        vec![
            Draw::Fill { rect: rect(0, 0, 500, 20), color: theme.bg_tertiary },
            Draw::Fill { rect: rect(80, 0, 90, 20), color: theme.search_current },
            dot(64),
            dot(74),
            Draw::Arrow { x: 90, y: 0, color: theme.whitespace_marker },
            Draw::Number { x: 4, y: 0, w: 48, color: theme.line_number },
            Draw::Text { x: 60, y: 0, w: 440, color: theme.text_primary, start: 0, end: 5 },
        ]
    );
}

#[test]
fn marks_are_cut_at_the_rows() {
    let theme = builtin(0);
    let bare =
        Style { line_numbers: true, whitespace: false, indent_guides: true, level_coloring: false };
    let rows = vec![
        VisualRow { start: 0, end: 4, x_off: 0, width: 40 },
        VisualRow { start: 4, end: 8, x_off: 0, width: 40 },
    ];
    let l = laid(2, "    abcd", -20, rows);
    let sel = Selection { start_line: 2, start_col: 6, end_line: 2, end_col: 2 };
    let got = draw_line(&frame(), &bare, &theme, &l, &vec![(3, 5)], None, Some(sel), true);
    assert_eq!(
        got,
        vec![
            Draw::Fill { rect: rect(0, 0, 500, 20), color: anno_amber().blend(theme.bg_primary, 16) },
            Draw::Fill { rect: rect(100, 0, 101, 20), color: theme.indent_guide },
            Draw::Fill { rect: rect(55, 0, 59, 20), color: anno_amber() },
            Draw::Fill { rect: rect(100, 0, 110, 20), color: theme.search_highlight },
            Draw::Fill { rect: rect(100, 0, 120, 20), color: theme.selection_bg },
            Draw::Text { x: 60, y: 0, w: 440, color: theme.text_primary, start: 4, end: 8 },
        ]
    );
    let far = laid(2, "abcd", 100, vec![VisualRow { start: 0, end: 4, x_off: 0, width: 40 }]);
    assert!(draw_line(&frame(), &bare, &theme, &far, &vec![], None, None, true).is_empty());
    assert_eq!(draw_ground(&frame(), &theme).len(), 3);
    assert_eq!(draw_ground(&Frame { gutter_w: 0, ..frame() }, &theme).len(), 1);
}

#[test]
fn the_window_goes_to_a_typed_line() {
    let mut app = App::new();
    app.open_path(
        "a.log".to_string(),
        Ok(Opened { size: 100, line_count: 50, indexing: false }),
        vec![],
    );
    assert!(app.submit_goto(" 12 "));
    assert_eq!(app.scroll.y, 11);
    assert!(!app.submit_goto("0"));
    assert!(!app.submit_goto("x"));
    assert_eq!(app.scroll.y, 11);
    assert!(app.submit_goto("18446744073709551615"));
    assert_eq!(app.scroll.y, 1 << 53);
    assert_eq!(font_reset(5), 8);
    assert_eq!(font_reset(14), 14);
}

#[test]
fn a_search_goes_on_from_the_view() {
    let mut app = App::new();
    let start = |line: u64| line * 10;
    let seek = |byte: u64| ((byte / 20) as usize, Some(byte + 1));
    app.anchor_search_to_viewport(5, 7, &start, &seek);
    assert_eq!(app.current_hit_byte, None);
    app.open_path(
        "a.log".to_string(),
        Ok(Opened { size: 100, line_count: 9, indexing: false }),
        vec![],
    );
    app.anchor_search_to_viewport(0, 7, &start, &seek);
    assert_eq!(app.current_hit_byte, None);
    app.anchor_search_to_viewport(5, 7, &start, &seek);
    assert_eq!((app.search.cursor, app.current_hit_byte), (3, Some(71)));
    app.anchor_search_to_viewport(5, 70, &start, &seek);
    assert_eq!((app.search.cursor, app.current_hit_byte), (4, Some(81)));
}

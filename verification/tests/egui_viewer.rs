use qview_gui::egui::viewer::{
    build_byte_index, char_pos_to_byte_pos, color_for_level, filter_matches_line, has_level,
    human_bytes, level_color, query_ranges_in, Color, FilterSpec, LevelColors, Query,
    BYTE_INDEX_STRIDE, HUGE_CACHE_BYTES, MAX_MATCH_RANGES,
};
use qview_gui::levels::Level;

#[test]
fn char_pos_to_byte_pos_is_exact_across_stride() {
    let text: String = (0..3000)
        .map(|i| if i % 5 == 2 { '你' } else { 'a' })
        .collect();
    let byte_index = build_byte_index(&text);
    let chars: Vec<char> = text.chars().collect();

    for &(char_pos, byte_off) in &byte_index {
        let expected_byte = text
            .char_indices()
            .nth(char_pos)
            .map(|(b, _)| b)
            .unwrap_or(text.len());
        assert_eq!(byte_off, expected_byte, "采样点 char_pos={char_pos} 的 byte_off 错误");
    }

    for cp in [0usize, 1, 5, 1023, 1024, 1025, 2047, 2048, 2049, chars.len()] {
        let expected = text.char_indices().nth(cp).map(|(b, _)| b).unwrap_or(text.len());
        let got = char_pos_to_byte_pos(&byte_index, &text, cp);
        assert_eq!(got, expected, "char_pos={cp} 转 byte_pos 错误");
    }

    let cp = 1500;
    let expected = text.char_indices().nth(cp).map(|(b, _)| b).unwrap();
    let got = char_pos_to_byte_pos(&byte_index, &text, cp);
    assert_eq!(got, expected, "跨采样点 char_pos={cp} 偏了（旧 build_byte_index bug）");
    assert_eq!(&text[got..got + 1], "a");
}

#[test]
fn byte_index_has_a_sample_per_stride() {
    assert_eq!(BYTE_INDEX_STRIDE, 1024);
    let text = "é".repeat(2500);
    assert_eq!(build_byte_index(&text), vec![(0, 0), (1024, 2048), (2048, 4096)]);
    assert_eq!(build_byte_index("abc"), vec![(0, 0)]);
}

#[test]
fn sizes_are_written_with_a_unit() {
    assert_eq!(human_bytes(0), "0 B");
    assert_eq!(human_bytes(1023), "1023 B");
    assert_eq!(human_bytes(1536), "1.50 KiB");
    assert_eq!(human_bytes(10 * 1024 * 1024), "10.00 MiB");
    assert_eq!(HUGE_CACHE_BYTES, 64 * 1024 * 1024);
}

fn theme() -> LevelColors {
    let c = |r: u8| Color { r, g: 0, b: 0, a: 255 };
    LevelColors {
        level_error: c(1),
        level_warn: c(2),
        level_info: c(3),
        level_debug: c(4),
        level_trace: c(5),
    }
}

#[test]
fn levels_are_found_whatever_their_case() {
    let t = theme();
    assert_eq!(level_color("2024 [error] x", &t).map(|c| c.r), Some(1));
    assert_eq!(level_color("fatal: x", &t).map(|c| c.r), Some(1));
    assert_eq!(level_color("warning: x", &t).map(|c| c.r), Some(2));
    assert_eq!(level_color("a \"info\" b", &t).map(|c| c.r), Some(3));
    assert_eq!(level_color("<debug> b", &t).map(|c| c.r), Some(4));
    assert_eq!(level_color("now trace: b", &t).map(|c| c.r), Some(5));
    assert!(level_color("terrors everywhere", &t).is_none());
    assert_eq!(color_for_level(Some(Level::Warn), &t).map(|c| c.r), Some(2));
    assert!(color_for_level(None, &t).is_none());
}

#[test]
fn level_words_stand_as_markers() {
    assert!(has_level("[ERROR] X", "ERROR"));
    assert!(has_level("ERROR: X", "ERROR"));
    assert!(!has_level("TERRORS", "ERROR"));
}

#[test]
fn upper_case_goes_beyond_ascii() {
    // the upper case of "ı" (dotless) is "I"
    let t = theme();
    assert_eq!(level_color("[ınfo] x", &t).map(|c| c.r), Some(3));
}

#[test]
fn literal_matches_do_not_overlap_and_are_limited() {
    let none = |_: &[u8]| Vec::new();
    let q = Query::Literal("aa".as_bytes().to_vec());
    assert_eq!(query_ranges_in(&q, "aaaaa".as_bytes(), none, MAX_MATCH_RANGES), vec![(0, 2), (2, 4)]);
    assert_eq!(query_ranges_in(&q, "aaaaa".as_bytes(), none, 1), vec![(0, 2)]);
    assert_eq!(query_ranges_in(&q, "bbb".as_bytes(), none, 9), vec![]);
}

#[test]
fn pattern_matches_come_from_their_engine() {
    let some = |_: &[u8]| vec![(0, 1), (2, 5), (6, 7)];
    assert_eq!(query_ranges_in(&Query::Regex, "abcdefg".as_bytes(), some, 2), vec![(0, 1), (2, 5)]);
}

#[test]
fn filters_pick_lines() {
    let lit = |case_sensitive| FilterSpec::Literal { pattern: "Err".to_string(), case_sensitive };
    assert!(filter_matches_line(&lit(true), "an Err here"));
    assert!(!filter_matches_line(&lit(true), "an err here"));
    assert!(filter_matches_line(&lit(false), "an ERR here"));
    let has = FilterSpec::Contains { needle: "x=1".to_string() };
    assert!(filter_matches_line(&has, "y x=1 z"));
    assert!(!filter_matches_line(&has, "y X=1 z"));
    let status = FilterSpec::ErrorLevel { min: 400, max: 599 };
    assert!(filter_matches_line(&status, "GET / 404 12"));
    assert!(!filter_matches_line(&status, "GET / 200 12"));
}

use qview_gui::decimal::{
    align_left, align_right, decimal_string, human, human_aligned, push_decimal, push_padded,
    signed_string,
};
use qview_gui::encodings::{find, key, label, ENCODINGS};
use qview_gui::fields::{
    is_whitespace, parse_goto, parse_u64, shorten_back, shorten_front, trim_chars,
};
use qview_gui::hexcolor::{component_at, skip_hashes};
use qview_gui::levels::{
    has_level_bytes, level_of_ascii_line, level_of_line, level_of_upper, to_ascii_uppercase,
    upper_byte, Level,
};
use qview_gui::numbers::{
    parse_bounded, parse_bounded_chars, parse_percent, parse_size, Number,
};
use qview_gui::occurrences::{contains, ends_with, literal_ranges, starts_with};
use qview_gui::palettes::{channels, theme_name, DARK_PRO, THEMES};
use qview_gui::paths::{has_extension, join_unix, join_windows};
use qview_gui::sorting::{
    sort_by_name, sort_by_size, sorted_names, sorted_unique, stands_before, sum_sizes,
};
use qview_gui::text::{
    byte_len, byte_slice, char_count, chars_of, eq_ignore_ascii_case, first_chars, len_utf16,
    len_utf8, position, same_text,
};
use qview_gui::utf16::{encode_utf16, from_utf16_lossy, wide_to_string};

fn strings(list: &[&str]) -> Vec<String> {
    list.iter().map(|s| s.to_string()).collect()
}

#[test]
fn numbers_are_written() {
    assert_eq!(decimal_string(0), "0");
    assert_eq!(decimal_string(u64::MAX), u64::MAX.to_string());
    assert_eq!(signed_string(-40), "-40");
    assert_eq!(signed_string(i32::MIN), i32::MIN.to_string());
    let mut s = "n=".to_string();
    push_decimal(&mut s, 12);
    push_padded(&mut s, 7, 3);
    assert_eq!(s, "n=12007");
    assert_eq!(align_right("ab", 4), "  ab");
    assert_eq!(align_right("日志", 4), "  日志");
    assert_eq!(align_left("ab", 4), "ab  ");
    assert_eq!(align_left("abcde", 4), "abcde");
}

#[test]
fn byte_counts_are_rounded_as_the_formatter_does() {
    for n in [0u64, 1, 1023, 1024, 1025, 1126, 1_048_575, 1_048_576, 123_456_789, u64::MAX] {
        let units = ["B", "KiB", "MiB", "GiB", "TiB", "PiB"];
        let mut v = n as f64;
        let mut u = 0;
        while v >= 1024.0 && u < 3 {
            v /= 1024.0;
            u += 1;
        }
        let want = if u == 0 { format!("{n} B") } else { format!("{v:.2} {}", units[u]) };
        assert_eq!(human(n, 3), want);
    }
    assert_eq!(human_aligned(1536, 3, 7), "   1.50 KiB");
}

#[test]
fn fields_are_read() {
    assert!(is_whitespace('\u{3000}') && !is_whitespace('x'));
    assert_eq!(trim_chars("  a b\t"), vec!['a', ' ', 'b']);
    let chars = |s: &str| s.chars().collect::<Vec<char>>();
    assert_eq!(parse_u64(&chars("+12")), Some(12));
    assert_eq!(parse_u64(&chars("18446744073709551615")), Some(u64::MAX));
    assert_eq!(parse_u64(&chars("18446744073709551616")), None);
    assert_eq!(parse_u64(&chars("")), None);
    assert_eq!(parse_u64(&chars("-1")), None);
    assert_eq!(parse_goto(" 12 "), Some(11));
    assert_eq!(parse_goto("0"), None);
    assert_eq!(parse_goto("abc"), None);
}

/// Whole part and fraction of a number that was read.
fn parts(n: Option<Number>) -> Option<(i32, String)> {
    n.map(|n| {
        assert!(!n.is_nan);
        (n.whole, n.fraction)
    })
}

fn number(whole: i32, fraction: &str) -> Option<(i32, String)> {
    Some((whole, fraction.to_string()))
}

#[test]
fn numbers_are_read() {
    let read = |s: &str| parts(parse_bounded(s, 8, 36));
    assert_eq!(read(" 5 "), number(8, ""));
    assert_eq!(read("x"), None);
    assert_eq!(read(""), None);
    assert_eq!(read("12.5"), number(12, "5"));
    assert_eq!(read("+12.50"), number(12, "5"));
    assert_eq!(read("-3"), number(8, ""));
    assert_eq!(read("36"), number(36, ""));
    assert_eq!(read("40.25"), number(36, ""));
    assert_eq!(read("99999999999999999999999999999999999999999999"), number(36, ""));
    assert_eq!(read("."), None);
    assert_eq!(read("12."), number(12, ""));
    assert_eq!(read("+.5"), number(8, ""));
    assert_eq!(read("1.2.3"), None);
    assert_eq!(read("1e1"), number(10, ""));
    assert_eq!(read("1.25E+1"), number(12, "5"));
    assert_eq!(read("1250e-2"), number(12, "5"));
    assert_eq!(read("0.00125e4"), number(12, "5"));
    assert_eq!(read("1e"), None);
    assert_eq!(read("e1"), None);
    assert_eq!(read("1e+"), None);
    assert_eq!(read("1e2e3"), None);
    assert_eq!(read("1e999999999999999999999999999999999999999"), number(36, ""));
    assert_eq!(read("0e999999999999999999999999999999999999999"), number(8, ""));
    assert_eq!(read("9e-999999999999999999999999999999999999999"), number(8, ""));
    assert_eq!(read("inf"), number(36, ""));
    assert_eq!(read("-Infinity"), number(8, ""));
    assert_eq!(read("infin"), None);
    assert!(parse_bounded("NaN", 8, 36).unwrap().is_nan);
    assert!(parse_bounded("-nan", 8, 36).unwrap().is_nan);
    let chars: Vec<char> = "7e-3".chars().collect();
    assert_eq!(parts(parse_bounded_chars(&chars, 0, 9)), number(0, "007"));
    assert_eq!(parts(parse_bounded("1e-400", 0, 9)).unwrap().1.len(), 400);
    assert_eq!(parts(parse_bounded("1e-402", 0, 9)), number(0, ""));
}

#[test]
fn numbers_are_read_like_floats() {
    let texts = [
        "12.5", "12.99999", "12.9999995", "12.99999952316284", "12.99999952316284179687",
        "12.999999523162841796875", "12.99999952316284179687499", "15.9999996", "16.999999",
        "16.9999990463256835937", "16.9999990463256835938", "16.999999046325683593749999",
        "31.9999991", "32.999998", "32.99999809265136718750", "32.999998092651367187499999",
        "35.9999999", "7.99999999", "8", "1.3e1", "130e-1", "0.9e1", "35.5", "inf", "-inf", "-0",
        "36.0000001", "1e-9", "14.9999999999999991", "14.999999999999999111821580299874767661094",
        "14.999999999999999", "31.999999999999998", "31.99999999999999822364316059975",
    ];
    for text in texts {
        let single = text.parse::<f32>().unwrap().clamp(8.0, 36.0);
        let n = parse_size(text, 8, 36, 24).unwrap();
        assert_eq!(n.to_whole(), single as i32, "{text}");
        assert_eq!(format!("{}.{}", n.whole, n.fraction).parse::<f32>().unwrap(), single, "{text}");
        let double = text.parse::<f64>().unwrap().clamp(14.0, 36.0);
        let n = parse_size(text, 14, 36, 53).unwrap();
        assert_eq!(n.to_whole(), double as i32, "{text}");
        assert_eq!(format!("{}.{}", n.whole, n.fraction).parse::<f64>().unwrap(), double, "{text}");
    }
    assert_eq!(parse_size("nan", 8, 36, 24).unwrap().to_whole(), f32::NAN as i32);
    assert!(parse_size("ten", 8, 36, 24).is_none());
}

#[test]
fn percents_are_read() {
    let read = |s: &str| parts(parse_percent(s));
    assert_eq!(read("done 100%"), number(100, ""));
    assert_eq!(read("done"), None);
    assert_eq!(read("done 7"), None);
    assert_eq!(read("%"), None);
    assert_eq!(read("indexing... 42.5%"), number(42, "5"));
    assert_eq!(read("searching... +42%"), number(42, ""));
    assert_eq!(read("a 150%"), number(100, ""));
    assert_eq!(read("a -5%"), number(0, ""));
    // white space other than blanks can stand in front of the sign
    assert_eq!(read("a \t42\t%"), number(42, ""));
    assert_eq!(read("a 42 %"), None);
    assert!(parse_percent("a nan%").unwrap().is_nan);
}

#[test]
fn texts_are_shortened() {
    assert_eq!(shorten_front("abcdef", 4), "…def");
    assert_eq!(shorten_front("abcd", 4), "abcd");
    assert_eq!(shorten_back("日志文件名", 3), "日志…");
}

#[test]
fn encodings_have_keys_and_labels() {
    for i in 0..ENCODINGS {
        assert_eq!(find(key(i)), Some(i));
        assert!(!label(i).is_empty());
    }
    assert_eq!(find("no such"), None);
}

#[test]
fn hex_digits_are_read() {
    assert_eq!(skip_hashes("##12".as_bytes()), 2);
    assert_eq!(component_at("12FF".as_bytes(), 0, 2, 9), 255);
    assert_eq!(component_at("12".as_bytes(), 0, 2, 9), 9);
    assert_eq!(component_at("zz".as_bytes(), 0, 0, 9), 9);
}

#[test]
fn levels_of_lines() {
    assert!(has_level_bytes("[INFO]".as_bytes(), "INFO".as_bytes()));
    assert_eq!(level_of_upper("[FATAL] X".as_bytes()), Some(Level::Error));
    assert_eq!(level_of_line("[error] ß"), Some(Level::Error));
    assert_eq!(level_of_line("plain"), None);
    assert_eq!(level_of_line("error"), Some(Level::Error));
    assert_eq!(level_of_ascii_line("Warn"), Some(Level::Warn));
    assert_eq!(level_of_upper("INFORMATION".as_bytes()), None);
    assert_eq!(level_of_ascii_line("[debug]"), Some(Level::Debug));
    assert_eq!(upper_byte(0x7A), 0x5A);
    assert_eq!(to_ascii_uppercase("aé".as_bytes()), "Aé".as_bytes().to_vec());
}

#[test]
fn occurrences_are_found() {
    assert_eq!(literal_ranges("abcabcab".as_bytes(), "abc".as_bytes(), 9), vec![(0, 3), (3, 6)]);
    assert_eq!(literal_ranges("日志日志".as_bytes(), "志".as_bytes(), 1), vec![(3, 6)]);
    assert!(contains("abc".as_bytes(), "bc".as_bytes()) && !contains("abc".as_bytes(), "cb".as_bytes()));
    assert!(contains("abc".as_bytes(), "".as_bytes()));
    assert!(starts_with("abc".as_bytes(), "ab".as_bytes()) && !starts_with("a".as_bytes(), "ab".as_bytes()));
    assert!(ends_with("abc".as_bytes(), "bc".as_bytes()) && !ends_with("abc".as_bytes(), "ab".as_bytes()));
}

#[test]
fn palettes_hold_colours() {
    assert_eq!(32, DARK_PRO.len());
    assert_eq!(THEMES, 6);
    assert_eq!(channels(0x0102_0304), (1, 2, 3, 4));
    assert_eq!(theme_name(4), "Dracula");
}

#[test]
fn paths_are_joined() {
    assert_eq!(join_windows("C:\\a", "b"), "C:\\a\\b");
    assert_eq!(join_windows("C:\\", "b"), "C:\\b");
    assert_eq!(join_unix("/a", "b"), "/a/b");
    assert_eq!(join_unix("/a/", "b"), "/a/b");
    assert!(has_extension("a.qli", "qli") && !has_extension(".qli", "qli"));
    assert!(!has_extension("qli", "qli") && has_extension("a.b.qli", "qli"));
}

#[test]
fn lists_are_sorted() {
    assert_eq!(sorted_unique(&vec![3, 1, 3, 2]), vec![1, 2, 3]);
    assert!(stands_before("a", "b") && stands_before("a", "ab") && !stands_before("b", "a"));
    let e = |s: &str, n: u64| (s.to_string(), n);
    assert_eq!(
        sort_by_name(vec![e("b", 1), e("a", 2), e("ab", 3)]),
        vec![e("a", 2), e("ab", 3), e("b", 1)]
    );
    assert_eq!(sorted_names(&strings(&["b", "a", "b"])), strings(&["a", "b"]));
    // equal sizes keep their order
    assert_eq!(
        sort_by_size(vec![e("x", 1), e("y", 5), e("z", 1)]),
        vec![e("y", 5), e("x", 1), e("z", 1)]
    );
    assert_eq!(sum_sizes(&vec![e("x", 1), e("y", 5)]), 6);
}

#[test]
fn texts_are_measured() {
    assert_eq!((len_utf8('a'), len_utf8('é'), len_utf8('你'), len_utf8('😀')), (1, 2, 3, 4));
    assert_eq!((len_utf16('你'), len_utf16('😀')), (1, 2));
    assert_eq!((byte_len("你a"), char_count("你a")), (4, 2));
    assert_eq!(chars_of("a你"), vec!['a', '你']);
    assert_eq!(byte_slice("a你b", 1, 4), "你");
    assert_eq!(position(&strings(&["a", "b"]), "b"), Some(1));
    assert_eq!(first_chars("你好吗", 2), "你好");
    assert!(same_text("a", "a") && !same_text("a", "ab"));
    assert!(eq_ignore_ascii_case("Menlo", "mENLO") && !eq_ignore_ascii_case("É", "é"));
}

#[test]
fn code_units_come_and_go() {
    let u = encode_utf16("a😀");
    assert_eq!(u, vec![0x61, 0xD83D, 0xDE00]);
    assert_eq!(from_utf16_lossy(&u, 0, 3), "a😀");
    assert_eq!(from_utf16_lossy(&u, 0, 2), "a\u{FFFD}");
    assert_eq!(from_utf16_lossy(&vec![0xDE00, 0x62], 0, 2), "\u{FFFD}b");
    assert_eq!(wide_to_string(&vec![0x61, 0x62, 0, 0x63]), "ab");
    assert_eq!(wide_to_string(&vec![0x61, 0x62]), "ab");
}

use qview_gui::egui::viewer::Query;
use qview_gui::macos::bridge::{progress_message, read_display_line, Bridge};
use qview_gui::occurrences::literal_ranges;
use qview_gui::text::RawLine;

const LOG: &str = "2024-01-01 INFO starting app\n\
                   2024-01-01 DEBUG some debug info\n\
                   2024-01-01 ERROR something went wrong\n\
                   2024-01-01 ERROR another error here\n\
                   2024-01-01 INFO finishing\n";

fn starts() -> Vec<u64> {
    let mut starts = vec![0];
    for (i, b) in LOG.bytes().enumerate() {
        if b == b'\n' && i + 1 < LOG.len() {
            starts.push(i as u64 + 1);
        }
    }
    starts
}

fn read(line: u64) -> RawLine {
    let start_byte = starts()[line as usize];
    let text = LOG[start_byte as usize..].lines().next().unwrap().to_string();
    RawLine { start_byte, text }
}

fn line_of(byte: u64) -> u64 {
    starts().iter().filter(|s| **s <= byte).count() as u64 - 1
}

fn opened() -> Bridge {
    Bridge::open("/tmp/a.log".to_string(), LOG.len() as u64, starts().len() as u64, 10 * 1024 * 1024, true)
}

fn none(_: &[u8]) -> Vec<(usize, usize)> {
    Vec::new()
}

/// Matches of `err\w+`, whatever the case.
fn err_words(hay: &[u8]) -> Vec<(usize, usize)> {
    let text = std::str::from_utf8(hay).unwrap().to_ascii_lowercase();
    let mut out = Vec::new();
    let mut from = 0;
    while let Some(at) = text[from..].find("err") {
        let start = from + at;
        let rest = &text[start + 3..];
        let more = rest.find(|c: char| !c.is_alphanumeric() && c != '_').unwrap_or(rest.len());
        if more > 0 {
            out.push((start, start + 3 + more));
        }
        from = start + 3 + more;
    }
    out
}

#[test]
fn open_read_and_line_count() {
    let b = opened();
    assert_eq!(b.total_lines(), 5, "small file index must be synchronous");
    let shown = |line: u64| read_display_line(read(line), None, none, None).text;
    assert_eq!(shown(0), "2024-01-01 INFO starting app");
    assert_eq!(shown(4), "2024-01-01 INFO finishing");
    assert!(!b.indexing_active());
}

#[test]
fn case_sensitive_search_maps_hits_to_lines() {
    let mut b = opened();
    b.search_submitted("ERROR".into());
    let found: Vec<u64> = literal_ranges(LOG.as_bytes(), "ERROR".as_bytes(), usize::MAX)
        .iter()
        .map(|r| r.0 as u64)
        .collect();
    assert!(!b.poll_search(None));
    assert!(b.poll_search(Some(found)));
    assert_eq!(b.hits.len(), 2, "case-sensitive 'ERROR' → 2 hits");
    assert_eq!(b.hit_line(0, &line_of), Some(2), "first hit on line 3 (0-based 2)");
    assert_eq!(b.hit_line(1, &line_of), Some(3), "second hit on line 4 (0-based 3)");
    assert_eq!(b.hit_line(2, &line_of), None);
}

#[test]
fn read_display_line_highlights_matches() {
    let q = Query::Literal("ERROR".as_bytes().to_vec());
    let mut b = opened();
    b.search_submitted("ERROR".into());
    let found = literal_ranges(LOG.as_bytes(), "ERROR".as_bytes(), usize::MAX);
    b.poll_search(Some(found.iter().map(|r| r.0 as u64).collect()));
    assert!(!b.hits.is_empty());
    let hit = b.hits[0];
    let line = b.hit_line(0, &line_of).unwrap();
    let dl = read_display_line(read(line), Some(&q), none, Some(hit));
    assert_eq!(dl.matches.len(), 1, "line 3 has exactly one 'ERROR'");
    let (s, e) = dl.matches[0];
    assert_eq!(&dl.text[s..e], "ERROR");
    assert!(dl.is_current, "the hit at cursor must mark line as current");

    let dl2 = read_display_line(read(0), Some(&q), none, None);
    assert!(dl2.matches.is_empty());
    assert!(!dl2.is_current);
}

#[test]
fn regex_search_highlights_regex_matches() {
    let mut b = opened();
    b.search_submitted("err\\w+".into());
    b.poll_search(Some(err_words(LOG.as_bytes()).iter().map(|r| r.0 as u64).collect()));
    assert!(b.hits.len() >= 3, "case-insensitive regex 'err\\w+' hits many");
    let dl = read_display_line(read(3), Some(&Query::Regex), err_words, None);
    assert_eq!(dl.matches.len(), 2, "line 4 has 'ERROR' + 'error'");
}

#[test]
fn a_display_line_without_query_has_no_matches() {
    assert!(read_display_line(read(3), None, none, Some(0)).matches.is_empty());
    let empty = Query::Literal(Vec::new());
    assert!(read_display_line(read(3), Some(&empty), none, None).matches.is_empty());
    let touching = |_: &[u8]| vec![(1, 1), (2, 4)];
    assert_eq!(read_display_line(read(3), Some(&Query::Regex), touching, None).matches, vec![(2, 4)]);
}

#[test]
fn going_through_the_matches_comes_back() {
    let mut b = opened();
    assert_eq!(b.search_next(), None);
    assert_eq!(b.search_prev(), None);
    b.poll_search(Some(vec![10, 20, 30]));
    assert_eq!(b.search_next(), Some(20));
    assert_eq!(b.search_next(), Some(30));
    assert_eq!(b.search_next(), Some(10));
    assert_eq!(b.search_prev(), Some(30));
    assert_eq!(b.search_next(), Some(10));
    b.cancel_search();
    assert!(b.hits.is_empty());
    assert_eq!(b.last_query, "");
}

#[test]
fn large_files_are_indexed_in_the_background() {
    let mut b = Bridge::open("p".to_string(), 11, 0, 10, false);
    assert!(b.indexing_active());
    assert!(!Bridge::open("p".to_string(), 10, 0, 10, false).indexing_active());
    assert!(!Bridge::open("p".to_string(), 11, 0, 10, true).indexing_active());
    assert!(!b.poll_index(None));
    assert!(b.poll_index(Some(77)));
    assert_eq!(b.total_lines(), 77);
    assert!(!b.indexing_active());
}

#[test]
fn the_index_is_reported_before_the_search() {
    let s = |t: &str| Some(t.to_string());
    assert_eq!(progress_message(s("a"), s("b")), s("a"));
    assert_eq!(progress_message(None, s("b")), s("b"));
    assert_eq!(progress_message(None, None), None);
}

//! The settings sheet: its parts, and what its parts mean for the settings.

use vstd::prelude::*;
use vstd::utf8::encode_utf8;

use crate::decimal::{decimal, decimal_string};
use crate::encodings::{key, key_text, ENCODINGS};
use crate::macos::config::GuiConfig;
use crate::occurrences::{contains, occurs};
use crate::palettes::{theme_name, theme_name_text, THEMES};
use crate::sorting::{sorted_names, strictly_ordered};
use crate::text::{
    eq_ignore_ascii_case, is_listed, position, same_but_case, same_text, views,
};

verus! {

broadcast use vstd::string::group_string_axioms;

/// Bytes of a megabyte.
pub const MEGABYTE: u64 = 0x10_0000;

// ---------------------------------------------------------------------------
// Choices
// ---------------------------------------------------------------------------

/// Sizes below which a file is small, in megabytes.
pub open spec fn threshold_mb(i: int) -> u64 {
    if i == 0 {
        1
    } else if i == 1 {
        5
    } else if i == 2 {
        10
    } else if i == 3 {
        50
    } else {
        100
    }
}

/// Labels of those sizes.
pub open spec fn threshold_labels() -> Seq<Seq<char>> {
    seq!["1 MB"@, "5 MB"@, "10 MB"@, "50 MB"@, "100 MB"@]
}

/// Numbers of lines that are kept.
pub open spec fn cache_cap(i: int) -> usize {
    if i == 0 {
        5000
    } else if i == 1 {
        10000
    } else if i == 2 {
        20000
    } else {
        50000
    }
}

/// Labels of those numbers.
pub open spec fn cache_labels() -> Seq<Seq<char>> {
    seq!["5000"@, "10000"@, "20000"@, "50000"@]
}

fn threshold_label(i: usize) -> (r: &'static str)
    requires
        i < 5,
    ensures
        r@ == threshold_labels()[i as int],
{
    match i {
        0 => "1 MB",
        1 => "5 MB",
        2 => "10 MB",
        3 => "50 MB",
        _ => "100 MB",
    }
}

fn threshold_value(i: usize) -> (r: u64)
    ensures
        r == threshold_mb(i as int),
{
    match i {
        0 => 1,
        1 => 5,
        2 => 10,
        3 => 50,
        _ => 100,
    }
}

fn cache_label(i: usize) -> (r: &'static str)
    requires
        i < 4,
    ensures
        r@ == cache_labels()[i as int],
{
    match i {
        0 => "5000",
        1 => "10000",
        2 => "20000",
        _ => "50000",
    }
}

fn cache_value(i: usize) -> (r: usize)
    ensures
        r == cache_cap(i as int),
{
    match i {
        0 => 5000,
        1 => 10000,
        2 => 20000,
        _ => 50000,
    }
}

/// `i` is the first of some labels that is the given one.
pub open spec fn is_label(labels: Seq<Seq<char>>, label: Seq<char>, i: int) -> bool {
    &&& 0 <= i < labels.len()
    &&& labels[i] == label
    &&& forall|k: int| 0 <= k < i ==> #[trigger] labels[k] != label
}

/// Size that a label stands for, in bytes; ten megabytes where it is not known.
pub fn threshold_of_label(label: &str) -> (r: u64)
    ensures
        forall|i: int| #[trigger]
            is_label(threshold_labels(), label@, i) ==> r == threshold_mb(i) * MEGABYTE,
        !threshold_labels().contains(label@) ==> r == 10 * MEGABYTE,
{
    let mut i: usize = 0;
    while i < 5
        invariant
            i <= 5,
            forall|k: int| 0 <= k < i ==> #[trigger] threshold_labels()[k] != label@,
        decreases 5 - i,
    {
        if same_text(threshold_label(i), label) {
            proof {
                assert(threshold_labels()[i as int] == label@);
                assert forall|k: int| #[trigger] is_label(
                    threshold_labels(),
                    label@,
                    k,
                ) implies k == i by {
                    if k > i {
                        assert(threshold_labels()[i as int] != label@);
                    }
                }
            }
            return threshold_value(i) * MEGABYTE;
        }
        i = i + 1;
    }
    10 * MEGABYTE
}

/// Number that a label stands for; ten thousand where it is not known.
pub fn cache_of_label(label: &str) -> (r: usize)
    ensures
        forall|i: int| #[trigger] is_label(cache_labels(), label@, i) ==> r == cache_cap(i),
        !cache_labels().contains(label@) ==> r == 10000,
{
    let mut i: usize = 0;
    while i < 4
        invariant
            i <= 4,
            forall|k: int| 0 <= k < i ==> #[trigger] cache_labels()[k] != label@,
        decreases 4 - i,
    {
        if same_text(cache_label(i), label) {
            proof {
                assert(cache_labels()[i as int] == label@);
                assert forall|k: int| #[trigger] is_label(cache_labels(), label@, k) implies k
                    == i by {
                    if k > i {
                        assert(cache_labels()[i as int] != label@);
                    }
                }
            }
            return cache_value(i);
        }
        i = i + 1;
    }
    10000
}

/// A list to choose from.
pub struct Popup {
    pub entries: Vec<String>,
    pub selected: usize,
}

/// Entries of a list: its labels, and one more where the value in use is none of
/// them.
pub open spec fn entries_with(
    labels: Seq<Seq<char>>,
    known: bool,
    extra: Seq<char>,
) -> Seq<Seq<char>> {
    if known {
        labels
    } else {
        labels.push(extra)
    }
}

/// The list of sizes below which a file is small. A size in use that is not
/// among them is added, and the first is chosen then.
pub fn threshold_popup(bytes: u64) -> (r: Popup)
    ensures
        ({
            let mb = bytes / MEGABYTE;
            let known = exists|i: int| 0 <= i < 5 && #[trigger] threshold_mb(i) == mb;
            &&& views(r.entries@) == entries_with(
                threshold_labels(),
                known,
                decimal(mb as nat) + " MB"@,
            )
            &&& known ==> r.selected < 5 && threshold_mb(r.selected as int) == mb
            &&& !known ==> r.selected == 0
        }),
{
    let mb: u64 = bytes / MEGABYTE;
    let mut entries: Vec<String> = Vec::new();
    let mut found: Option<usize> = None;
    let mut i: usize = 0;
    while i < 5
        invariant
            i <= 5,
            views(entries@) == threshold_labels().take(i as int),
            match found {
                Some(k) => k < i && threshold_mb(k as int) == mb,
                None => forall|k: int| 0 <= k < i ==> #[trigger] threshold_mb(k) != mb,
            },
        decreases 5 - i,
    {
        let ghost before = entries@;
        entries.push(threshold_label(i).to_owned());
        assert(views(entries@) =~= views(before).push(threshold_labels()[i as int]));
        if found.is_none() && threshold_value(i) == mb {
            found = Some(i);
        }
        i = i + 1;
        assert(views(entries@) =~= threshold_labels().take(i as int));
    }
    assert(threshold_labels().take(5) =~= threshold_labels());
    match found {
        Some(k) => {
            assert(threshold_mb(k as int) == mb);
            Popup { entries, selected: k }
        },
        None => {
            let ghost before = entries@;
            let mut extra: String = decimal_string(mb);
            extra.append(" MB");
            let ghost text = extra@;
            entries.push(extra);
            assert(views(entries@) =~= views(before).push(text));
            Popup { entries, selected: 0 }
        },
    }
}

/// The list of numbers of lines that are kept. A number in use that is not among
/// them is added, and the first is chosen then.
pub fn cache_popup(cap: usize) -> (r: Popup)
    ensures
        ({
            let known = exists|i: int| 0 <= i < 4 && #[trigger] cache_cap(i) == cap;
            &&& views(r.entries@) == entries_with(cache_labels(), known, decimal(cap as nat))
            &&& known ==> r.selected < 4 && cache_cap(r.selected as int) == cap
            &&& !known ==> r.selected == 0
        }),
{
    let mut entries: Vec<String> = Vec::new();
    let mut found: Option<usize> = None;
    let mut i: usize = 0;
    while i < 4
        invariant
            i <= 4,
            views(entries@) == cache_labels().take(i as int),
            match found {
                Some(k) => k < i && cache_cap(k as int) == cap,
                None => forall|k: int| 0 <= k < i ==> #[trigger] cache_cap(k) != cap,
            },
        decreases 4 - i,
    {
        let ghost before = entries@;
        entries.push(cache_label(i).to_owned());
        assert(views(entries@) =~= views(before).push(cache_labels()[i as int]));
        if found.is_none() && cache_value(i) == cap {
            found = Some(i);
        }
        i = i + 1;
        assert(views(entries@) =~= cache_labels().take(i as int));
    }
    assert(cache_labels().take(4) =~= cache_labels());
    match found {
        Some(k) => {
            assert(cache_cap(k as int) == cap);
            Popup { entries, selected: k }
        },
        None => {
            let ghost before = entries@;
            let extra: String = decimal_string(cap as u64);
            let ghost text = extra@;
            entries.push(extra);
            assert(views(entries@) =~= views(before).push(text));
            Popup { entries, selected: 0 }
        },
    }
}

// ---------------------------------------------------------------------------
// Fonts
// ---------------------------------------------------------------------------

/// Lower case of a text after the Unicode rules.
pub uninterp spec fn lowercase(s: Seq<char>) -> Seq<char>;

/// `str::to_lowercase` gives the lower case of a text. Nothing is said of what
/// that is on any text, only that it depends on the text alone.
#[verifier::external_body]
fn to_lowercase(s: &str) -> (r: String)
    ensures
        r@ == lowercase(s@),
{
    s.to_lowercase()
}

/// A text holds a word.
pub open spec fn holds_word(text: Seq<char>, word: Seq<char>) -> bool {
    occurs(encode_utf8(text), encode_utf8(word))
}

/// A name in lower case is that of a monospaced font.
pub open spec fn is_mono_name(lower: Seq<char>) -> bool {
    holds_word(lower, "mono"@) || holds_word(lower, "menlo"@) || holds_word(lower, "courier"@)
        || holds_word(lower, "monaco"@) || holds_word(lower, "source code"@) || holds_word(
        lower,
        "jetbrains"@,
    )
}

/// Whether a name in lower case is that of a monospaced font.
pub fn is_mono(lower: &str) -> (r: bool)
    ensures
        r == is_mono_name(lower@),
{
    let hay: &[u8] = lower.as_bytes();
    contains(hay, "mono".as_bytes()) || contains(hay, "menlo".as_bytes()) || contains(
        hay,
        "courier".as_bytes(),
    ) || contains(hay, "monaco".as_bytes()) || contains(hay, "source code".as_bytes())
        || contains(hay, "jetbrains".as_bytes())
}

/// Names of monospaced fonts among some.
pub open spec fn mono_names(names: Seq<Seq<char>>) -> Seq<Seq<char>> {
    names.filter(|n: Seq<char>| is_mono_name(lowercase(n)))
}

/// A name is in a list, but for the case of ASCII letters.
pub open spec fn is_in(list: Seq<Seq<char>>, name: Seq<char>) -> bool {
    exists|i: int| 0 <= i < list.len() && same_but_case(#[trigger] list[i], name)
}

/// A list with a name in front, where it does not hold it already.
pub open spec fn with_name(list: Seq<Seq<char>>, name: Seq<char>) -> Seq<Seq<char>> {
    if is_in(list, name) {
        list
    } else {
        seq![name] + list
    }
}

/// A list with the fonts that every system has.
pub open spec fn with_common(list: Seq<Seq<char>>) -> Seq<Seq<char>> {
    with_name(with_name(with_name(list, "Menlo"@), "SF Mono"@), "Monaco"@)
}

fn put_name(list: &mut Vec<String>, name: &str)
    ensures
        views(final(list)@) == with_name(views(old(list)@), name@),
{
    let ghost all = views(list@);
    let mut i: usize = 0;
    while i < list.len()
        invariant
            i <= list@.len(),
            all == views(list@),
            all == views(old(list)@),
            forall|k: int| 0 <= k < i ==> !same_but_case(#[trigger] all[k], name@),
        decreases list@.len() - i,
    {
        if eq_ignore_ascii_case(list[i].as_str(), name) {
            assert(same_but_case(all[i as int], name@));
            return;
        }
        i = i + 1;
    }
    assert(!is_in(all, name@));
    list.insert(0, name.to_owned());
    assert(views(list@) =~= seq![name@] + all);
}

/// `families` are the names of fonts of one width in order, with the common ones in front.
pub open spec fn are_families(names: Seq<Seq<char>>, families: Seq<Seq<char>>) -> bool {
    exists|sorted: Seq<Seq<char>>| #[trigger]
        strictly_ordered(sorted) && sorted.to_set() == mono_names(names).to_set() && families
            == with_common(sorted)
}

/// The monospaced fonts among those of the system in the order of a dictionary,
/// behind those that every system has.
pub fn available_mono_families(names: &Vec<String>) -> (r: Vec<String>)
    ensures
        are_families(views(names@), views(r@)),
{
    let ghost all = views(names@);
    let mut found: Vec<String> = Vec::new();
    let mut i: usize = 0;
    assert(all.take(0) =~= Seq::empty());
    assert(mono_names(all.take(0)) =~= Seq::empty()) by {
        reveal(Seq::filter);
    }
    assert(views(found@) =~= Seq::empty());
    while i < names.len()
        invariant
            i <= names@.len(),
            all == views(names@),
            views(found@) == mono_names(all.take(i as int)),
        decreases names@.len() - i,
    {
        proof {
            assert(all.take(i + 1).drop_last() =~= all.take(i as int));
            reveal(Seq::filter);
        }
        let lower: String = to_lowercase(names[i].as_str());
        if is_mono(lower.as_str()) {
            let ghost before = found@;
            let s: String = names[i].as_str().to_owned();
            let ghost text = s@;
            found.push(s);
            assert(views(found@) =~= views(before).push(text));
        }
        i = i + 1;
    }
    assert(all.take(all.len() as int) =~= all);
    let mut out: Vec<String> = sorted_names(&found);
    let ghost sorted = views(out@);
    put_name(&mut out, "Menlo");
    put_name(&mut out, "SF Mono");
    put_name(&mut out, "Monaco");
    assert(views(out@) == with_common(sorted));
    out
}

/// The list of fonts: the monospaced ones, and the one in use where it is none
/// of them. The one in use is chosen.
pub fn font_popup(families: &Vec<String>, current: &str) -> (r: Popup)
    ensures
        views(r.entries@) == if is_listed(families@, current@) {
            views(families@)
        } else {
            views(families@).push(current@)
        },
        r.selected < r.entries@.len(),
        r.entries@[r.selected as int]@ == current@,
{
    let mut entries: Vec<String> = Vec::new();
    let mut i: usize = 0;
    while i < families.len()
        invariant
            i <= families@.len(),
            views(entries@) == views(families@).take(i as int),
        decreases families@.len() - i,
    {
        let ghost before = entries@;
        let s: String = families[i].as_str().to_owned();
        let ghost text = s@;
        entries.push(s);
        assert(views(entries@) =~= views(before).push(text));
        i = i + 1;
        assert(views(entries@) =~= views(families@).take(i as int));
    }
    assert(views(families@).take(families@.len() as int) =~= views(families@));
    match position(families, current) {
        Some(k) => {
            assert(views(entries@)[k as int] == views(families@)[k as int]);
            Popup { entries, selected: k }
        },
        None => {
            let ghost before = entries@;
            entries.push(current.to_owned());
            assert(views(entries@) =~= views(before).push(current@));
            let n: usize = entries.len() - 1;
            Popup { entries, selected: n }
        },
    }
}

// ---------------------------------------------------------------------------
// Settings
// ---------------------------------------------------------------------------

/// How files are read.
pub struct EngineOptions {
    pub encoding: String,
    pub small_file_threshold: u64,
    pub index_cache_enabled: bool,
    pub line_cache_capacity: usize,
}

/// What the parts of the sheet hold when it is agreed to. Sizes are the bit
/// patterns of floating point numbers.
pub struct SettingsSnapshot {
    pub font_family: String,
    /// Single precision.
    pub font_size: u32,
    /// Double precision.
    pub row_height: u64,
    pub show_line_numbers: bool,
    pub word_wrap: bool,
    pub show_whitespace: bool,
    pub level_coloring: bool,
    pub show_indent_guides: bool,
    pub case_sensitive: bool,
    pub use_regex: bool,
    pub whole_word: bool,
    pub encoding: String,
    pub threshold_label: String,
    pub index_cache_enabled: bool,
    pub cache_label: String,
}

/// Takes the sheet into the settings; theme and window stay. Returns whether the
/// text goes back to its left edge: lines are wrapped that were not.
pub fn apply_snapshot(gui: &mut GuiConfig, engine: &mut EngineOptions, snap: SettingsSnapshot) -> (r:
    bool)
    ensures
        r == (snap.word_wrap && !old(gui).word_wrap),
        *final(gui) == (GuiConfig {
            theme: old(gui).theme,
            font_family: snap.font_family,
            font_size: snap.font_size,
            row_height: snap.row_height,
            show_line_numbers: snap.show_line_numbers,
            word_wrap: snap.word_wrap,
            show_whitespace: snap.show_whitespace,
            level_coloring: snap.level_coloring,
            show_indent_guides: snap.show_indent_guides,
            case_sensitive: snap.case_sensitive,
            use_regex: snap.use_regex,
            whole_word: snap.whole_word,
            window_size: old(gui).window_size,
            window_maximized: old(gui).window_maximized,
        }),
        final(engine).encoding == snap.encoding,
        final(engine).index_cache_enabled == snap.index_cache_enabled,
        forall|i: int| #[trigger]
            is_label(threshold_labels(), snap.threshold_label@, i)
                ==> final(engine).small_file_threshold == threshold_mb(i) * MEGABYTE,
        !threshold_labels().contains(snap.threshold_label@) ==> final(engine).small_file_threshold
            == 10 * MEGABYTE,
        forall|i: int| #[trigger]
            is_label(cache_labels(), snap.cache_label@, i) ==> final(engine).line_cache_capacity
                == cache_cap(i),
        !cache_labels().contains(snap.cache_label@) ==> final(engine).line_cache_capacity == 10000,
{
    let goes_home: bool = snap.word_wrap && !gui.word_wrap;
    engine.small_file_threshold = threshold_of_label(snap.threshold_label.as_str());
    engine.line_cache_capacity = cache_of_label(snap.cache_label.as_str());
    engine.index_cache_enabled = snap.index_cache_enabled;
    engine.encoding = snap.encoding;
    gui.font_family = snap.font_family;
    gui.font_size = snap.font_size;
    gui.row_height = snap.row_height;
    gui.show_line_numbers = snap.show_line_numbers;
    gui.word_wrap = snap.word_wrap;
    gui.show_whitespace = snap.show_whitespace;
    gui.level_coloring = snap.level_coloring;
    gui.show_indent_guides = snap.show_indent_guides;
    gui.case_sensitive = snap.case_sensitive;
    gui.use_regex = snap.use_regex;
    gui.whole_word = snap.whole_word;
    goes_home
}

/// Which themes are chosen, from the first to the last.
pub fn sync_theme_radios(theme: &str) -> (r: Vec<bool>)
    ensures
        r@.len() == THEMES,
        forall|i: int| 0 <= i < THEMES ==> #[trigger] r@[i] == (theme_name_text(i) == theme@),
{
    let mut out: Vec<bool> = Vec::new();
    let mut i: usize = 0;
    while i < THEMES
        invariant
            i <= THEMES,
            out@.len() == i,
            forall|k: int| 0 <= k < i ==> #[trigger] out@[k] == (theme_name_text(k) == theme@),
        decreases THEMES - i,
    {
        out.push(same_text(theme_name(i), theme));
        i = i + 1;
    }
    out
}

/// What is said of the directory of the stored indexes.
pub fn index_dir_text(dir: Option<&str>) -> (r: String)
    ensures
        r@ == match dir {
            Some(d) => d@,
            None => "未设置"@,
        },
{
    match dir {
        Some(d) => d.to_owned(),
        None => "未设置".to_owned(),
    }
}

/// Names of the encodings to choose from.
pub fn encoding_entries() -> (r: Vec<String>)
    ensures
        views(r@) == Seq::new(ENCODINGS as nat, |i: int| key_text(i)),
{
    let ghost all = Seq::new(ENCODINGS as nat, |i: int| key_text(i));
    let mut out: Vec<String> = Vec::new();
    let mut i: usize = 0;
    while i < ENCODINGS
        invariant
            i <= ENCODINGS,
            all == Seq::new(ENCODINGS as nat, |i: int| key_text(i)),
            views(out@) == all.take(i as int),
        decreases ENCODINGS - i,
    {
        let ghost before = out@;
        out.push(key(i).to_owned());
        assert(views(out@) =~= views(before).push(key_text(i as int)));
        i = i + 1;
        assert(views(out@) =~= all.take(i as int));
    }
    assert(all.take(ENCODINGS as int) =~= all);
    out
}

// ---------------------------------------------------------------------------
// Parts
// ---------------------------------------------------------------------------

/// What a part of the sheet is.
#[derive(Clone, Copy, PartialEq, Eq, Structural, Debug)]
pub enum PartKind {
    Label,
    /// A list to choose from.
    Popup,
    /// A slider between two whole numbers.
    Slider(i32, i32),
    Check(bool),
    Radio(bool),
}

/// What a part of the sheet is about.
#[derive(Clone, Copy, PartialEq, Eq, Structural, Debug)]
pub enum PartRole {
    Caption,
    Font,
    FontSize,
    FontSizeValue,
    RowHeight,
    RowHeightValue,
    LineNumbers,
    WordWrap,
    Whitespace,
    LevelColoring,
    IndentGuides,
    CaseSensitive,
    Regex,
    WholeWord,
    Theme(usize),
    Encoding,
    Threshold,
    IndexCache,
    CacheCapacity,
    IndexDir,
}

/// A part of the sheet: its place in points is column, row from below, width and
/// height.
pub struct Part {
    pub tab: u8,
    pub kind: PartKind,
    pub role: PartRole,
    pub place: (i32, i32, i32, i32),
    pub text: String,
}

/// A part of the sheet as contracts speak of it.
pub struct PartView {
    pub tab: u8,
    pub kind: PartKind,
    pub role: PartRole,
    pub place: (i32, i32, i32, i32),
    pub text: Seq<char>,
}

pub open spec fn part_view(p: Part) -> PartView {
    PartView { tab: p.tab, kind: p.kind, role: p.role, place: p.place, text: p.text@ }
}

pub open spec fn parts_view(parts: Seq<Part>) -> Seq<PartView> {
    parts.map(|i: int, p: Part| part_view(p))
}

pub open spec fn part(
    tab: u8,
    kind: PartKind,
    role: PartRole,
    place: (i32, i32, i32, i32),
    text: &str,
) -> PartView {
    PartView { tab, kind, role, place, text: text@ }
}

/// Parts of the tab on the display. The sizes are given as texts.
pub open spec fn display_parts(g: GuiConfig, font_size: &str, row_height: &str) -> Seq<PartView> {
    seq![
        part(0, PartKind::Label, PartRole::Caption, (16, 352, 84, 24), "等宽字体"),
        part(0, PartKind::Popup, PartRole::Font, (104, 350, 300, 26), ""),
        part(0, PartKind::Label, PartRole::Caption, (16, 310, 84, 24), "字号"),
        part(0, PartKind::Slider(8, 32), PartRole::FontSize, (104, 314, 200, 24), ""),
        part(0, PartKind::Label, PartRole::FontSizeValue, (314, 310, 40, 24), font_size),
        part(0, PartKind::Label, PartRole::Caption, (16, 268, 84, 24), "行高"),
        part(0, PartKind::Slider(14, 36), PartRole::RowHeight, (104, 272, 200, 24), ""),
        part(0, PartKind::Label, PartRole::RowHeightValue, (314, 268, 40, 24), row_height),
        part(
            0,
            PartKind::Check(g.show_line_numbers),
            PartRole::LineNumbers,
            (16, 226, 220, 24),
            "显示行号",
        ),
        part(0, PartKind::Check(g.word_wrap), PartRole::WordWrap, (16, 196, 220, 24), "自动换行"),
        part(
            0,
            PartKind::Check(g.show_whitespace),
            PartRole::Whitespace,
            (16, 166, 220, 24),
            "显示空白",
        ),
        part(
            0,
            PartKind::Check(g.level_coloring),
            PartRole::LevelColoring,
            (16, 136, 220, 24),
            "级别着色",
        ),
        part(
            0,
            PartKind::Check(g.show_indent_guides),
            PartRole::IndentGuides,
            (16, 106, 220, 24),
            "缩进参考线",
        ),
    ]
}

/// Parts of the tab on searching.
pub open spec fn search_parts(g: GuiConfig) -> Seq<PartView> {
    seq![
        part(
            1,
            PartKind::Check(g.case_sensitive),
            PartRole::CaseSensitive,
            (16, 340, 240, 24),
            "区分大小写",
        ),
        part(1, PartKind::Check(g.use_regex), PartRole::Regex, (16, 300, 240, 24), "正则表达式"),
        part(1, PartKind::Check(g.whole_word), PartRole::WholeWord, (16, 260, 240, 24), "整词匹配"),
    ]
}

/// The part that chooses a theme.
pub open spec fn theme_part(i: int, current: Seq<char>) -> PartView {
    PartView {
        tab: 2,
        kind: PartKind::Radio(theme_name_text(i) == current),
        role: PartRole::Theme(i as usize),
        place: (16, (350 - i * 34) as i32, 240, 26),
        text: theme_name_text(i),
    }
}

/// Parts of the tab on themes.
pub open spec fn theme_parts(current: Seq<char>) -> Seq<PartView> {
    Seq::new(THEMES as nat, |i: int| theme_part(i, current))
}

/// Parts of the tab on reading.
pub open spec fn engine_parts(cache: bool, dir: &str) -> Seq<PartView> {
    seq![
        part(3, PartKind::Label, PartRole::Caption, (16, 352, 84, 24), "编码"),
        part(3, PartKind::Popup, PartRole::Encoding, (104, 350, 240, 26), ""),
        part(3, PartKind::Label, PartRole::Caption, (16, 310, 84, 24), "小文件阈值"),
        part(3, PartKind::Popup, PartRole::Threshold, (104, 308, 200, 26), ""),
        part(3, PartKind::Check(cache), PartRole::IndexCache, (16, 268, 220, 24), "索引缓存"),
        part(3, PartKind::Label, PartRole::Caption, (16, 226, 84, 24), "行缓存容量"),
        part(3, PartKind::Popup, PartRole::CacheCapacity, (104, 224, 200, 26), ""),
        part(3, PartKind::Label, PartRole::Caption, (16, 184, 84, 24), "索引目录"),
        part(3, PartKind::Label, PartRole::IndexDir, (104, 184, 480, 24), dir),
    ]
}

fn push(
    parts: &mut Vec<Part>,
    tab: u8,
    kind: PartKind,
    role: PartRole,
    place: (i32, i32, i32, i32),
    text: &str,
)
    ensures
        parts_view(final(parts)@) == parts_view(old(parts)@).push(
            part(tab, kind, role, place, text),
        ),
{
    let ghost before = parts@;
    parts.push(Part { tab, kind, role, place, text: text.to_owned() });
    assert(parts_view(parts@) =~= parts_view(before).push(part(tab, kind, role, place, text)));
}

/// Parts of the tab on the display.
pub fn build_display_tab(g: &GuiConfig, font_size: &str, row_height: &str) -> (r: Vec<Part>)
    ensures
        parts_view(r@) == display_parts(*g, font_size, row_height),
{
    let mut v: Vec<Part> = Vec::new();
    let p = &mut v;
    push(p, 0, PartKind::Label, PartRole::Caption, (16, 352, 84, 24), "等宽字体");
    push(p, 0, PartKind::Popup, PartRole::Font, (104, 350, 300, 26), "");
    push(p, 0, PartKind::Label, PartRole::Caption, (16, 310, 84, 24), "字号");
    push(p, 0, PartKind::Slider(8, 32), PartRole::FontSize, (104, 314, 200, 24), "");
    push(p, 0, PartKind::Label, PartRole::FontSizeValue, (314, 310, 40, 24), font_size);
    push(p, 0, PartKind::Label, PartRole::Caption, (16, 268, 84, 24), "行高");
    push(p, 0, PartKind::Slider(14, 36), PartRole::RowHeight, (104, 272, 200, 24), "");
    push(p, 0, PartKind::Label, PartRole::RowHeightValue, (314, 268, 40, 24), row_height);
    push(
        p,
        0,
        PartKind::Check(g.show_line_numbers),
        PartRole::LineNumbers,
        (16, 226, 220, 24),
        "显示行号",
    );
    push(p, 0, PartKind::Check(g.word_wrap), PartRole::WordWrap, (16, 196, 220, 24), "自动换行");
    push(
        p,
        0,
        PartKind::Check(g.show_whitespace),
        PartRole::Whitespace,
        (16, 166, 220, 24),
        "显示空白",
    );
    push(
        p,
        0,
        PartKind::Check(g.level_coloring),
        PartRole::LevelColoring,
        (16, 136, 220, 24),
        "级别着色",
    );
    push(
        p,
        0,
        PartKind::Check(g.show_indent_guides),
        PartRole::IndentGuides,
        (16, 106, 220, 24),
        "缩进参考线",
    );
    assert(parts_view(v@) =~= display_parts(*g, font_size, row_height));
    v
}

/// Parts of the tab on searching.
pub fn build_search_tab(g: &GuiConfig) -> (r: Vec<Part>)
    ensures
        parts_view(r@) == search_parts(*g),
{
    let mut v: Vec<Part> = Vec::new();
    push(
        &mut v,
        1,
        PartKind::Check(g.case_sensitive),
        PartRole::CaseSensitive,
        (16, 340, 240, 24),
        "区分大小写",
    );
    push(
        &mut v,
        1,
        PartKind::Check(g.use_regex),
        PartRole::Regex,
        (16, 300, 240, 24),
        "正则表达式",
    );
    push(
        &mut v,
        1,
        PartKind::Check(g.whole_word),
        PartRole::WholeWord,
        (16, 260, 240, 24),
        "整词匹配",
    );
    assert(parts_view(v@) =~= search_parts(*g));
    v
}

/// Parts of the tab on themes.
pub fn build_theme_tab(current: &str) -> (r: Vec<Part>)
    ensures
        parts_view(r@) == theme_parts(current@),
{
    let ghost all = theme_parts(current@);
    let mut v: Vec<Part> = Vec::new();
    let mut i: usize = 0;
    while i < THEMES
        invariant
            i <= THEMES,
            all == theme_parts(current@),
            parts_view(v@) == all.take(i as int),
        decreases THEMES - i,
    {
        let on: bool = same_text(theme_name(i), current);
        push(
            &mut v,
            2,
            PartKind::Radio(on),
            PartRole::Theme(i),
            (16, 350 - i as i32 * 34, 240, 26),
            theme_name(i),
        );
        i = i + 1;
        assert(parts_view(v@) =~= all.take(i as int));
    }
    assert(all.take(THEMES as int) =~= all);
    v
}

/// Parts of the tab on reading.
pub fn build_engine_tab(cache: bool, dir: &str) -> (r: Vec<Part>)
    ensures
        parts_view(r@) == engine_parts(cache, dir),
{
    let mut v: Vec<Part> = Vec::new();
    push(&mut v, 3, PartKind::Label, PartRole::Caption, (16, 352, 84, 24), "编码");
    push(&mut v, 3, PartKind::Popup, PartRole::Encoding, (104, 350, 240, 26), "");
    push(&mut v, 3, PartKind::Label, PartRole::Caption, (16, 310, 84, 24), "小文件阈值");
    push(&mut v, 3, PartKind::Popup, PartRole::Threshold, (104, 308, 200, 26), "");
    push(&mut v, 3, PartKind::Check(cache), PartRole::IndexCache, (16, 268, 220, 24), "索引缓存");
    push(&mut v, 3, PartKind::Label, PartRole::Caption, (16, 226, 84, 24), "行缓存容量");
    push(&mut v, 3, PartKind::Popup, PartRole::CacheCapacity, (104, 224, 200, 26), "");
    push(&mut v, 3, PartKind::Label, PartRole::Caption, (16, 184, 84, 24), "索引目录");
    push(&mut v, 3, PartKind::Label, PartRole::IndexDir, (104, 184, 480, 24), dir);
    assert(parts_view(v@) =~= engine_parts(cache, dir));
    v
}

// ---------------------------------------------------------------------------
// Laws
// ---------------------------------------------------------------------------

/// A value that a list offers is still set when the sheet is agreed to without a
/// change: its label stands for it.
pub proof fn law_labels_stand_for_values(i: int, j: int)
    requires
        0 <= i < 5,
        0 <= j < 4,
    ensures
        is_label(threshold_labels(), threshold_labels()[i], i),
        is_label(cache_labels(), cache_labels()[j], j),
{
    reveal_strlit("1 MB");
    reveal_strlit("5 MB");
    reveal_strlit("10 MB");
    reveal_strlit("50 MB");
    reveal_strlit("100 MB");
    reveal_strlit("5000");
    reveal_strlit("10000");
    reveal_strlit("20000");
    reveal_strlit("50000");
    let t = threshold_labels();
    let c = cache_labels();
    assert(t[0][0] == '1' && t[1][0] == '5' && t[2][1] == '0' && t[3][1] == '0' && t[4][2] == '0');
    assert(t[0].len() == 4 && t[1].len() == 4 && t[2].len() == 5 && t[3].len() == 5 && t[4].len()
        == 6);
    assert(t[2][0] == '1' && t[3][0] == '5');
    assert(c[0].len() == 4 && c[1].len() == 5 && c[2].len() == 5 && c[3].len() == 5);
    assert(c[1][0] == '1' && c[2][0] == '2' && c[3][0] == '5');
}

/// The labels stand for their values, and any other one for the middle value.
pub proof fn law_labels_are_read(label: &str, bytes: u64, lines: usize)
    requires
        call_ensures(threshold_of_label, (label,), bytes),
        call_ensures(cache_of_label, (label,), lines),
    ensures
        label@ == "1 MB"@ ==> bytes == 1024 * 1024,
        label@ == "5 MB"@ ==> bytes == 5 * 1024 * 1024,
        label@ == "10 MB"@ ==> bytes == 10 * 1024 * 1024,
        label@ == "50 MB"@ ==> bytes == 50 * 1024 * 1024,
        label@ == "100 MB"@ ==> bytes == 100 * 1024 * 1024,
        label@ == "5000"@ ==> lines == 5000,
        label@ == "10000"@ ==> lines == 10000,
        label@ == "20000"@ ==> lines == 20000,
        label@ == "50000"@ ==> lines == 50000,
        label@.len() == 0 ==> bytes == 10 * 1024 * 1024 && lines == 10000,
{
    reveal_strlit("1 MB");
    reveal_strlit("5 MB");
    reveal_strlit("10 MB");
    reveal_strlit("50 MB");
    reveal_strlit("100 MB");
    reveal_strlit("5000");
    reveal_strlit("10000");
    reveal_strlit("20000");
    reveal_strlit("50000");
    let t = threshold_labels();
    let c = cache_labels();
    assert(t[0] == "1 MB"@ && t[1] == "5 MB"@ && t[2] == "10 MB"@ && t[3] == "50 MB"@ && t[4]
        == "100 MB"@);
    assert(c[0] == "5000"@ && c[1] == "10000"@ && c[2] == "20000"@ && c[3] == "50000"@);
    assert(t[0][0] == '1' && t[1][0] == '5' && t[2][0] == '1' && t[3][0] == '5' && t[4][0] == '1');
    assert(t[0][1] == ' ' && t[1][1] == ' ' && t[2][1] == '0' && t[3][1] == '0' && t[4][2] == '0'
        && t[2][2] == ' ');
    assert(c[0].len() == 4 && c[1][0] == '1' && c[2][0] == '2' && c[3][0] == '5' && c[3].len() == 5
        && c[1].len() == 5 && c[2].len() == 5);
    if label@ == "1 MB"@ {
        assert(is_label(t, label@, 0));
    }
    if label@ == "5 MB"@ {
        assert(is_label(t, label@, 1));
    }
    if label@ == "10 MB"@ {
        assert(is_label(t, label@, 2));
    }
    if label@ == "50 MB"@ {
        assert(is_label(t, label@, 3));
    }
    if label@ == "100 MB"@ {
        assert(is_label(t, label@, 4));
    }
    if label@ == "5000"@ {
        assert(is_label(c, label@, 0));
    }
    if label@ == "10000"@ {
        assert(is_label(c, label@, 1));
    }
    if label@ == "20000"@ {
        assert(is_label(c, label@, 2));
    }
    if label@ == "50000"@ {
        assert(is_label(c, label@, 3));
    }
    if label@.len() == 0 {
        if t.contains(label@) {
            let i = t.index_of(label@);
            assert(t[i].len() > 0);
        }
        if c.contains(label@) {
            let i = c.index_of(label@);
            assert(c[i].len() > 0);
        }
    }
}

/// A font is one of one width where its name holds one of the words for that.
pub proof fn law_fonts_of_one_width_are_told(
    before: Seq<char>,
    word: Seq<char>,
    behind: Seq<char>,
    lower: &str,
    r: bool,
)
    requires
        call_ensures(is_mono, (lower,), r),
        lower@ == before + word + behind,
    ensures
        word == "mono"@ || word == "menlo"@ || word == "courier"@ || word == "monaco"@ || word
            == "source code"@ || word == "jetbrains"@ ==> r,
        lower@.len() == 0 ==> !r,
{
    crate::text::lemma_encode_concat(before, word);
    crate::text::lemma_encode_concat(before + word, behind);
    let a = encode_utf8(before);
    let w = encode_utf8(word);
    let all = encode_utf8(lower@);
    assert(all.subrange(a.len() as int, (a.len() + w.len()) as int) =~= w);
    assert(crate::occurrences::occurs_at(all, w, a.len() as int));
    if lower@.len() == 0 {
        reveal_strlit("mono");
        reveal_strlit("menlo");
        reveal_strlit("courier");
        reveal_strlit("monaco");
        reveal_strlit("source code");
        reveal_strlit("jetbrains");
        lemma_word_has_bytes("mono"@);
        lemma_word_has_bytes("menlo"@);
        lemma_word_has_bytes("courier"@);
        lemma_word_has_bytes("monaco"@);
        lemma_word_has_bytes("source code"@);
        lemma_word_has_bytes("jetbrains"@);
        assert(lower@ =~= Seq::<char>::empty());
        assert(all.len() == 0);
    }
}

proof fn lemma_word_has_bytes(word: Seq<char>)
    requires
        word.len() > 0,
    ensures
        encode_utf8(word).len() > 0,
{
    crate::text::lemma_offsets_monotone(word, 0, word.len() as int);
    assert(word.take(word.len() as int) =~= word);
}

/// The font that is in use can be chosen, and all that are known.
pub proof fn law_the_current_font_is_offered(
    families: &Vec<String>,
    current: &str,
    r: Popup,
    i: int,
)
    requires
        call_ensures(font_popup, (families, current), r),
        0 <= i < families@.len(),
    ensures
        r.selected < r.entries@.len(),
        r.entries@[r.selected as int]@ == current@,
        r.entries@[i]@ == families@[i]@,
        r.entries@.len() <= families@.len() + 1,
{
    let v = views(r.entries@);
    assert(v.len() == r.entries@.len());
    assert(views(families@).len() == families@.len());
    assert(v[i] == r.entries@[i]@);
    assert(views(families@)[i] == families@[i]@);
}

/// What is set is applied, and only wrapping that is switched on asks for a new start of
/// the line; the theme and the window stay.
pub proof fn law_what_is_set_is_applied(
    g: &mut GuiConfig,
    e: &mut EngineOptions,
    snap: SettingsSnapshot,
    r: bool,
    label: &str,
    bytes: u64,
)
    requires
        call_ensures(apply_snapshot, (g, e, snap), r),
        label@ == snap.threshold_label@,
        call_ensures(threshold_of_label, (label,), bytes),
    ensures
        r == (snap.word_wrap && !old(g).word_wrap),
        final(g).font_family == snap.font_family && final(g).font_size == snap.font_size && final(
            g).row_height == snap.row_height,
        final(g).show_line_numbers == snap.show_line_numbers && final(g).word_wrap
            == snap.word_wrap && final(g).show_whitespace == snap.show_whitespace && final(
            g).level_coloring == snap.level_coloring && final(g).show_indent_guides
            == snap.show_indent_guides,
        final(g).case_sensitive == snap.case_sensitive && final(g).use_regex == snap.use_regex
            && final(g).whole_word == snap.whole_word,
        final(g).theme == old(g).theme && final(g).window_size == old(g).window_size,
        final(e).encoding == snap.encoding && final(e).index_cache_enabled
            == snap.index_cache_enabled,
{
}

/// The radio of the theme that is shown is on, and only that one.
pub proof fn law_the_radio_of_the_theme_is_on(
    theme: &str,
    r: Vec<bool>,
    i: usize,
    name: &'static str,
    dir: Option<&str>,
    text: String,
)
    requires
        call_ensures(sync_theme_radios, (theme,), r),
        i < 6,
        call_ensures(crate::palettes::theme_name, (i,), name),
        call_ensures(index_dir_text, (dir,), text),
    ensures
        r@.len() == 6,
        r@[i as int] == (name@ == theme@),
        dir is Some ==> text@ == dir->0@,
        dir is None ==> text@ == "未设置"@,
{
}

/// The tabs show the options as they stand.
pub proof fn law_tabs_show_the_options(
    g: &GuiConfig,
    size: &str,
    height: &str,
    r: Vec<Part>,
    search: Vec<Part>,
    current: &str,
    themes: Vec<Part>,
    t: usize,
    name: &'static str,
    cache: bool,
    dir: &str,
    engine: Vec<Part>,
)
    requires
        call_ensures(build_display_tab, (g, size, height), r),
        call_ensures(build_search_tab, (g,), search),
        call_ensures(build_theme_tab, (current,), themes),
        t < 6,
        call_ensures(crate::palettes::theme_name, (t,), name),
        call_ensures(build_engine_tab, (cache, dir), engine),
    ensures
        r@[4].text@ == size@ && r@[7].text@ == height@,
        r@[8].role is LineNumbers && r@[8].kind == PartKind::Check(g.show_line_numbers),
        r@[9].role is WordWrap && r@[9].kind == PartKind::Check(g.word_wrap),
        r@[10].role is Whitespace && r@[10].kind == PartKind::Check(g.show_whitespace),
        r@[11].role is LevelColoring && r@[11].kind == PartKind::Check(g.level_coloring),
        r@[12].role is IndentGuides && r@[12].kind == PartKind::Check(g.show_indent_guides),
        search@[0].role is CaseSensitive && search@[0].kind == PartKind::Check(g.case_sensitive),
        search@[1].role is Regex && search@[1].kind == PartKind::Check(g.use_regex),
        search@[2].role is WholeWord && search@[2].kind == PartKind::Check(g.whole_word),
        themes@[t as int].text@ == name@ && themes@[t as int].kind == PartKind::Radio(
            name@ == current@,
        ),
        engine@[4].role is IndexCache && engine@[4].kind == PartKind::Check(cache),
        engine@[8].text@ == dir@,
{
    let a = parts_view(r@);
    let b = parts_view(search@);
    let c = parts_view(themes@);
    let d = parts_view(engine@);
    assert(a.len() == 13 && b.len() == 3 && c.len() == 6 && d.len() == 9);
    assert(a[4] == part_view(r@[4]) && a[7] == part_view(r@[7]) && a[8] == part_view(r@[8]) && a[9]
        == part_view(r@[9]) && a[10] == part_view(r@[10]) && a[11] == part_view(r@[11]) && a[12]
        == part_view(r@[12]));
    assert(b[0] == part_view(search@[0]) && b[1] == part_view(search@[1]) && b[2] == part_view(
        search@[2],
    ));
    assert(c[t as int] == part_view(themes@[t as int]));
    assert(c[t as int] == theme_part(t as int, current@));
    assert(d[4] == part_view(engine@[4]) && d[8] == part_view(engine@[8]));
}

/// The value that is set can be chosen: among the entries where it is one of them, and as one
/// more where it is not.
pub proof fn law_set_values_are_offered(
    bytes: u64,
    t: Popup,
    cap: usize,
    c: Popup,
    number: String,
)
    requires
        call_ensures(threshold_popup, (bytes,), t),
        call_ensures(cache_popup, (cap,), c),
        call_ensures(crate::decimal::decimal_string, (cap as u64,), number),
    ensures
        bytes == 1024 * 1024 ==> t.selected == 0 && t.entries@.len() == 5,
        bytes == 5 * 1024 * 1024 ==> t.selected == 1 && t.entries@.len() == 5,
        bytes == 10 * 1024 * 1024 ==> t.selected == 2 && t.entries@.len() == 5,
        bytes == 50 * 1024 * 1024 ==> t.selected == 3 && t.entries@.len() == 5,
        bytes == 100 * 1024 * 1024 ==> t.selected == 4 && t.entries@.len() == 5,
        cap == 5000 ==> c.selected == 0 && c.entries@.len() == 4,
        cap == 10000 ==> c.selected == 1 && c.entries@.len() == 4,
        cap == 20000 ==> c.selected == 2 && c.entries@.len() == 4,
        cap == 50000 ==> c.selected == 3 && c.entries@.len() == 4,
        cap != 5000 && cap != 10000 && cap != 20000 && cap != 50000 ==> c.entries@.len() == 5
            && c.entries@[4]@ == number@,
{
    assert(views(t.entries@).len() == t.entries@.len());
    assert(views(c.entries@).len() == c.entries@.len());
    assert(threshold_mb(0) == 1 && threshold_mb(1) == 5 && threshold_mb(2) == 10 && threshold_mb(3)
        == 50 && threshold_mb(4) == 100);
    assert(cache_cap(0) == 5000 && cache_cap(1) == 10000 && cache_cap(2) == 20000 && cache_cap(3)
        == 50000);
    if cap != 5000 && cap != 10000 && cap != 20000 && cap != 50000 {
        assert(!exists|i: int| 0 <= i < 4 && #[trigger] cache_cap(i) == cap);
        assert(views(c.entries@)[4] == c.entries@[4]@);
    }
}

/// The common fonts can always be chosen.
pub proof fn law_common_fonts_are_offered(names: &Vec<String>, r: Vec<String>)
    requires
        call_ensures(available_mono_families, (names,), r),
    ensures
        is_in(views(r@), "Menlo"@),
        is_in(views(r@), "SF Mono"@),
        is_in(views(r@), "Monaco"@),
{
    let sorted = choose|sorted: Seq<Seq<char>>| #[trigger]
        strictly_ordered(sorted) && sorted.to_set() == mono_names(views(names@)).to_set() && views(
            r@,
        ) == with_common(sorted);
    let a = with_name(sorted, "Menlo"@);
    let b = with_name(a, "SF Mono"@);
    lemma_named(sorted, "Menlo"@, "Menlo"@);
    lemma_named(a, "SF Mono"@, "SF Mono"@);
    lemma_named(a, "SF Mono"@, "Menlo"@);
    lemma_named(b, "Monaco"@, "Monaco"@);
    lemma_named(b, "Monaco"@, "Menlo"@);
    lemma_named(b, "Monaco"@, "SF Mono"@);
}

proof fn lemma_named(list: Seq<Seq<char>>, name: Seq<char>, other: Seq<char>)
    ensures
        is_in(with_name(list, name), name),
        is_in(list, other) ==> is_in(with_name(list, name), other),
{
    let all = with_name(list, name);
    if !is_in(list, name) {
        assert(all[0] == name);
        assert(same_but_case(all[0], name));
        if is_in(list, other) {
            let i = choose|i: int| 0 <= i < list.len() && same_but_case(#[trigger] list[i], other);
            assert(all[i + 1] == list[i]);
        }
    }
}

} // verus!

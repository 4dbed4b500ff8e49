//! Stored configuration. Sizes are kept as the bit patterns of the floating point
//! numbers that are stored.

use vstd::prelude::*;

use crate::fields::{decimal_value, is_digit_char};
use crate::paths::{join_unix, unix_joined};
use crate::text::{chars_of, same_text, views};

verus! {

broadcast use vstd::string::group_string_axioms;

/// Most files that are remembered.
pub const MAX_RECENT: usize = 10;

/// Most queries that are remembered.
pub const MAX_HISTORY: usize = 20;

/// Bit pattern of the number 13 in single precision.
pub const DEFAULT_FONT_SIZE: u32 = 0x4150_0000;

/// Bit pattern of the number 18 in double precision.
pub const DEFAULT_ROW_HEIGHT: u64 = 0x4032_0000_0000_0000;

/// Bit patterns of the numbers 1280 and 860 in single precision.
pub const DEFAULT_WIDTH: u32 = 0x44A0_0000;

pub const DEFAULT_HEIGHT: u32 = 0x4457_0000;

/// How the application looks and searches.
pub struct GuiConfig {
    pub theme: String,
    pub font_family: String,
    /// Single precision.
    pub font_size: u32,
    /// Double precision.
    pub row_height: u64,
    pub show_line_numbers: bool,
    pub word_wrap: bool,
    pub show_whitespace: bool,
    pub level_coloring: bool,
    pub show_indent_guides: bool,
    pub case_sensitive: bool,
    pub use_regex: bool,
    pub whole_word: bool,
    /// Width and height in single precision.
    pub window_size: (u32, u32),
    pub window_maximized: bool,
}

/// Theme that is used where none is stored.
pub fn default_theme() -> (r: String)
    ensures
        r@ == "Dark Pro"@,
{
    "Dark Pro".to_owned()
}

/// Font that is used where none is stored.
pub fn default_font_family() -> (r: String)
    ensures
        r@ == "Menlo"@,
{
    "Menlo".to_owned()
}

/// Value of a setting that is on where nothing is stored.
pub fn default_true() -> (r: bool)
    ensures
        r,
{
    true
}

impl GuiConfig {
    /// The configuration that is used where nothing is stored.
    pub open spec fn is_default(self) -> bool {
        &&& self.theme@ == "Dark Pro"@
        &&& self.font_family@ == "Menlo"@
        &&& self.font_size == DEFAULT_FONT_SIZE
        &&& self.row_height == DEFAULT_ROW_HEIGHT
        &&& self.show_line_numbers
        &&& !self.word_wrap
        &&& !self.show_whitespace
        &&& self.level_coloring
        &&& !self.show_indent_guides
        &&& !self.case_sensitive
        &&& !self.use_regex
        &&& !self.whole_word
        &&& self.window_size == (DEFAULT_WIDTH, DEFAULT_HEIGHT)
        &&& !self.window_maximized
    }
}

impl Default for GuiConfig {
    fn default() -> (r: Self)
        ensures
            r.is_default(),
    {
        Self {
            theme: default_theme(),
            font_family: default_font_family(),
            font_size: DEFAULT_FONT_SIZE,
            row_height: DEFAULT_ROW_HEIGHT,
            show_line_numbers: default_true(),
            word_wrap: false,
            show_whitespace: false,
            level_coloring: default_true(),
            show_indent_guides: false,
            case_sensitive: false,
            use_regex: false,
            whole_word: false,
            window_size: (DEFAULT_WIDTH, DEFAULT_HEIGHT),
            window_maximized: false,
        }
    }
}

/// The configuration.
pub struct AppConfig {
    pub version: String,
    pub gui: GuiConfig,
    /// Directory of the stored indexes.
    pub index_dir: Option<String>,
    pub recent_files: Vec<String>,
    pub search_history: Vec<String>,
}

/// Configuration as versions up to 2.0.0 stored it.
pub struct OldFlatConfig {
    pub version: String,
    pub theme: String,
    pub font_family: String,
    pub font_size: u32,
    pub row_height: u64,
    pub show_line_numbers: bool,
    pub word_wrap: bool,
    pub show_whitespace: bool,
    pub level_coloring: bool,
    pub case_sensitive: bool,
    pub use_regex: bool,
    pub whole_word: bool,
    pub recent_files: Vec<String>,
    pub window_size: (u32, u32),
    pub window_maximized: bool,
    pub search_history: Vec<String>,
}

impl OldFlatConfig {
    /// What was read in the old form was stored in it: it has no groups, and its
    /// version, where it has one, is 2.0.0 or earlier.
    pub open spec fn is_flat(self, has_groups: bool) -> bool {
        !has_groups && !is_later_version(self.version@)
    }

    /// Whether what was read in the old form was stored in it.
    pub fn stored_flat(&self, has_groups: bool) -> (r: bool)
        ensures
            r == self.is_flat(has_groups),
    {
        !has_groups && !later_version(self.version.as_str())
    }

    /// The same configuration in the form of version `version`. Guides at the
    /// indentation are new in it, and off.
    pub fn migrate(self, version: &str) -> (r: AppConfig)
        ensures
            r.version@ == version@,
            r.gui == (GuiConfig {
                theme: self.theme,
                font_family: self.font_family,
                font_size: self.font_size,
                row_height: self.row_height,
                show_line_numbers: self.show_line_numbers,
                word_wrap: self.word_wrap,
                show_whitespace: self.show_whitespace,
                level_coloring: self.level_coloring,
                show_indent_guides: false,
                case_sensitive: self.case_sensitive,
                use_regex: self.use_regex,
                whole_word: self.whole_word,
                window_size: self.window_size,
                window_maximized: self.window_maximized,
            }),
            r.index_dir is None,
            r.recent_files == self.recent_files,
            r.search_history == self.search_history,
    {
        AppConfig {
            version: version.to_owned(),
            gui: GuiConfig {
                theme: self.theme,
                font_family: self.font_family,
                font_size: self.font_size,
                row_height: self.row_height,
                show_line_numbers: self.show_line_numbers,
                word_wrap: self.word_wrap,
                show_whitespace: self.show_whitespace,
                level_coloring: self.level_coloring,
                show_indent_guides: false,
                case_sensitive: self.case_sensitive,
                use_regex: self.use_regex,
                whole_word: self.whole_word,
                window_size: self.window_size,
                window_maximized: self.window_maximized,
            },
            index_dir: None,
            recent_files: self.recent_files,
            search_history: self.search_history,
        }
    }
}

// ---------------------------------------------------------------------------
// Which form was stored
// ---------------------------------------------------------------------------

/// The digits that a text begins with.
pub open spec fn leading_digits(s: Seq<char>) -> Seq<char>
    decreases s.len(),
{
    if s.len() == 0 || !is_digit_char(s[0]) {
        Seq::empty()
    } else {
        seq![s[0]] + leading_digits(s.skip(1))
    }
}

/// The digits and dots that a text begins with.
pub open spec fn leading_numbers(s: Seq<char>) -> Seq<char>
    decreases s.len(),
{
    if s.len() == 0 || !(is_digit_char(s[0]) || s[0] == '.') {
        Seq::empty()
    } else {
        seq![s[0]] + leading_numbers(s.skip(1))
    }
}

/// A digit other than 0 is in a text.
pub open spec fn has_nonzero(s: Seq<char>) -> bool {
    exists|i: int| 0 <= i < s.len() && is_digit_char(#[trigger] s[i]) && s[i] != '0'
}

/// A version is later than 2.0.0: its first number is above 2, or it is 2 and one
/// of those behind it is not 0. What is behind the numbers does not count.
pub open spec fn is_later_version(v: Seq<char>) -> bool {
    let major = leading_digits(v);
    let behind = leading_numbers(v.skip(major.len() as int));
    decimal_value(major) > 2 || (decimal_value(major) == 2 && has_nonzero(behind))
}

proof fn lemma_leading_digits(s: Seq<char>, n: int)
    requires
        0 <= n <= s.len(),
        forall|k: int| 0 <= k < n ==> is_digit_char(#[trigger] s[k]),
        n < s.len() ==> !is_digit_char(s[n]),
    ensures
        leading_digits(s) == s.take(n),
    decreases n,
{
    if n > 0 {
        let rest = s.skip(1);
        assert forall|k: int| 0 <= k < n - 1 implies is_digit_char(#[trigger] rest[k]) by {
            assert(rest[k] == s[k + 1]);
        }
        lemma_leading_digits(rest, n - 1);
        assert(seq![s[0]] + rest.take(n - 1) =~= s.take(n));
        assert(is_digit_char(s[0]));
    } else {
        assert(s.take(0) =~= Seq::<char>::empty());
    }
}

proof fn lemma_leading_numbers(s: Seq<char>, n: int)
    requires
        0 <= n <= s.len(),
        forall|k: int| 0 <= k < n ==> is_digit_char(#[trigger] s[k]) || s[k] == '.',
        n < s.len() ==> !is_digit_char(s[n]) && s[n] != '.',
    ensures
        leading_numbers(s) == s.take(n),
    decreases n,
{
    if n > 0 {
        let rest = s.skip(1);
        assert forall|k: int| 0 <= k < n - 1 implies is_digit_char(#[trigger] rest[k]) || rest[k]
            == '.' by {
            assert(rest[k] == s[k + 1]);
        }
        lemma_leading_numbers(rest, n - 1);
        assert(seq![s[0]] + rest.take(n - 1) =~= s.take(n));
        assert(is_digit_char(s[0]) || s[0] == '.');
    } else {
        assert(s.take(0) =~= Seq::<char>::empty());
    }
}

fn is_digit(c: char) -> (r: bool)
    ensures
        r == is_digit_char(c),
{
    let u: u32 = c as u32;
    0x30 <= u && u <= 0x39
}

/// Whether a version is later than 2.0.0, the last one that stored the flat form.
pub fn later_version(version: &str) -> (r: bool)
    ensures
        r == is_later_version(version@),
{
    let chars: Vec<char> = chars_of(version);
    let ghost v = version@;
    let mut major: u32 = 0;
    let mut i: usize = 0;
    assert(v.take(0) =~= Seq::<char>::empty());
    while i < chars.len() && is_digit(chars[i])
        invariant
            chars@ == v,
            i <= chars@.len(),
            forall|k: int| 0 <= k < i ==> is_digit_char(#[trigger] v[k]),
            major <= 3,
            major == decimal_value(v.take(i as int)) || (major == 3 && decimal_value(
                v.take(i as int),
            ) > 3),
        decreases chars@.len() - i,
    {
        let d: u32 = chars[i] as u32 - 0x30;
        assert(v.take(i + 1).drop_last() =~= v.take(i as int));
        let next: u32 = major * 10 + d;
        major = if next <= 3 {
            next
        } else {
            3
        };
        i = i + 1;
    }
    proof {
        lemma_leading_digits(v, i as int);
    }
    let ghost tail = v.skip(i as int);
    let mut nonzero: bool = false;
    let mut j: usize = i;
    while j < chars.len() && (chars[j] == '.' || is_digit(chars[j]))
        invariant
            chars@ == v,
            tail == v.skip(i as int),
            i <= j <= chars@.len(),
            forall|k: int|
                0 <= k < j - i ==> is_digit_char(#[trigger] tail[k]) || tail[k] == '.',
            nonzero == exists|k: int|
                0 <= k < j - i && is_digit_char(#[trigger] tail[k]) && tail[k] != '0',
        decreases chars@.len() - j,
    {
        assert(tail[j - i] == v[j as int]);
        if chars[j] != '.' && chars[j] != '0' {
            assert(is_digit_char(tail[j - i]));
            nonzero = true;
        }
        j = j + 1;
    }
    proof {
        lemma_leading_numbers(tail, j - i);
        let behind = leading_numbers(tail);
        if nonzero {
            let k = choose|k: int|
                0 <= k < j - i && is_digit_char(#[trigger] tail[k]) && tail[k] != '0';
            assert(behind[k] == tail[k]);
        }
        if has_nonzero(behind) {
            let k = choose|k: int|
                0 <= k < behind.len() && is_digit_char(#[trigger] behind[k]) && behind[k] != '0';
            assert(tail[k] == behind[k]);
        }
    }
    major > 2 || (major == 2 && nonzero)
}

/// Versions are told apart by their numbers: `major` is the first one, `behind`
/// are the dots and numbers that follow it.
pub proof fn law_versions_go_by_their_numbers(major: Seq<char>, behind: Seq<char>)
    requires
        forall|k: int| 0 <= k < major.len() ==> is_digit_char(#[trigger] major[k]),
        forall|k: int|
            0 <= k < behind.len() ==> is_digit_char(#[trigger] behind[k]) || behind[k] == '.',
        behind.len() > 0 ==> behind[0] == '.',
    ensures
        is_later_version(major + behind) == (decimal_value(major) > 2 || (decimal_value(major) == 2
            && has_nonzero(behind))),
{
    let v = major + behind;
    let n = major.len() as int;
    assert forall|k: int| 0 <= k < n implies is_digit_char(#[trigger] v[k]) by {
        assert(v[k] == major[k]);
    }
    if n < v.len() {
        assert(v[n] == behind[0]);
    }
    lemma_leading_digits(v, n);
    assert(v.take(n) =~= major);
    assert(v.skip(n) =~= behind);
    lemma_leading_numbers(behind, behind.len() as int);
    assert(behind.take(behind.len() as int) =~= behind);
}

/// Where a configuration came from.
pub enum Loaded {
    /// It was stored in its present form.
    Stored(AppConfig),
    /// It was stored in the old form, and has to be stored anew.
    Migrated(AppConfig),
    /// What was stored cannot be read: it is put aside and the defaults are used.
    Broken(AppConfig),
}

/// Directory that holds the configuration, below the home directory.
pub open spec fn config_dir_text(home: Seq<char>) -> Seq<char> {
    unix_joined(home, "Library/Application Support/qview"@)
}

/// Directory of the stored indexes where none is configured.
pub open spec fn default_index_dir(home: Option<Seq<char>>) -> Option<Seq<char>> {
    match home {
        Some(h) => Some(unix_joined(config_dir_text(h), "index"@)),
        None => None,
    }
}

/// A text without the place that it is held in.
pub open spec fn held(s: Option<String>) -> Option<Seq<char>> {
    match s {
        Some(t) => Some(t@),
        None => None,
    }
}

/// Directory that holds the configuration.
pub fn config_dir(home: Option<&str>) -> (r: Option<String>)
    ensures
        held(r) == match home {
            Some(h) => Some(config_dir_text(h@)),
            None => None,
        },
{
    match home {
        Some(h) => Some(join_unix(h, "Library/Application Support/qview")),
        None => None,
    }
}

/// File that holds the configuration.
pub fn config_path(home: Option<&str>) -> (r: Option<String>)
    ensures
        held(r) == match home {
            Some(h) => Some(unix_joined(config_dir_text(h@), "config.json"@)),
            None => None,
        },
{
    match config_dir(home) {
        Some(d) => Some(join_unix(d.as_str(), "config.json")),
        None => None,
    }
}

impl AppConfig {
    /// Configuration of version `version` where nothing is stored.
    pub fn with_version(version: &str) -> (r: Self)
        ensures
            r.version@ == version@,
            r.gui.is_default(),
            r.index_dir is None,
            r.recent_files@.len() == 0,
            r.search_history@.len() == 0,
    {
        AppConfig {
            version: version.to_owned(),
            gui: GuiConfig::default(),
            index_dir: None,
            recent_files: Vec::new(),
            search_history: Vec::new(),
        }
    }

    /// Sets the directory of the stored indexes where none is configured.
    pub fn ensure_index_dir(&mut self, home: Option<&str>)
        ensures
            held(final(self).index_dir) == if old(self).index_dir is Some {
                held(old(self).index_dir)
            } else {
                default_index_dir(crate::text::maybe_text(home))
            },
            final(self).version == old(self).version,
            final(self).gui == old(self).gui,
            final(self).recent_files == old(self).recent_files,
            final(self).search_history == old(self).search_history,
    {
        if self.index_dir.is_none() {
            match config_dir(home) {
                Some(d) => {
                    self.index_dir = Some(join_unix(d.as_str(), "index"));
                },
                None => {},
            }
        }
    }

    /// Configuration with the directory of the stored indexes where nothing is
    /// stored.
    pub fn with_defaults(version: &str, home: Option<&str>) -> (r: Self)
        ensures
            r.version@ == version@,
            r.gui.is_default(),
            held(r.index_dir) == default_index_dir(crate::text::maybe_text(home)),
            r.recent_files@.len() == 0,
            r.search_history@.len() == 0,
    {
        let mut cfg: AppConfig = AppConfig::with_version(version);
        cfg.ensure_index_dir(home);
        cfg
    }

    /// What was read in the present form can be used: it names a theme, or comes
    /// from a version that has this form.
    pub open spec fn is_present_form(self, version: Seq<char>) -> bool {
        self.gui.theme@.len() > 0 || self.version@ == "2.1.0"@ || self.version@ == version
    }

    /// What is used was stored in the present form. Each form can be read as the
    /// other, with defaults for what it does not have.
    pub open spec fn is_stored_form(
        grouped: Option<AppConfig>,
        flat: Option<OldFlatConfig>,
        has_groups: bool,
        version: Seq<char>,
    ) -> bool {
        &&& grouped is Some && grouped->0.is_present_form(version)
        &&& !(flat is Some && flat->0.is_flat(has_groups))
    }

    /// Decides what to use of what was stored: `grouped` is what was read in the
    /// present form, `flat` what was read in the old one, and `has_groups` tells
    /// whether the groups of the present form were stored. What was stored in the
    /// old form, by version 2.0.0 or an earlier one, is migrated.
    pub fn load(
        grouped: Option<AppConfig>,
        flat: Option<OldFlatConfig>,
        has_groups: bool,
        version: &str,
        home: Option<&str>,
    ) -> (r: Loaded)
        ensures
            match r {
                Loaded::Stored(cfg) => {
                    &&& AppConfig::is_stored_form(grouped, flat, has_groups, version@)
                    &&& cfg.version == grouped->0.version
                    &&& cfg.gui == grouped->0.gui
                    &&& cfg.recent_files == grouped->0.recent_files
                    &&& cfg.search_history == grouped->0.search_history
                    &&& held(cfg.index_dir) == if grouped->0.index_dir is Some {
                        held(grouped->0.index_dir)
                    } else {
                        default_index_dir(crate::text::maybe_text(home))
                    }
                },
                Loaded::Migrated(cfg) => {
                    &&& !AppConfig::is_stored_form(grouped, flat, has_groups, version@)
                    &&& flat is Some
                    &&& cfg.version@ == version@
                    &&& cfg.gui.theme == flat->0.theme
                    &&& cfg.gui.font_family == flat->0.font_family
                    &&& cfg.gui.font_size == flat->0.font_size
                    &&& cfg.gui.row_height == flat->0.row_height
                    &&& cfg.gui.show_line_numbers == flat->0.show_line_numbers
                    &&& cfg.gui.word_wrap == flat->0.word_wrap
                    &&& cfg.gui.show_whitespace == flat->0.show_whitespace
                    &&& cfg.gui.level_coloring == flat->0.level_coloring
                    &&& !cfg.gui.show_indent_guides
                    &&& cfg.gui.case_sensitive == flat->0.case_sensitive
                    &&& cfg.gui.use_regex == flat->0.use_regex
                    &&& cfg.gui.whole_word == flat->0.whole_word
                    &&& cfg.gui.window_size == flat->0.window_size
                    &&& cfg.gui.window_maximized == flat->0.window_maximized
                    &&& cfg.recent_files == flat->0.recent_files
                    &&& cfg.search_history == flat->0.search_history
                    &&& held(cfg.index_dir) == default_index_dir(crate::text::maybe_text(home))
                },
                Loaded::Broken(cfg) => {
                    &&& !AppConfig::is_stored_form(grouped, flat, has_groups, version@)
                    &&& flat is None
                    &&& cfg.version@ == version@
                    &&& cfg.gui.is_default()
                    &&& cfg.recent_files@.len() == 0 && cfg.search_history@.len() == 0
                    &&& held(cfg.index_dir) == default_index_dir(crate::text::maybe_text(home))
                },
            },
    {
        let old_form: bool = match &flat {
            Some(f) => f.stored_flat(has_groups),
            None => false,
        };
        match grouped {
            Some(g) => {
                let mut cfg: AppConfig = g;
                if !old_form && (!cfg.gui.theme.as_str().is_empty() || same_text(
                    cfg.version.as_str(),
                    "2.1.0",
                ) || same_text(cfg.version.as_str(), version)) {
                    cfg.ensure_index_dir(home);
                    return Loaded::Stored(cfg);
                }
            },
            None => {},
        }
        match flat {
            Some(f) => {
                let mut cfg: AppConfig = f.migrate(version);
                cfg.ensure_index_dir(home);
                Loaded::Migrated(cfg)
            },
            None => Loaded::Broken(AppConfig::with_defaults(version, home)),
        }
    }

    /// Puts a file in front of those that are remembered.
    pub fn add_recent(&mut self, path: String)
        ensures
            views(final(self).recent_files@) == put_first(
                views(old(self).recent_files@),
                path@,
                MAX_RECENT as nat,
            ),
            final(self).version == old(self).version,
            final(self).gui == old(self).gui,
            final(self).index_dir == old(self).index_dir,
            final(self).search_history == old(self).search_history,
    {
        self.recent_files = newest_first(&self.recent_files, path, MAX_RECENT);
    }

    /// Puts a query in front of those that are remembered.
    pub fn add_search_history(&mut self, query: String)
        ensures
            views(final(self).search_history@) == put_first(
                views(old(self).search_history@),
                query@,
                MAX_HISTORY as nat,
            ),
            final(self).version == old(self).version,
            final(self).gui == old(self).gui,
            final(self).index_dir == old(self).index_dir,
            final(self).recent_files == old(self).recent_files,
    {
        self.search_history = newest_first(&self.search_history, query, MAX_HISTORY);
    }

    /// Remembers the window: its size only where it is not maximised.
    pub fn set_window_state(&mut self, size: (u32, u32), maximized: bool)
        ensures
            *final(self) == (AppConfig {
                gui: GuiConfig {
                    window_size: if maximized {
                        old(self).gui.window_size
                    } else {
                        size
                    },
                    window_maximized: maximized,
                    ..old(self).gui
                },
                ..*old(self)
            }),
    {
        if !maximized {
            self.gui.window_size = size;
        }
        self.gui.window_maximized = maximized;
    }
}

// ---------------------------------------------------------------------------
// Lists with the newest in front
// ---------------------------------------------------------------------------

/// A text differs from another.
pub open spec fn differs_from(x: Seq<char>) -> spec_fn(Seq<char>) -> bool {
    |s: Seq<char>| s != x
}

/// A list without a text.
pub open spec fn without(list: Seq<Seq<char>>, x: Seq<char>) -> Seq<Seq<char>> {
    list.filter(differs_from(x))
}

/// A list with a text in front, which it holds once, and at most `max` long.
pub open spec fn put_first(list: Seq<Seq<char>>, x: Seq<char>, max: nat) -> Seq<Seq<char>> {
    let all = seq![x] + without(list, x);
    if all.len() <= max {
        all
    } else {
        all.take(max as int)
    }
}

proof fn lemma_without_step(list: Seq<Seq<char>>, x: Seq<char>, i: int)
    requires
        0 <= i < list.len(),
    ensures
        without(list.take(i + 1), x) == if list[i] != x {
            without(list.take(i), x).push(list[i])
        } else {
            without(list.take(i), x)
        },
{
    reveal(Seq::filter);
    assert(list.take(i + 1).drop_last() =~= list.take(i));
}

proof fn lemma_without_prefix(list: Seq<Seq<char>>, x: Seq<char>, i: int)
    requires
        0 <= i <= list.len(),
    ensures
        without(list.take(i), x).len() <= without(list, x).len(),
        without(list, x).take(without(list.take(i), x).len() as int) == without(list.take(i), x),
    decreases list.len() - i,
{
    if i < list.len() {
        lemma_without_step(list, x, i);
        lemma_without_prefix(list, x, i + 1);
        let a = without(list.take(i), x);
        let b = without(list.take(i + 1), x);
        let c = without(list, x);
        assert(b.take(a.len() as int) =~= a);
        assert(c.take(b.len() as int).take(a.len() as int) =~= c.take(a.len() as int));
    } else {
        assert(list.take(i) =~= list);
        assert(without(list, x).take(without(list, x).len() as int) =~= without(list, x));
    }
}

/// A list with a text in front, at most `max` long.
fn newest_first(list: &Vec<String>, x: String, max: usize) -> (r: Vec<String>)
    requires
        max > 0,
    ensures
        views(r@) == put_first(views(list@), x@, max as nat),
{
    let ghost all = views(list@);
    let ghost text = x@;
    let ghost rest = without(all, text);
    let key: String = x.as_str().to_owned();
    let mut out: Vec<String> = Vec::new();
    out.push(x);
    let mut i: usize = 0;
    proof {
        assert(all.take(0) =~= Seq::empty());
        assert(without(all.take(0), text) =~= Seq::empty()) by {
            reveal(Seq::filter);
        }
        assert(views(out@) =~= seq![text] + without(all.take(0), text));
    }
    while i < list.len() && out.len() < max
        invariant
            i <= list@.len(),
            all == views(list@),
            key@ == text,
            0 < out@.len() <= max,
            out@.len() == 1 + without(all.take(i as int), text).len(),
            views(out@) == seq![text] + without(all.take(i as int), text),
        decreases list@.len() - i,
    {
        proof {
            lemma_without_step(all, text, i as int);
        }
        if !same_text(list[i].as_str(), key.as_str()) {
            let ghost before = out@;
            let s: String = list[i].as_str().to_owned();
            let ghost t = s@;
            out.push(s);
            assert(views(out@) =~= views(before).push(t));
            assert(views(out@) =~= seq![text] + without(all.take(i as int), text).push(t));
        }
        i = i + 1;
    }
    proof {
        lemma_without_prefix(all, text, i as int);
        let n = without(all.take(i as int), text).len() as int;
        let whole = seq![text] + rest;
        assert(views(out@).len() == n + 1);
        assert(views(out@) =~= whole.take(n + 1));
        if i == list@.len() {
            assert(all.take(i as int) =~= all);
            assert(whole.take(n + 1) =~= whole);
        } else {
            assert(n + 1 == max);
            if whole.len() <= max {
                assert(whole.take(n + 1) =~= whole);
            }
        }
    }
    out
}

// ---------------------------------------------------------------------------
// Laws
// ---------------------------------------------------------------------------

/// What was added last stands in front, the list is no longer than it may be,
/// and it holds nothing twice.
pub proof fn law_newest_first(list: Seq<Seq<char>>, x: Seq<char>, max: nat)
    requires
        max > 0,
        list.no_duplicates(),
    ensures
        put_first(list, x, max)[0] == x,
        put_first(list, x, max).len() <= max,
        put_first(list, x, max).no_duplicates(),
{
    let p = differs_from(x);
    let rest = without(list, x);
    lemma_filter_no_duplicates(list, x);
    let all = seq![x] + rest;
    assert forall|i: int, j: int| 0 <= i < all.len() && 0 <= j < all.len() && i != j implies all[i]
        != all[j] by {
        if i == 0 {
            list.lemma_filter_pred(p, j - 1);
        } else if j == 0 {
            list.lemma_filter_pred(p, i - 1);
        } else {
            assert(rest[i - 1] != rest[j - 1]);
        }
    }
}

proof fn lemma_filter_no_duplicates(list: Seq<Seq<char>>, x: Seq<char>)
    requires
        list.no_duplicates(),
    ensures
        without(list, x).no_duplicates(),
    decreases list.len(),
{
    let p = differs_from(x);
    reveal(Seq::filter);
    if list.len() > 0 {
        let front = list.drop_last();
        assert(front.no_duplicates());
        lemma_filter_no_duplicates(front, x);
        if list.last() != x {
            let kept = without(front, x);
            assert forall|i: int| 0 <= i < kept.len() implies kept[i] != list.last() by {
                assert(kept.contains(kept[i]));
                front.lemma_filter_contains_rev(p, kept[i]);
                let j = front.index_of(kept[i]);
                assert(list[j] == kept[i]);
                assert(list[list.len() - 1] == list.last());
            }
        }
    }
}

/// A text that was remembered and is not the one added is still remembered,
/// where there is room.
pub proof fn law_others_stay(list: Seq<Seq<char>>, x: Seq<char>, y: Seq<char>, max: nat)
    requires
        list.contains(y),
        y != x,
        list.len() < max,
    ensures
        put_first(list, x, max).contains(y),
{
    let p = differs_from(x);
    let i = list.index_of(y);
    list.lemma_filter_contains(p, i);
    list.lemma_filter_len(p);
    let rest = without(list, x);
    let j = rest.index_of(y);
    assert(put_first(list, x, max)[j + 1] == y);
}

/// Adding a text twice is as adding it once.
pub proof fn law_adding_twice(list: Seq<Seq<char>>, x: Seq<char>, max: nat)
    requires
        max > 0,
    ensures
        put_first(put_first(list, x, max), x, max) == put_first(list, x, max),
{
    let p = differs_from(x);
    let once = put_first(list, x, max);
    let rest = without(list, x);
    let tail = once.skip(1);
    assert forall|i: int| 0 <= i < tail.len() implies tail[i] != x by {
        list.lemma_filter_pred(p, i);
        assert(tail[i] == rest[i]);
    }
    assert(once =~= seq![x] + tail);
    tail.lemma_filter_prepend(x, p);
    lemma_nothing_left_out(tail, x);
    assert(without(once, x) =~= tail);
}

proof fn lemma_nothing_left_out(list: Seq<Seq<char>>, x: Seq<char>)
    requires
        forall|i: int| 0 <= i < list.len() ==> list[i] != x,
    ensures
        without(list, x) == list,
    decreases list.len(),
{
    reveal(Seq::filter);
    if list.len() > 0 {
        lemma_nothing_left_out(list.drop_last(), x);
        assert(list.last() == list[list.len() - 1]);
        assert(list.drop_last().push(list.last()) =~= list);
    } else {
        assert(without(list, x) =~= list);
    }
}

/// What is opened last stands first among the recent files, each of which is there once,
/// and there are at most ten; what was there stays, as far as there is room.
pub proof fn law_recent_files_are_the_latest(c: &mut AppConfig, path: String, done: (), other: Seq<char>)
    requires
        call_ensures(AppConfig::add_recent, (c, path), done),
        views(old(c).recent_files@).no_duplicates(),
    ensures
        final(c).recent_files@.len() <= 10,
        final(c).recent_files@.len() > 0,
        final(c).recent_files@[0]@ == path@,
        views(final(c).recent_files@).no_duplicates(),
        old(c).recent_files@.len() < 10 && views(old(c).recent_files@).contains(other) ==> views(
            final(c).recent_files@,
        ).contains(other),
        final(c).gui == old(c).gui,
{
    let list = views(old(c).recent_files@);
    law_newest_first(list, path@, 10);
    assert(views(final(c).recent_files@)[0] == path@);
    if list.len() < 10 && list.contains(other) {
        if other == path@ {
            assert(views(final(c).recent_files@)[0] == other);
        } else {
            law_others_stay(list, path@, other, 10);
        }
    }
}

/// What is searched last stands first in the history, each query once, and there are at
/// most twenty.
pub proof fn law_the_history_holds_the_latest(c: &mut AppConfig, query: String, done: (), other: Seq<char>)
    requires
        call_ensures(AppConfig::add_search_history, (c, query), done),
        views(old(c).search_history@).no_duplicates(),
    ensures
        final(c).search_history@.len() <= 20,
        final(c).search_history@.len() > 0,
        final(c).search_history@[0]@ == query@,
        views(final(c).search_history@).no_duplicates(),
        old(c).search_history@.len() < 20 && views(old(c).search_history@).contains(other) ==> views(
            final(c).search_history@,
        ).contains(other),
        final(c).gui == old(c).gui,
{
    let list = views(old(c).search_history@);
    law_newest_first(list, query@, 20);
    assert(views(final(c).search_history@)[0] == query@);
    if list.len() < 20 && list.contains(other) {
        if other == query@ {
            assert(views(final(c).search_history@)[0] == other);
        } else {
            law_others_stay(list, query@, other, 20);
        }
    }
}

/// A configuration of the old form keeps its settings: those that were stored, and the
/// lists.
pub proof fn law_old_settings_are_kept(
    flat: OldFlatConfig,
    grouped: Option<AppConfig>,
    version: &str,
    home: Option<&str>,
    r: Loaded,
)
    requires
        call_ensures(AppConfig::load, (grouped, Some(flat), false, version, home), r),
        flat.version@ == "2.0.0"@ || flat.version@ == "1.0.0"@ || flat.version@.len() == 0,
    ensures
        r is Migrated,
        ({
            let gui = r->Migrated_0.gui;
            &&& gui.theme == flat.theme
            &&& gui.font_family == flat.font_family
            &&& gui.font_size == flat.font_size
            &&& gui.row_height == flat.row_height
            &&& gui.show_line_numbers == flat.show_line_numbers
            &&& gui.word_wrap == flat.word_wrap
            &&& gui.show_whitespace == flat.show_whitespace
            &&& gui.level_coloring == flat.level_coloring
            &&& gui.case_sensitive == flat.case_sensitive
            &&& gui.use_regex == flat.use_regex
            &&& gui.whole_word == flat.whole_word
            &&& gui.window_size == flat.window_size
            &&& gui.window_maximized == flat.window_maximized
        }),
        r->Migrated_0.recent_files == flat.recent_files,
        r->Migrated_0.search_history == flat.search_history,
        r->Migrated_0.version@ == version@,
{
    reveal_strlit("2.0.0");
    reveal_strlit("1.0.0");
    let v = flat.version@;
    reveal_with_fuel(leading_digits, 3);
    reveal_with_fuel(leading_numbers, 6);
    reveal_with_fuel(decimal_value, 3);
    if v.len() == 0 {
        assert(leading_digits(v) =~= Seq::<char>::empty());
    } else {
        assert(v.len() == 5);
        let rest = v.skip(1);
        assert(!is_digit_char(rest[0]));
        assert(leading_digits(v) =~= seq![v[0]]);
        assert(seq![v[0]].drop_last() =~= Seq::<char>::empty());
        let a = leading_numbers(rest);
        assert(rest.skip(1).skip(1).skip(1).skip(1) =~= Seq::<char>::empty());
        assert(a =~= seq!['.', '0', '.', '0']);
    }
}

/// A configuration of the present form comes back as it was stored.
pub proof fn law_stored_settings_come_back(
    grouped: AppConfig,
    flat: Option<OldFlatConfig>,
    version: &str,
    home: Option<&str>,
    r: Loaded,
)
    requires
        call_ensures(AppConfig::load, (Some(grouped), flat, true, version, home), r),
        grouped.gui.theme@.len() > 0,
    ensures
        r is Stored,
        r->Stored_0.gui == grouped.gui,
        r->Stored_0.recent_files == grouped.recent_files,
        r->Stored_0.search_history == grouped.search_history,
        r->Stored_0.version == grouped.version,
        grouped.index_dir is Some ==> r->Stored_0.index_dir is Some && r->Stored_0.index_dir->0@
            == grouped.index_dir->0@,
{
}

/// What cannot be read gives the settings of a new configuration.
pub proof fn law_broken_files_give_the_defaults(
    version: &str,
    home: Option<&str>,
    r: Loaded,
    has_groups: bool,
    fresh: AppConfig,
)
    requires
        call_ensures(AppConfig::load, (None, None, has_groups, version, home), r),
        call_ensures(AppConfig::with_version, (version,), fresh),
    ensures
        r is Broken,
        ({
            let gui = r->Broken_0.gui;
            &&& gui.theme@ == "Dark Pro"@
            &&& gui.font_family@ == "Menlo"@
            &&& gui.show_line_numbers && gui.level_coloring
            &&& !gui.word_wrap && !gui.show_whitespace && !gui.show_indent_guides
            &&& !gui.case_sensitive && !gui.use_regex && !gui.whole_word
            &&& !gui.window_maximized
        }),
        fresh.gui.theme@ == r->Broken_0.gui.theme@,
        fresh.gui.font_size == r->Broken_0.gui.font_size,
        fresh.gui.window_size == r->Broken_0.gui.window_size,
        fresh.version@ == version@ && fresh.recent_files@.len() == 0 && fresh.search_history@.len()
            == 0,
{
}

/// The size of a window that is maximized is not stored, that of another one is.
pub proof fn law_the_window_is_remembered(
    c: &mut AppConfig,
    size: (u32, u32),
    maximized: bool,
    done: (),
)
    requires
        call_ensures(AppConfig::set_window_state, (c, size, maximized), done),
    ensures
        final(c).gui.window_maximized == maximized,
        !maximized ==> final(c).gui.window_size == size,
        maximized ==> final(c).gui.window_size == old(c).gui.window_size,
        final(c).gui.theme == old(c).gui.theme,
        final(c).recent_files == old(c).recent_files,
{
}

/// The configuration stands in the directory of the program below the home directory, and
/// there is no place for it without one.
pub proof fn law_the_configuration_has_its_place(
    home: &str,
    dir: Option<String>,
    path: Option<String>,
    no_dir: Option<String>,
    no_path: Option<String>,
)
    requires
        call_ensures(config_dir, (Some(home),), dir),
        call_ensures(config_path, (Some(home),), path),
        call_ensures(config_dir, (None,), no_dir),
        call_ensures(config_path, (None,), no_path),
        home@.len() > 0,
        home@.last() != '/',
    ensures
        dir is Some && dir->0@ == home@ + "/Library/Application Support/qview"@,
        path is Some && path->0@ == dir->0@ + "/config.json"@,
        no_dir is None && no_path is None,
{
    reveal_strlit("Library/Application Support/qview");
    reveal_strlit("/Library/Application Support/qview");
    reveal_strlit("config.json");
    reveal_strlit("/config.json");
    assert(dir->0@ =~= home@ + "/Library/Application Support/qview"@);
    assert(path->0@ =~= dir->0@ + "/config.json"@);
}

/// A place for the index that was chosen is kept.
pub proof fn law_a_chosen_index_place_is_kept(c: &mut AppConfig, home: Option<&str>, done: ())
    requires
        call_ensures(AppConfig::ensure_index_dir, (c, home), done),
    ensures
        old(c).index_dir is Some ==> final(c).index_dir is Some && final(c).index_dir->0@ == old(c).index_dir->0@,
        final(c).gui == old(c).gui,
{
}

/// A version is later than 2.0.0 by its numbers: by a first one above 2, or by one behind
/// it that is not zero.
pub proof fn law_later_versions_are_told(
    major: Seq<char>,
    behind: Seq<char>,
    version: &str,
    r: bool,
    flat: &OldFlatConfig,
    has_groups: bool,
    stored: bool,
)
    requires
        call_ensures(later_version, (version,), r),
        version@ == major + behind,
        forall|k: int| 0 <= k < major.len() ==> is_digit_char(#[trigger] major[k]),
        forall|k: int|
            0 <= k < behind.len() ==> is_digit_char(#[trigger] behind[k]) || behind[k] == '.',
        behind.len() > 0 ==> behind[0] == '.',
        flat.version@ == version@,
        call_ensures(OldFlatConfig::stored_flat, (flat, has_groups), stored),
    ensures
        decimal_value(major) > 2 ==> r,
        decimal_value(major) < 2 ==> !r,
        decimal_value(major) == 2 && (forall|k: int|
            0 <= k < behind.len() ==> #[trigger] behind[k] == '.' || behind[k] == '0') ==> !r,
        decimal_value(major) == 2 && (exists|k: int|
            0 <= k < behind.len() && #[trigger] behind[k] != '.' && behind[k] != '0') ==> r,
        stored == (!has_groups && !r),
{
    law_versions_go_by_their_numbers(major, behind);
    if exists|k: int| 0 <= k < behind.len() && #[trigger] behind[k] != '.' && behind[k] != '0' {
        let k = choose|k: int|
            0 <= k < behind.len() && #[trigger] behind[k] != '.' && behind[k] != '0';
        assert(is_digit_char(behind[k]));
    }
}

/// A configuration of the old form becomes one of the new form with the same settings, with
/// the guides off.
pub proof fn law_migration_keeps_the_settings(
    flat: OldFlatConfig,
    version: &str,
    r: AppConfig,
    home: Option<&str>,
    fresh: AppConfig,
    theme: String,
    font: String,
)
    requires
        call_ensures(OldFlatConfig::migrate, (flat, version), r),
        call_ensures(AppConfig::with_defaults, (version, home), fresh),
        call_ensures(default_theme, (), theme),
        call_ensures(default_font_family, (), font),
    ensures
        r.gui.theme == flat.theme && r.gui.font_family == flat.font_family && r.gui.font_size
            == flat.font_size && r.gui.row_height == flat.row_height,
        r.gui.show_line_numbers == flat.show_line_numbers && r.gui.word_wrap == flat.word_wrap
            && r.gui.show_whitespace == flat.show_whitespace && r.gui.level_coloring
            == flat.level_coloring && !r.gui.show_indent_guides,
        r.gui.case_sensitive == flat.case_sensitive && r.gui.use_regex == flat.use_regex
            && r.gui.whole_word == flat.whole_word,
        r.recent_files == flat.recent_files && r.search_history == flat.search_history,
        r.version@ == version@ && fresh.version@ == version@,
        fresh.gui.theme@ == theme@ && theme@ == "Dark Pro"@,
        fresh.gui.font_family@ == font@ && font@ == "Menlo"@,
        fresh.index_dir is Some == home is Some,
{
}

} // verus!

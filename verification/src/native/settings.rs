//! Stored settings and where they are stored: next to the program, under `data`.

use vstd::prelude::*;

use crate::paths::{join_windows, windows_joined};

verus! {

broadcast use vstd::string::group_string_axioms;

/// A font.
#[derive(Debug, Clone)]
pub struct FontSetting {
    pub name: String,
    pub pixel: i32,
}

impl Default for FontSetting {
    fn default() -> (r: Self)
        ensures
            r.name@ == "Consolas"@,
            r.pixel == 14,
    {
        Self { name: "Consolas".to_owned(), pixel: 14 }
    }
}

/// Settings of the application.
#[derive(Debug, Clone)]
pub struct AppSettings {
    pub font: FontSetting,
    pub recent_files: Vec<String>,
}

impl Default for AppSettings {
    fn default() -> (r: Self)
        ensures
            r.font.name@ == "Consolas"@,
            r.font.pixel == 14,
            r.recent_files@.len() == 0,
    {
        Self { font: FontSetting::default(), recent_files: Vec::new() }
    }
}

/// Path of the directory that holds all data of the program in `exe_dir`.
pub open spec fn data_path(exe_dir: Seq<char>) -> Seq<char> {
    windows_joined(exe_dir, "data"@)
}

/// Directory of the program, the current one where it is not known.
pub fn exe_dir(known: Option<String>) -> (r: String)
    ensures
        r@ == match known {
            Some(d) => d@,
            None => "."@,
        },
{
    match known {
        Some(d) => d,
        None => ".".to_owned(),
    }
}

/// Directory that holds all data.
pub fn data_dir(exe_dir: &str) -> (r: String)
    ensures
        r@ == data_path(exe_dir@),
{
    join_windows(exe_dir, "data")
}

/// Directory of the stored indexes.
pub fn index_dir(exe_dir: &str) -> (r: String)
    ensures
        r@ == windows_joined(data_path(exe_dir@), "index"@),
{
    join_windows(data_dir(exe_dir).as_str(), "index")
}

/// File of the settings.
pub fn config_path(exe_dir: &str) -> (r: String)
    ensures
        r@ == windows_joined(data_path(exe_dir@), "config.json"@),
{
    join_windows(data_dir(exe_dir).as_str(), "config.json")
}

// ---------------------------------------------------------------------------
// Laws
// ---------------------------------------------------------------------------

/// What the program stores stands in a directory beside it, whose place is the current one
/// where it is not known.
pub proof fn law_data_stands_beside_the_program(
    dir: &str,
    data: String,
    index: String,
    config: String,
    known: Option<String>,
    own: String,
)
    requires
        call_ensures(data_dir, (dir,), data),
        call_ensures(index_dir, (dir,), index),
        call_ensures(config_path, (dir,), config),
        call_ensures(exe_dir, (known,), own),
        dir@.len() > 2,
        dir@.last() != '\\' && dir@.last() != '/',
    ensures
        data@ == dir@ + "\\data"@,
        index@ == dir@ + "\\data\\index"@,
        config@ == dir@ + "\\data\\config.json"@,
        known is Some ==> own@ == known->0@,
        known is None ==> own@ == "."@,
{
    reveal_strlit("data");
    reveal_strlit("\\data");
    reveal_strlit("index");
    reveal_strlit("\\data\\index");
    reveal_strlit("config.json");
    reveal_strlit("\\data\\config.json");
    assert(data@ =~= dir@ + "\\data"@);
    assert(index@ =~= dir@ + "\\data\\index"@);
    assert(config@ =~= dir@ + "\\data\\config.json"@);
}

} // verus!

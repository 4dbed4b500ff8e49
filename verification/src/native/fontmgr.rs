//! Fonts: the one in use and those to choose from.

use vstd::prelude::*;

use crate::text::{is_listed, position, views};
use crate::utf16::{decode_lossy, until_zero, wide_to_string};

verus! {

broadcast use vstd::string::group_string_axioms;

/// A font.
#[derive(Debug, Clone)]
pub struct FontSetting {
    pub name: String,
    pub pixel: i32,
}

impl Default for FontSetting {
    fn default() -> (r: Self)
        ensures
            r.name@ == "Consolas"@,
            r.pixel == 14,
    {
        Self { name: "Consolas".to_owned(), pixel: 14 }
    }
}

/// Names that the system reported, in the order of their first mention; names
/// without characters are left out.
pub open spec fn distinct_names(faces: Seq<Vec<u16>>) -> Seq<Seq<char>>
    decreases faces.len(),
{
    if faces.len() == 0 {
        Seq::empty()
    } else {
        let before = distinct_names(faces.drop_last());
        let name = decode_lossy(until_zero(faces.last()@));
        if name.len() == 0 || before.contains(name) {
            before
        } else {
            before.push(name)
        }
    }
}

/// Fonts that are offered where the system reports none.
pub open spec fn fallback_names() -> Seq<Seq<char>> {
    seq![
        "Consolas"@,
        "Courier New"@,
        "Lucida Console"@,
        "Cascadia Mono"@,
        "MS Gothic"@,
        "SimSun"@,
    ]
}

proof fn lemma_listed(names: Seq<String>, name: Seq<char>)
    ensures
        is_listed(names, name) == views(names).contains(name),
{
    if is_listed(names, name) {
        let i = choose|i: int| 0 <= i < names.len() && (#[trigger] names[i])@ == name;
        assert(views(names)[i] == name);
    }
    if views(names).contains(name) {
        let i = views(names).index_of(name);
        assert(names[i]@ == name);
    }
}

/// Names of the monospaced fonts, from the face names that the system reported;
/// a list of common ones where there is none.
pub fn enum_mono_fonts(faces: &Vec<Vec<u16>>) -> (r: Vec<String>)
    ensures
        views(r@) == if distinct_names(faces@).len() == 0 {
            fallback_names()
        } else {
            distinct_names(faces@)
        },
{
    let mut names: Vec<String> = Vec::new();
    let mut i: usize = 0;
    assert(faces@.take(0) =~= Seq::empty());
    assert(views(names@) =~= Seq::empty());
    while i < faces.len()
        invariant
            i <= faces@.len(),
            views(names@) == distinct_names(faces@.take(i as int)),
        decreases faces@.len() - i,
    {
        assert(faces@.take(i + 1).drop_last() =~= faces@.take(i as int));
        let name: String = wide_to_string(&faces[i]);
        proof {
            lemma_listed(names@, name@);
        }
        if !name.as_str().is_empty() && position(&names, name.as_str()).is_none() {
            let ghost before = names@;
            let ghost text = name@;
            names.push(name);
            assert(views(names@) =~= views(before).push(text));
        }
        i = i + 1;
    }
    assert(faces@.take(faces@.len() as int) =~= faces@);
    if names.len() == 0 {
        fallback_fonts()
    } else {
        names
    }
}

/// Fonts to choose from.
pub fn all_system_fonts(faces: &Vec<Vec<u16>>) -> (r: Vec<String>)
    ensures
        views(r@) == if distinct_names(faces@).len() == 0 {
            fallback_names()
        } else {
            distinct_names(faces@)
        },
{
    enum_mono_fonts(faces)
}

/// Fonts that are offered where the system reports none.
pub fn fallback_fonts() -> (r: Vec<String>)
    ensures
        views(r@) == fallback_names(),
{
    let mut v: Vec<String> = Vec::new();
    v.push("Consolas".to_owned());
    v.push("Courier New".to_owned());
    v.push("Lucida Console".to_owned());
    v.push("Cascadia Mono".to_owned());
    v.push("MS Gothic".to_owned());
    v.push("SimSun".to_owned());
    assert(views(v@) =~= fallback_names());
    v
}

/// No font is offered twice.
pub proof fn law_fonts_are_distinct(faces: Seq<Vec<u16>>)
    ensures
        distinct_names(faces).no_duplicates(),
        forall|i: int|
            0 <= i < distinct_names(faces).len() ==> (#[trigger] distinct_names(faces)[i]).len()
                > 0,
    decreases faces.len(),
{
    if faces.len() > 0 {
        law_fonts_are_distinct(faces.drop_last());
    }
}

/// The fonts are those whose names the system told, each once; where it told none, there
/// are some to fall back on.
pub proof fn law_fonts_are_those_of_the_system(
    faces: &Vec<Vec<u16>>,
    r: Vec<String>,
    all: Vec<String>,
    fallback: Vec<String>,
    k: int,
    name: String,
)
    requires
        call_ensures(enum_mono_fonts, (faces,), r),
        call_ensures(all_system_fonts, (faces,), all),
        call_ensures(fallback_fonts, (), fallback),
        0 <= k < faces@.len(),
        call_ensures(wide_to_string, (&faces@[k],), name),
        name@.len() > 0,
    ensures
        views(r@).contains(name@),
        views(r@) == views(all@),
        views(r@).no_duplicates(),
        fallback@[0]@ == "Consolas"@,
        fallback@.len() == 6,
{
    lemma_named(faces@, k);
    law_fonts_are_distinct(faces@);
    assert(views(fallback@)[0] == "Consolas"@);
    assert(views(fallback@).len() == fallback@.len());
}

proof fn lemma_named(faces: Seq<Vec<u16>>, k: int)
    requires
        0 <= k < faces.len(),
        decode_lossy(until_zero(faces[k]@)).len() > 0,
    ensures
        distinct_names(faces).contains(decode_lossy(until_zero(faces[k]@))),
    decreases faces.len(),
{
    let name = decode_lossy(until_zero(faces[k]@));
    let before = distinct_names(faces.drop_last());
    if k < faces.len() - 1 {
        lemma_named(faces.drop_last(), k);
        let i = before.index_of(name);
        assert(distinct_names(faces)[i] == name);
    } else if !before.contains(name) {
        assert(distinct_names(faces)[before.len() as int] == name);
    }
}

} // verus!

//! Encodings that a file can be read in.

use vstd::prelude::*;

use crate::text::same_text;

verus! {

broadcast use vstd::string::group_string_axioms;

/// Number of encodings.
pub const ENCODINGS: usize = 11;

/// Name by which an encoding is stored.
pub open spec fn key_text(i: int) -> Seq<char> {
    if i == 0 {
        "UTF-8"@
    } else if i == 1 {
        "GBK"@
    } else if i == 2 {
        "GB18030"@
    } else if i == 3 {
        "GB2312"@
    } else if i == 4 {
        "Big5"@
    } else if i == 5 {
        "Shift_JIS"@
    } else if i == 6 {
        "EUC-JP"@
    } else if i == 7 {
        "EUC-KR"@
    } else if i == 8 {
        "windows-1252"@
    } else if i == 9 {
        "UTF-16LE"@
    } else {
        "UTF-16BE"@
    }
}

/// Name by which an encoding is offered.
pub open spec fn label_text(i: int) -> Seq<char> {
    if i == 0 {
        "UTF-8 (Unicode)"@
    } else if i == 1 {
        "GBK (简体中文)"@
    } else if i == 2 {
        "GB18030 (国标)"@
    } else if i == 3 {
        "GB2312 (简体中文)"@
    } else if i == 4 {
        "Big5 (繁体中文)"@
    } else if i == 5 {
        "Shift_JIS (日文)"@
    } else if i == 6 {
        "EUC-JP (日文)"@
    } else if i == 7 {
        "EUC-KR (韩文)"@
    } else if i == 8 {
        "Windows-1252 (西欧)"@
    } else if i == 9 {
        "UTF-16LE (Unicode)"@
    } else {
        "UTF-16BE (Unicode)"@
    }
}

/// Name by which encoding `i` is stored.
pub fn key(i: usize) -> (r: &'static str)
    ensures
        r@ == key_text(i as int),
{
    match i {
        0 => "UTF-8",
        1 => "GBK",
        2 => "GB18030",
        3 => "GB2312",
        4 => "Big5",
        5 => "Shift_JIS",
        6 => "EUC-JP",
        7 => "EUC-KR",
        8 => "windows-1252",
        9 => "UTF-16LE",
        _ => "UTF-16BE",
    }
}

/// Name by which encoding `i` is offered.
pub fn label(i: usize) -> (r: &'static str)
    ensures
        r@ == label_text(i as int),
{
    match i {
        0 => "UTF-8 (Unicode)",
        1 => "GBK (简体中文)",
        2 => "GB18030 (国标)",
        3 => "GB2312 (简体中文)",
        4 => "Big5 (繁体中文)",
        5 => "Shift_JIS (日文)",
        6 => "EUC-JP (日文)",
        7 => "EUC-KR (韩文)",
        8 => "Windows-1252 (西欧)",
        9 => "UTF-16LE (Unicode)",
        _ => "UTF-16BE (Unicode)",
    }
}

/// `i` is the encoding of a stored name.
pub open spec fn is_encoding(name: Seq<char>, i: int) -> bool {
    &&& 0 <= i < ENCODINGS
    &&& key_text(i) == name
    &&& forall|k: int| 0 <= k < i ==> #[trigger] key_text(k) != name
}

/// No encoding has the name.
pub open spec fn is_unknown(name: Seq<char>) -> bool {
    forall|i: int| 0 <= i < ENCODINGS ==> #[trigger] key_text(i) != name
}

/// Encoding of a stored name.
pub fn find(name: &str) -> (r: Option<usize>)
    ensures
        r is Some ==> is_encoding(name@, r->0 as int),
        r is None ==> is_unknown(name@),
{
    let mut i: usize = 0;
    while i < ENCODINGS
        invariant
            i <= ENCODINGS,
            forall|k: int| 0 <= k < i ==> #[trigger] key_text(k) != name@,
        decreases ENCODINGS - i,
    {
        if same_text(key(i), name) {
            return Some(i);
        }
        i = i + 1;
    }
    None
}

// ---------------------------------------------------------------------------
// Laws
// ---------------------------------------------------------------------------

/// Every encoding is found by its key, and each has its own.
pub proof fn law_encodings_are_found(i: usize, name: &'static str, r: Option<usize>)
    requires
        i < 11,
        call_ensures(key, (i,), name),
        call_ensures(find, (name,), r),
    ensures
        r == Some(i),
{
    assert(key_text(i as int) == name@);
    if r is Some {
        lemma_keys_differ(i as int, r->0 as int);
    }
}

/// Two encodings have two keys.
pub proof fn lemma_keys_differ(i: int, j: int)
    requires
        0 <= i < ENCODINGS,
        0 <= j < ENCODINGS,
        key_text(i) == key_text(j),
    ensures
        i == j,
{
    reveal_strlit("UTF-8");
    reveal_strlit("GBK");
    reveal_strlit("GB18030");
    reveal_strlit("GB2312");
    reveal_strlit("Big5");
    reveal_strlit("Shift_JIS");
    reveal_strlit("EUC-JP");
    reveal_strlit("EUC-KR");
    reveal_strlit("windows-1252");
    reveal_strlit("UTF-16LE");
    reveal_strlit("UTF-16BE");
    let a = key_text(i);
    let b = key_text(j);
    assert(a.len() == b.len());
    assert(a[0] == b[0]);
    assert(a[2] == b[2]);
    assert(a.last() == b.last());
    assert(a[a.len() - 2] == b[a.len() - 2]);
}

/// The keys are the names by which the encodings are known, and a name that is no key
/// gives nothing.
pub proof fn law_encodings_have_their_keys(i: usize, name: &'static str, other: &str, r: Option<usize>)
    requires
        call_ensures(key, (i,), name),
        call_ensures(find, (other,), r),
    ensures
        i == 0 ==> name@ == "UTF-8"@,
        i == 1 ==> name@ == "GBK"@,
        i == 2 ==> name@ == "GB18030"@,
        i == 3 ==> name@ == "GB2312"@,
        i == 4 ==> name@ == "Big5"@,
        i == 5 ==> name@ == "Shift_JIS"@,
        i == 6 ==> name@ == "EUC-JP"@,
        i == 7 ==> name@ == "EUC-KR"@,
        i == 8 ==> name@ == "windows-1252"@,
        i == 9 ==> name@ == "UTF-16LE"@,
        i == 10 ==> name@ == "UTF-16BE"@,
        r == Some(i) ==> other@ == name@,
        r is Some ==> r->0 < 11,
{
}

/// The label of an encoding starts with its name.
pub proof fn law_labels_start_with_the_name(i: usize, name: &'static str, text: &'static str)
    requires
        i < 11,
        call_ensures(key, (i,), name),
        call_ensures(label, (i,), text),
    ensures
        text@.len() > name@.len() + 1,
        text@[name@.len() as int] == ' ',
        text@[name@.len() as int + 1] == '(',
        text@.last() == ')',
        forall|k: int| 1 <= k < name@.len() ==> text@[k] == #[trigger] name@[k],
{
    reveal_strlit("UTF-8");
    reveal_strlit("GBK");
    reveal_strlit("GB18030");
    reveal_strlit("GB2312");
    reveal_strlit("Big5");
    reveal_strlit("Shift_JIS");
    reveal_strlit("EUC-JP");
    reveal_strlit("EUC-KR");
    reveal_strlit("windows-1252");
    reveal_strlit("UTF-16LE");
    reveal_strlit("UTF-16BE");
    reveal_strlit("UTF-8 (Unicode)");
    reveal_strlit("GBK (简体中文)");
    reveal_strlit("GB18030 (国标)");
    reveal_strlit("GB2312 (简体中文)");
    reveal_strlit("Big5 (繁体中文)");
    reveal_strlit("Shift_JIS (日文)");
    reveal_strlit("EUC-JP (日文)");
    reveal_strlit("EUC-KR (韩文)");
    reveal_strlit("Windows-1252 (西欧)");
    reveal_strlit("UTF-16LE (Unicode)");
    reveal_strlit("UTF-16BE (Unicode)");
}

} // verus!

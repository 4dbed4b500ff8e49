//! Paths as texts.

use vstd::prelude::*;

verus! {

broadcast use vstd::string::group_string_axioms;

/// The character parts the names of a path on Windows.
pub open spec fn is_windows_separator(c: char) -> bool {
    c == '\\' || c == '/'
}

/// The path is a drive and nothing else, such as `C:`.
pub open spec fn is_drive(path: Seq<char>) -> bool {
    path.len() == 2 && path[1] == ':' && (65 <= path[0] as u32 <= 90 || 97 <= path[0] as u32 <= 122)
}

/// A file name behind the path of a directory on Windows.
pub open spec fn windows_joined(base: Seq<char>, name: Seq<char>) -> Seq<char> {
    if base.len() == 0 || is_windows_separator(base.last()) || is_drive(base) {
        base + name
    } else {
        base.push('\\') + name
    }
}

/// A file name behind the path of a directory elsewhere.
pub open spec fn unix_joined(base: Seq<char>, name: Seq<char>) -> Seq<char> {
    if base.len() == 0 || base.last() == '/' {
        base + name
    } else {
        base.push('/') + name
    }
}

/// Puts a file name behind the path of a directory on Windows.
pub fn join_windows(base: &str, name: &str) -> (r: String)
    ensures
        r@ == windows_joined(base@, name@),
{
    let n: usize = base.unicode_len();
    let mut out: String = base.to_owned();
    if n > 0 {
        let last: char = base.get_char(n - 1);
        let mut drive: bool = false;
        if n == 2 && last == ':' {
            let first: u32 = base.get_char(0) as u32;
            drive = (first >= 65 && first <= 90) || (first >= 97 && first <= 122);
        }
        if last != '\\' && last != '/' && !drive {
            out.push('\\');
        }
    }
    out.append(name);
    out
}

/// Puts a file name behind the path of a directory elsewhere.
pub fn join_unix(base: &str, name: &str) -> (r: String)
    ensures
        r@ == unix_joined(base@, name@),
{
    let n: usize = base.unicode_len();
    let mut out: String = base.to_owned();
    if n > 0 && base.get_char(n - 1) != '/' {
        out.push('/');
    }
    out.append(name);
    out
}

/// The name ends in an extension, with something in front of the dot.
pub open spec fn has_extension_text(name: Seq<char>, ext: Seq<char>) -> bool {
    &&& name.len() > ext.len() + 1
    &&& name.subrange(name.len() - ext.len() - 1, name.len() as int) == seq!['.'] + ext
}

/// Whether a file name has an extension, which holds no dot.
pub fn has_extension(name: &str, ext: &str) -> (r: bool)
    ensures
        r == has_extension_text(name@, ext@),
{
    let n: usize = name.unicode_len();
    let m: usize = ext.unicode_len();
    if n <= m || n - m < 2 {
        return false;
    }
    let tail: &str = name.substring_char(n - m - 1, n);
    let mut want = String::new();
    want.push('.');
    want.append(ext);
    assert(want@ =~= seq!['.'] + ext@);
    crate::text::same_text(tail, want.as_str())
}

// ---------------------------------------------------------------------------
// Laws
// ---------------------------------------------------------------------------

/// A name is put behind a directory with one separator between them, which is not written
/// again where it stands there already.
pub proof fn law_names_stand_behind_their_directory(
    base: &str,
    name: &str,
    win: String,
    unix: String,
)
    requires
        call_ensures(join_windows, (base, name), win),
        call_ensures(join_unix, (base, name), unix),
        base@.len() > 2,
    ensures
        base@.last() == '\\' || base@.last() == '/' ==> win@ == base@ + name@,
        base@.last() != '\\' && base@.last() != '/' ==> win@ == base@ + seq!['\\'] + name@,
        base@.last() == '/' ==> unix@ == base@ + name@,
        base@.last() != '/' ==> unix@ == base@ + seq!['/'] + name@,
{
    assert(base@.push('\\') =~= base@ + seq!['\\']);
    assert(base@.push('/') =~= base@ + seq!['/']);
}

/// A file has an extension where a name, a dot and the extension are put together, and
/// only there.
pub proof fn law_extensions_stand_behind_a_dot(
    stem: Seq<char>,
    ext: &str,
    name: &str,
    r: bool,
    other: &str,
    q: bool,
)
    requires
        call_ensures(has_extension, (name, ext), r),
        name@ == stem + seq!['.'] + ext@,
        call_ensures(has_extension, (other, ext), q),
    ensures
        stem.len() > 0 ==> r,
        stem.len() == 0 ==> !r,
        q ==> other@ == other@.take(other@.len() - ext@.len() - 1) + seq!['.'] + ext@,
{
    assert(name@.subrange(name@.len() - ext@.len() - 1, name@.len() as int) =~= seq!['.'] + ext@);
    if q {
        let at = other@.len() - ext@.len() - 1;
        assert(other@ =~= other@.take(at) + other@.subrange(at, other@.len() as int));
        assert(other@.take(at) + seq!['.'] + ext@ =~= other@.take(at) + (seq!['.'] + ext@));
    }
}

} // verus!

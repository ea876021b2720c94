//! Platform path classes: drive roots, user space and system locations on
//! Windows and macOS.

use vstd::prelude::*;
use crate::order::same_path_exec;
use crate::paths::{components, root_component};
use crate::planner::{byte_len, char_width};
use crate::text::{
    chars_of, contains, contains_lit, lower, lower_char, replace_char, replace_char_exec, starts_with,
    starts_with_lit, string_of, to_lower,
};

verus! {

/// `normalize_path`: backslashes turned into slashes, then ASCII lower case.
pub open spec fn normalized(p: Seq<char>) -> Seq<char> {
    lower(replace_char(p, '\\', '/'))
}

/// A drive root such as `C:`, `C:/` or `D:\`: an ASCII first character,
/// a colon, and nothing after it but slashes.
pub open spec fn drive_root(p: Seq<char>) -> bool {
    let s = replace_char(p, '\\', '/');
    &&& s.len() >= 2
    &&& (s[0] as u32) < 128
    &&& s[1] == ':'
    &&& forall|j: int| 2 <= j < s.len() ==> s[j] == '/'
}

pub open spec fn windows_user_space(p: Seq<char>) -> bool {
    starts_with(normalized(p), "c:/users/"@)
}

pub open spec fn macos_user_space(p: Seq<char>) -> bool {
    starts_with(normalized(p), "/users/"@)
}

pub open spec fn windows_system_sensitive(p: Seq<char>) -> bool {
    let t = normalized(p);
    ||| starts_with(t, "c:/windows/"@)
    ||| starts_with(t, "c:/program files/"@)
    ||| starts_with(t, "c:/program files (x86)/"@)
    ||| starts_with(t, "c:/programdata/"@)
    ||| contains(t, "/appdata/"@)
}

pub open spec fn macos_system_sensitive(p: Seq<char>) -> bool {
    let t = normalized(p);
    ||| starts_with(t, "/system/"@)
    ||| starts_with(t, "/applications/"@)
    ||| starts_with(t, "/library/"@)
    ||| starts_with(t, "/private/"@)
    ||| starts_with(t, "/opt/"@)
}

/// The normalized characters of a path.
pub fn normalized_chars(path: &str) -> (r: Vec<char>)
    ensures
        r@ == normalized(path@),
{
    let v = chars_of(path);
    let s = replace_char_exec(v.as_slice(), '\\', '/');
    to_lower(s.as_slice())
}

pub fn normalize_path(path: &str) -> (r: String)
    ensures
        r@ == normalized(path@),
{
    let v = normalized_chars(path);
    string_of(v.as_slice())
}

/// Normalising a path once is enough: a normalised path has no backslash
/// and no ASCII capital letter, normalising it again gives it back
/// unchanged, and normalising keeps the number of characters and the
/// number of UTF-8 bytes of the path.
pub proof fn law_normalized_path_is_stable(p: Seq<char>)
    ensures
        normalized(normalized(p)) == normalized(p),
        forall|i: int| 0 <= i < normalized(p).len() ==> normalized(p)[i] != '\\',
        forall|i: int| 0 <= i < normalized(p).len() ==> !('A' <= #[trigger] normalized(p)[i] && normalized(p)[i] <= 'Z'),
        normalized(p).len() == p.len(),
        byte_len(normalized(p)) == byte_len(p),
    decreases p.len(),
{
    let n = normalized(p);
    assert(normalized(n) =~= n);
    if p.len() > 0 {
        law_normalized_path_is_stable(p.drop_last());
        assert(normalized(p.drop_last()) =~= n.drop_last());
        let c = p.last();
        let d = n.last();
        assert(d == lower_char(if c == '\\' { '/' } else { c }));
        assert(char_width(d) == char_width(c));
    }
}

pub fn is_windows_drive_root(path: &str) -> (r: bool)
    ensures
        r == drive_root(path@),
{
    let v = chars_of(path);
    let s = replace_char_exec(v.as_slice(), '\\', '/');
    if s.len() < 2 || (s[0] as u32) >= 128 || s[1] != ':' {
        return false;
    }
    let mut j: usize = 2;
    while j < s.len()
        invariant
            2 <= j <= s@.len(),
            s@ == replace_char(path@, '\\', '/'),
            forall|k: int| 2 <= k < j ==> s@[k] == '/',
        decreases s@.len() - j,
    {
        if s[j] != '/' {
            assert(s@[j as int] != '/');
            return false;
        }
        j += 1;
    }
    true
}

/// The root of a Unix file system: a path whose only component is the root.
pub fn is_macos_root(path: &str) -> (r: bool)
    ensures
        r == (components(path@) == seq![root_component()]),
{
    proof {
        reveal_strlit("/");
        assert(crate::paths::has_root("/"@));
        assert(crate::paths::names("/"@) =~= Seq::<Seq<char>>::empty()) by {
            let a = crate::paths::after_drive("/"@);
            assert(a =~= seq!['/']);
            assert(a.drop_last() =~= Seq::<char>::empty());
            assert(a.last() == '/');
            assert(crate::text::pieces(a.drop_last(), false) =~= Seq::<Seq<char>>::empty());
            assert(crate::text::pieces(a, false) =~= Seq::<Seq<char>>::empty());
        }
        assert(components("/"@) =~= seq![root_component()]);
    }
    same_path_exec(path, "/")
}

pub fn is_windows_user_space_path(path: &str) -> (r: bool)
    ensures
        r == windows_user_space(path@),
{
    let t = normalized_chars(path);
    starts_with_lit(t.as_slice(), "c:/users/")
}

pub fn is_macos_user_space_path(path: &str) -> (r: bool)
    ensures
        r == macos_user_space(path@),
{
    let t = normalized_chars(path);
    starts_with_lit(t.as_slice(), "/users/")
}

pub fn is_windows_system_sensitive_path(path: &str) -> (r: bool)
    ensures
        r == windows_system_sensitive(path@),
{
    let t = normalized_chars(path);
    starts_with_lit(t.as_slice(), "c:/windows/") || starts_with_lit(t.as_slice(), "c:/program files/")
        || starts_with_lit(t.as_slice(), "c:/program files (x86)/") || starts_with_lit(
        t.as_slice(),
        "c:/programdata/",
    ) || contains_lit(t.as_slice(), "/appdata/")
}

pub fn is_macos_system_sensitive_path(path: &str) -> (r: bool)
    ensures
        r == macos_system_sensitive(path@),
{
    let t = normalized_chars(path);
    starts_with_lit(t.as_slice(), "/system/") || starts_with_lit(t.as_slice(), "/applications/")
        || starts_with_lit(t.as_slice(), "/library/") || starts_with_lit(t.as_slice(), "/private/")
        || starts_with_lit(t.as_slice(), "/opt/")
}

} // verus!

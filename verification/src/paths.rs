//! The path model: a path is read with Windows separator rules, so `/` and
//! `\` both separate components, a `.` inside a path is no component, and
//! two paths are the same path when their components agree.

use vstd::prelude::*;
use crate::text::{chars_of, copy_chars, lower, pieces, split_pieces, views};

verus! {

pub open spec fn is_ascii_alpha(c: char) -> bool {
    ('a' <= c && c <= 'z') || ('A' <= c && c <= 'Z')
}

/// The path starts with a drive prefix such as `C:`.
pub open spec fn has_drive(p: Seq<char>) -> bool {
    p.len() >= 2 && p[1] == ':' && is_ascii_alpha(p[0])
}

/// The path after its drive prefix.
pub open spec fn after_drive(p: Seq<char>) -> Seq<char> {
    if has_drive(p) {
        p.subrange(2, p.len() as int)
    } else {
        p
    }
}

/// A separator follows the drive prefix (or starts the path): the root.
pub open spec fn has_root(p: Seq<char>) -> bool {
    after_drive(p).len() > 0 && (after_drive(p)[0] == '/' || after_drive(p)[0] == '\\')
}

/// The root component, written as a backslash.
pub open spec fn root_component() -> Seq<char> {
    seq!['\\']
}

/// The leading components: the drive prefix and the root, where present.
pub open spec fn head(p: Seq<char>) -> Seq<Seq<char>> {
    (if has_drive(p) {
        seq![p.subrange(0, 2)]
    } else {
        Seq::empty()
    }) + (if has_root(p) {
        seq![root_component()]
    } else {
        Seq::empty()
    })
}

/// The current directory, `.`.
pub open spec fn cur_dir() -> Seq<char> {
    seq!['.']
}

/// The pieces with every `.` left out, except a first one where
/// `keep_first` holds.
pub open spec fn without_dots(ns: Seq<Seq<char>>, keep_first: bool) -> Seq<Seq<char>>
    decreases ns.len(),
{
    if ns.len() == 0 {
        ns
    } else {
        let w = without_dots(ns.drop_last(), keep_first);
        if ns.last() == cur_dir() && !(keep_first && ns.len() == 1) {
            w
        } else {
            w.push(ns.last())
        }
    }
}

/// The named components: the pieces between separators after the prefix.
/// A `.` is no component, except one that starts a path without a root
/// (`./a`), as `Path::components` reads it.
pub open spec fn names(p: Seq<char>) -> Seq<Seq<char>> {
    without_dots(pieces(after_drive(p), false), !has_root(p))
}

/// The components of a path: drive prefix, root, then the names.
pub open spec fn components(p: Seq<char>) -> Seq<Seq<char>> {
    head(p) + names(p)
}

pub open spec fn dot_dot() -> Seq<char> {
    seq!['.', '.']
}

/// `Path::file_name`: the last named component, unless there is none or it
/// is `..` or `.`.
pub open spec fn file_name(p: Seq<char>) -> Option<Seq<char>> {
    let c = names(p);
    if c.len() == 0 || c.last() == dot_dot() || c.last() == cur_dir() {
        None
    } else {
        Some(c.last())
    }
}

/// Index of the last `.` in `s`, or -1.
pub open spec fn last_dot(s: Seq<char>) -> int
    decreases s.len(),
{
    if s.len() == 0 {
        -1
    } else if s.last() == '.' {
        s.len() - 1
    } else {
        last_dot(s.drop_last())
    }
}

/// The extension of a file name: the text after its last dot, when that
/// dot is not the first character.
pub open spec fn name_extension(name: Seq<char>) -> Option<Seq<char>> {
    if name == dot_dot() || last_dot(name) <= 0 {
        None
    } else {
        Some(name.subrange(last_dot(name) + 1, name.len() as int))
    }
}

/// `Path::extension`.
pub open spec fn extension(p: Seq<char>) -> Option<Seq<char>> {
    match file_name(p) {
        Some(n) => name_extension(n),
        None => None,
    }
}

/// The extension, lower-cased.
pub open spec fn lower_extension(p: Seq<char>) -> Option<Seq<char>> {
    match extension(p) {
        Some(e) => Some(lower(e)),
        None => None,
    }
}

/// Two paths name the same entry.
pub open spec fn same_path(a: Seq<char>, b: Seq<char>) -> bool {
    components(a) == components(b)
}

/// `Path::starts_with`: `base`'s components are a prefix of `p`'s.
pub open spec fn path_starts_with(p: Seq<char>, base: Seq<char>) -> bool {
    let cp = components(p);
    let cb = components(base);
    cb.len() <= cp.len() && cp.subrange(0, cb.len() as int) == cb
}

/// `Path::strip_prefix`: the components of `p` below `base`.
pub open spec fn relative_components(p: Seq<char>, base: Seq<char>) -> Option<Seq<Seq<char>>> {
    if path_starts_with(p, base) {
        Some(components(p).subrange(components(base).len() as int, components(p).len() as int))
    } else {
        None
    }
}

/// Lexicographic order of character sequences (byte order of UTF-8 text).
pub open spec fn text_order(a: Seq<char>, b: Seq<char>) -> int
    decreases a.len(),
{
    if a.len() == 0 {
        if b.len() == 0 { 0 } else { -1 }
    } else if b.len() == 0 {
        1
    } else if a[0] < b[0] {
        -1
    } else if a[0] > b[0] {
        1
    } else {
        text_order(a.drop_first(), b.drop_first())
    }
}

/// Lexicographic order of component lists.
pub open spec fn comps_order(a: Seq<Seq<char>>, b: Seq<Seq<char>>) -> int
    decreases a.len(),
{
    if a.len() == 0 {
        if b.len() == 0 { 0 } else { -1 }
    } else if b.len() == 0 {
        1
    } else if text_order(a[0], b[0]) != 0 {
        text_order(a[0], b[0])
    } else {
        comps_order(a.drop_first(), b.drop_first())
    }
}

/// `Path` ordering: paths ordered by their components.
pub open spec fn path_order(a: Seq<char>, b: Seq<char>) -> int {
    comps_order(components(a), components(b))
}

fn is_ascii_alpha_exec(c: char) -> (r: bool)
    ensures
        r == is_ascii_alpha(c),
{
    ('a' <= c && c <= 'z') || ('A' <= c && c <= 'Z')
}

/// The characters after the drive prefix.
fn after_drive_of(v: &Vec<char>) -> (r: (bool, Vec<char>))
    ensures
        r.0 == has_drive(v@),
        r.1@ == after_drive(v@),
{
    let drive = v.len() >= 2 && v[1] == ':' && is_ascii_alpha_exec(v[0]);
    let start: usize = if drive { 2 } else { 0 };
    let mut rest: Vec<char> = Vec::new();
    let mut i: usize = start;
    while i < v.len()
        invariant
            start <= i <= v@.len(),
            rest@ =~= v@.subrange(start as int, i as int),
        decreases v@.len() - i,
    {
        rest.push(v[i]);
        i += 1;
    }
    if !drive {
        assert(rest@ =~= v@);
    }
    (drive, rest)
}

/// The pieces with every `.` left out, except a first one where
/// `keep_first` holds.
fn without_dots_exec(ns: Vec<Vec<char>>, keep_first: bool) -> (r: Vec<Vec<char>>)
    ensures
        views(r@) == without_dots(views(ns@), keep_first),
{
    let mut out: Vec<Vec<char>> = Vec::new();
    let mut i: usize = 0;
    while i < ns.len()
        invariant
            i <= ns@.len(),
            views(out@) == without_dots(views(ns@).take(i as int), keep_first),
        decreases ns@.len() - i,
    {
        let ghost t = views(ns@).take(i + 1);
        assert(t.drop_last() =~= views(ns@).take(i as int));
        assert(t.last() == ns@[i as int]@);
        let ghost old_out = views(out@);
        let n = &ns[i];
        let is_dot = n.len() == 1 && n[0] == '.';
        proof {
            if is_dot {
                assert(n@ =~= cur_dir());
            } else if n@ == cur_dir() {
                assert(n@.len() == 1 && n@[0] == '.');
            }
        }
        if !is_dot || (keep_first && i == 0) {
            out.push(copy_chars(n.as_slice()));
            assert(views(out@) =~= old_out.push(ns@[i as int]@));
        }
        i += 1;
    }
    assert(views(ns@).take(ns@.len() as int) =~= views(ns@));
    out
}

/// The named components of the characters after a drive prefix.
fn names_after_drive(rest: &Vec<char>) -> (r: Vec<Vec<char>>)
    ensures
        views(r@) == without_dots(
            pieces(rest@, false),
            !(rest@.len() > 0 && (rest@[0] == '/' || rest@[0] == '\\')),
        ),
{
    let root = rest.len() > 0 && (rest[0] == '/' || rest[0] == '\\');
    let ps = split_pieces(rest.as_slice(), false);
    without_dots_exec(ps, !root)
}

/// The named components of a path.
pub fn names_of(p: &str) -> (r: Vec<Vec<char>>)
    ensures
        views(r@) == names(p@),
{
    let v = chars_of(p);
    let (_, rest) = after_drive_of(&v);
    names_after_drive(&rest)
}

pub fn components_of(p: &str) -> (r: Vec<Vec<char>>)
    ensures
        views(r@) == components(p@),
{
    let v = chars_of(p);
    let (drive, rest) = after_drive_of(&v);
    let mut r: Vec<Vec<char>> = Vec::new();
    if drive {
        let d: Vec<char> = vec![v[0], v[1]];
        assert(d@ =~= v@.subrange(0, 2));
        r.push(d);
    }
    let root = rest.len() > 0 && (rest[0] == '/' || rest[0] == '\\');
    if root {
        let rc: Vec<char> = vec!['\\'];
        assert(rc@ =~= root_component());
        r.push(rc);
    }
    assert(views(r@) =~= head(p@));
    let n = names_after_drive(&rest);
    let mut i: usize = 0;
    while i < n.len()
        invariant
            i <= n@.len(),
            views(n@) == names(p@),
            views(r@) =~= head(p@) + views(n@).take(i as int),
        decreases n@.len() - i,
    {
        let ghost old_r = r@;
        let piece = copy_chars(n[i].as_slice());
        r.push(piece);
        assert(views(r@) =~= views(old_r).push(views(n@)[i as int]));
        assert(views(n@).take(i + 1) =~= views(n@).take(i as int).push(views(n@)[i as int]));
        i += 1;
    }
    assert(views(n@).take(n@.len() as int) =~= views(n@));
    r
}

pub fn file_name_of(p: &str) -> (r: Option<Vec<char>>)
    ensures
        match r {
            Some(n) => file_name(p@) == Some(n@),
            None => file_name(p@) is None,
        },
{
    let c = names_of(p);
    if c.len() == 0 {
        return None;
    }
    let last = c.len() - 1;
    let name = copy_chars(c[last].as_slice());
    assert(name@ == names(p@).last());
    if name.len() == 2 && name[0] == '.' && name[1] == '.' {
        assert(name@ =~= dot_dot());
        None
    } else if name.len() == 1 && name[0] == '.' {
        assert(name@ =~= cur_dir());
        None
    } else {
        assert(name@ != dot_dot());
        assert(name@ != cur_dir());
        Some(name)
    }
}

proof fn lemma_last_dot_bounds(s: Seq<char>)
    ensures
        -1 <= last_dot(s) < s.len(),
        last_dot(s) >= 0 ==> s[last_dot(s)] == '.',
        forall|j: int| last_dot(s) < j < s.len() ==> s[j] != '.',
    decreases s.len(),
{
    if s.len() > 0 && s.last() != '.' {
        lemma_last_dot_bounds(s.drop_last());
        assert forall|j: int| last_dot(s) < j < s.len() implies s[j] != '.' by {
            if j < s.len() - 1 {
                assert(s[j] == s.drop_last()[j]);
            }
        }
    }
}

fn last_dot_exec(s: &[char]) -> (r: Option<usize>)
    ensures
        match r {
            Some(i) => i == last_dot(s@),
            None => last_dot(s@) == -1,
        },
{
    let mut i: usize = s.len();
    assert(s@.take(i as int) =~= s@);
    while i > 0
        invariant
            i <= s@.len(),
            last_dot(s@) == last_dot(s@.take(i as int)),
        decreases i,
    {
        let ghost t = s@.take(i as int);
        assert(t.drop_last() =~= s@.take(i - 1));
        assert(t.last() == s@[i - 1]);
        if s[i - 1] == '.' {
            return Some(i - 1);
        }
        i -= 1;
    }
    assert(s@.take(0) =~= Seq::<char>::empty());
    None
}

pub fn name_extension_of(name: &[char]) -> (r: Option<Vec<char>>)
    ensures
        match r {
            Some(e) => name_extension(name@) == Some(e@),
            None => name_extension(name@) is None,
        },
{
    if name.len() == 2 && name[0] == '.' && name[1] == '.' {
        assert(name@ =~= dot_dot());
        return None;
    }
    assert(name@ != dot_dot()) by {
        if name@ == dot_dot() {
            assert(name@.len() == 2);
        }
    }
    let d = match last_dot_exec(name) {
        Some(d) => d,
        None => {
            return None;
        },
    };
    if d == 0 {
        return None;
    }
    proof {
        lemma_last_dot_bounds(name@);
    }
    let mut e: Vec<char> = Vec::new();
    let mut i: usize = d + 1;
    while i < name.len()
        invariant
            d + 1 <= i <= name@.len(),
            e@ =~= name@.subrange(d + 1, i as int),
        decreases name@.len() - i,
    {
        e.push(name[i]);
        i += 1;
    }
    Some(e)
}

/// `path.extension()` as owned characters.
pub fn extension_of(p: &str) -> (r: Option<Vec<char>>)
    ensures
        match r {
            Some(e) => extension(p@) == Some(e@),
            None => extension(p@) is None,
        },
{
    match file_name_of(p) {
        Some(n) => name_extension_of(n.as_slice()),
        None => None,
    }
}

/// `Path::file_stem`: the file name without its extension.
pub open spec fn file_stem(p: Seq<char>) -> Option<Seq<char>> {
    match file_name(p) {
        Some(n) => if name_extension(n) is Some {
            Some(n.subrange(0, last_dot(n)))
        } else {
            Some(n)
        },
        None => None,
    }
}

/// `path.file_stem()` as owned characters.
pub fn file_stem_of(p: &str) -> (r: Option<Vec<char>>)
    ensures
        match r {
            Some(s) => file_stem(p@) == Some(s@),
            None => file_stem(p@) is None,
        },
{
    let n = match file_name_of(p) {
        Some(n) => n,
        None => {
            return None;
        },
    };
    match name_extension_of(n.as_slice()) {
        None => Some(n),
        Some(_) => {
            let d = match last_dot_exec(n.as_slice()) {
                Some(d) => d,
                None => {
                    return Some(n);
                },
            };
            proof {
                lemma_last_dot_bounds(n@);
            }
            let mut stem: Vec<char> = Vec::new();
            let mut i: usize = 0;
            while i < d
                invariant
                    i <= d < n@.len(),
                    stem@ =~= n@.subrange(0, i as int),
                decreases d - i,
            {
                stem.push(n[i]);
                i += 1;
            }
            Some(stem)
        },
    }
}

} // verus!

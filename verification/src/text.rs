//! Character-level text helpers with their specifications.

use vstd::prelude::*;

verus! {

/// ASCII lower-casing of one character (`char::to_ascii_lowercase`).
pub open spec fn lower_char(c: char) -> char {
    if 'A' <= c && c <= 'Z' {
        ((c as u32) + 32) as char
    } else {
        c
    }
}

/// ASCII lower-casing of a whole text (`str::to_ascii_lowercase`).
pub open spec fn lower(s: Seq<char>) -> Seq<char> {
    Seq::new(s.len(), |i: int| lower_char(s[i]))
}

/// The Unicode `White_Space` property, as used by `char::is_whitespace`.
pub open spec fn is_space(c: char) -> bool {
    ||| ('\t' <= c && c <= '\r')
    ||| c == ' '
    ||| c == '\u{85}'
    ||| c == '\u{a0}'
    ||| c == '\u{1680}'
    ||| ('\u{2000}' <= c && c <= '\u{200a}')
    ||| c == '\u{2028}'
    ||| c == '\u{2029}'
    ||| c == '\u{202f}'
    ||| c == '\u{205f}'
    ||| c == '\u{3000}'
}

/// `str::trim_start`.
pub open spec fn trim_start(s: Seq<char>) -> Seq<char>
    decreases s.len(),
{
    if s.len() > 0 && is_space(s[0]) {
        trim_start(s.drop_first())
    } else {
        s
    }
}

/// `str::trim_end`.
pub open spec fn trim_end(s: Seq<char>) -> Seq<char>
    decreases s.len(),
{
    if s.len() > 0 && is_space(s.last()) {
        trim_end(s.drop_last())
    } else {
        s
    }
}

/// `str::trim`.
pub open spec fn trim(s: Seq<char>) -> Seq<char> {
    trim_end(trim_start(s))
}

/// Whether the text holds something other than white space.
pub open spec fn is_blank(s: Seq<char>) -> bool {
    trim(s).len() == 0
}

pub open spec fn starts_with(s: Seq<char>, p: Seq<char>) -> bool {
    p.len() <= s.len() && s.subrange(0, p.len() as int) == p
}

pub open spec fn ends_with(s: Seq<char>, p: Seq<char>) -> bool {
    p.len() <= s.len() && s.subrange(s.len() - p.len(), s.len() as int) == p
}

pub open spec fn occurs_at(s: Seq<char>, p: Seq<char>, i: int) -> bool {
    0 <= i && i + p.len() <= s.len() && s.subrange(i, i + p.len()) == p
}

pub open spec fn contains(s: Seq<char>, p: Seq<char>) -> bool {
    exists|i: int| occurs_at(s, p, i)
}

/// Every occurrence of `from` replaced by `to`.
pub open spec fn replace_char(s: Seq<char>, from: char, to: char) -> Seq<char> {
    Seq::new(s.len(), |i: int| if s[i] == from { to } else { s[i] })
}

/// Separator test used by [`pieces`]: white space in space mode,
/// otherwise a path separator (`/` or `\\`).
pub open spec fn is_delim(space_mode: bool, c: char) -> bool {
    if space_mode {
        is_space(c)
    } else {
        c == '/' || c == '\\'
    }
}

/// The non-empty pieces of `s` between runs of separators.
pub open spec fn pieces(s: Seq<char>, space_mode: bool) -> Seq<Seq<char>>
    decreases s.len(),
{
    if s.len() == 0 {
        Seq::empty()
    } else {
        let w = pieces(s.drop_last(), space_mode);
        let c = s.last();
        if is_delim(space_mode, c) {
            w
        } else if s.len() >= 2 && !is_delim(space_mode, s[s.len() - 2]) {
            w.update(w.len() - 1, w.last().push(c))
        } else {
            w.push(seq![c])
        }
    }
}

/// The pieces of `s` between runs of white space (`str::split_whitespace`).
pub open spec fn words(s: Seq<char>) -> Seq<Seq<char>> {
    pieces(s, true)
}

/// Pieces joined with a separator (`[T]::join`).
pub open spec fn join(ws: Seq<Seq<char>>, sep: Seq<char>) -> Seq<char>
    decreases ws.len(),
{
    if ws.len() == 0 {
        Seq::empty()
    } else if ws.len() == 1 {
        ws[0]
    } else {
        join(ws.drop_last(), sep) + sep + ws.last()
    }
}

/// `split_whitespace().collect::<Vec<_>>().join(" ")`.
pub open spec fn collapse_spaces(s: Seq<char>) -> Seq<char> {
    join(words(s), seq![' '])
}

/// Decimal digit character of `d < 10`.
pub open spec fn digit_char(d: nat) -> char {
    (('0' as u32) + d) as char
}

/// Decimal rendering of a natural number (`Display` of an unsigned integer).
pub open spec fn decimal(n: nat) -> Seq<char>
    decreases n,
{
    if n < 10 {
        seq![digit_char(n)]
    } else {
        decimal(n / 10).push(digit_char(n % 10))
    }
}

/// Extends a piece list by one character of the scanned text.
pub proof fn lemma_pieces_step(s: Seq<char>, i: int, m: bool)
    requires
        0 <= i < s.len(),
    ensures
        pieces(s.take(i + 1), m) == (if is_delim(m, s[i]) {
            pieces(s.take(i), m)
        } else if i >= 1 && !is_delim(m, s[i - 1]) {
            pieces(s.take(i), m).update(
                pieces(s.take(i), m).len() - 1,
                pieces(s.take(i), m).last().push(s[i]),
            )
        } else {
            pieces(s.take(i), m).push(seq![s[i]])
        }),
        i >= 1 && !is_delim(m, s[i - 1]) ==> pieces(s.take(i), m).len() > 0,
{
    let t = s.take(i);
    let t1 = s.take(i + 1);
    assert(t1.drop_last() =~= t);
    assert(t1.last() == s[i]);
    if i >= 1 {
        assert(t1[t1.len() - 2] == s[i - 1]);
        assert(t.last() == s[i - 1]);
        if !is_delim(m, s[i - 1]) {
            lemma_pieces_nonempty(t, m);
        }
    }
}

/// Appends one character to a string (`String::push`).
/// Trusted: std documents that `push` appends the given char to the end.
#[verifier::external_body]
pub(crate) fn push_char(s: &mut String, c: char)
    ensures
        final(s)@ == old(s)@.push(c),
{
    s.push(c);
}

/// Copies the characters of a string slice into a vector.
pub fn chars_of(s: &str) -> (v: Vec<char>)
    ensures
        v@ == s@,
{
    let mut v: Vec<char> = Vec::new();
    for c in it: s.chars()
        invariant
            it.seq() == s@,
            v@ == s@.take(it.index() as int),
    {
        assert(s@.take(it.index() + 1) =~= v@.push(c));
        v.push(c);
    }
    assert(v@ =~= s@);
    v
}

/// Builds a string from a character sequence.
pub fn string_of(v: &[char]) -> (s: String)
    ensures
        s@ == v@,
{
    let mut s = String::new();
    let mut i: usize = 0;
    while i < v.len()
        invariant
            i <= v@.len(),
            s@ == v@.take(i as int),
        decreases v@.len() - i,
    {
        push_char(&mut s, v[i]);
        assert(v@.take(i + 1) =~= v@.take(i as int).push(v@[i as int]));
        i += 1;
    }
    assert(v@.take(v@.len() as int) =~= v@);
    s
}

/// A string holding the characters of a literal or slice.
pub fn owned(s: &str) -> (r: String)
    ensures
        r@ == s@,
{
    let v = chars_of(s);
    string_of(v.as_slice())
}

/// Appends the characters of `s` to `out`.
pub fn append_str(out: &mut Vec<char>, s: &str)
    ensures
        final(out)@ == old(out)@ + s@,
{
    let v = chars_of(s);
    append_chars(out, v.as_slice());
}

/// A copy of a character sequence.
pub fn copy_chars(s: &[char]) -> (r: Vec<char>)
    ensures
        r@ == s@,
{
    let mut r: Vec<char> = Vec::new();
    append_chars(&mut r, s);
    assert(r@ =~= s@);
    r
}

/// Appends the characters of `s` to `out`.
pub fn append_chars(out: &mut Vec<char>, s: &[char])
    ensures
        final(out)@ == old(out)@ + s@,
{
    let ghost start = out@;
    let mut i: usize = 0;
    while i < s.len()
        invariant
            i <= s@.len(),
            out@ == start + s@.take(i as int),
        decreases s@.len() - i,
    {
        out.push(s[i]);
        assert(s@.take(i + 1) =~= s@.take(i as int).push(s@[i as int]));
        i += 1;
    }
    assert(s@.take(s@.len() as int) =~= s@);
}

pub fn lower_char_exec(c: char) -> (r: char)
    ensures
        r == lower_char(c),
{
    if 'A' <= c && c <= 'Z' {
        let b: u8 = c as u8;
        (b + 32) as char
    } else {
        c
    }
}

pub fn to_lower(s: &[char]) -> (r: Vec<char>)
    ensures
        r@ == lower(s@),
{
    let mut r: Vec<char> = Vec::new();
    let mut i: usize = 0;
    while i < s.len()
        invariant
            i <= s@.len(),
            r@ =~= lower(s@.take(i as int)),
        decreases s@.len() - i,
    {
        r.push(lower_char_exec(s[i]));
        i += 1;
    }
    assert(s@.take(s@.len() as int) =~= s@);
    r
}

pub fn is_space_exec(c: char) -> (r: bool)
    ensures
        r == is_space(c),
{
    ('\t' <= c && c <= '\r') || c == ' ' || c == '\u{85}' || c == '\u{a0}' || c == '\u{1680}'
        || ('\u{2000}' <= c && c <= '\u{200a}') || c == '\u{2028}' || c == '\u{2029}'
        || c == '\u{202f}' || c == '\u{205f}' || c == '\u{3000}'
}

proof fn lemma_trim_start_skip(s: Seq<char>, k: int)
    requires
        0 <= k <= s.len(),
        forall|j: int| 0 <= j < k ==> is_space(#[trigger] s[j]),
    ensures
        trim_start(s) == trim_start(s.subrange(k, s.len() as int)),
    decreases k,
{
    if k == 0 {
        assert(s.subrange(0, s.len() as int) =~= s);
    } else {
        assert(is_space(s[0]));
        let t = s.drop_first();
        assert forall|j: int| 0 <= j < k - 1 implies is_space(#[trigger] t[j]) by {
            assert(t[j] == s[j + 1]);
        }
        lemma_trim_start_skip(t, k - 1);
        assert(t.subrange(k - 1, t.len() as int) =~= s.subrange(k, s.len() as int));
    }
}

proof fn lemma_trim_end_skip(s: Seq<char>, m: int)
    requires
        0 <= m <= s.len(),
        forall|j: int| m <= j < s.len() ==> is_space(#[trigger] s[j]),
    ensures
        trim_end(s) == trim_end(s.subrange(0, m)),
    decreases s.len() - m,
{
    if m == s.len() {
        assert(s.subrange(0, m) =~= s);
    } else {
        assert(is_space(s.last()));
        let t = s.drop_last();
        assert forall|j: int| m <= j < t.len() implies is_space(#[trigger] t[j]) by {
            assert(t[j] == s[j]);
        }
        lemma_trim_end_skip(t, m);
        assert(t.subrange(0, m) =~= s.subrange(0, m));
    }
}

/// `str::trim` on a character sequence.
pub fn trim_chars(s: &[char]) -> (r: Vec<char>)
    ensures
        r@ == trim(s@),
{
    let n = s.len();
    let mut a: usize = 0;
    while a < n && is_space_exec(s[a])
        invariant
            a <= n,
            n == s@.len(),
            forall|j: int| 0 <= j < a ==> is_space(#[trigger] s@[j]),
        decreases n - a,
    {
        a += 1;
    }
    let mut b: usize = n;
    while b > a && is_space_exec(s[b - 1])
        invariant
            a <= b <= n,
            n == s@.len(),
            forall|j: int| b <= j < n ==> is_space(#[trigger] s@[j]),
        decreases b,
    {
        b -= 1;
    }
    proof {
        lemma_trim_start_skip(s@, a as int);
        let t = s@.subrange(a as int, n as int);
        if a < n {
            assert(!is_space(s@[a as int]));
        }
        assert(trim_start(t) == t);
        assert forall|j: int| b - a <= j < t.len() implies is_space(#[trigger] t[j]) by {
            assert(t[j] == s@[j + a]);
        }
        lemma_trim_end_skip(t, b - a);
        let u = t.subrange(0, b - a);
        if b > a {
            assert(u.last() == s@[b - 1]);
        }
        assert(trim_end(u) == u);
        assert(u =~= s@.subrange(a as int, b as int));
    }
    let mut r: Vec<char> = Vec::new();
    let mut i: usize = a;
    while i < b
        invariant
            a <= i <= b <= n,
            n == s@.len(),
            r@ =~= s@.subrange(a as int, i as int),
        decreases b - i,
    {
        r.push(s[i]);
        i += 1;
    }
    r
}

/// `str::trim_start` on a character sequence.
pub fn trim_start_chars(s: &[char]) -> (r: Vec<char>)
    ensures
        r@ == trim_start(s@),
{
    let n = s.len();
    let mut a: usize = 0;
    while a < n && is_space_exec(s[a])
        invariant
            a <= n,
            n == s@.len(),
            forall|j: int| 0 <= j < a ==> is_space(#[trigger] s@[j]),
        decreases n - a,
    {
        a += 1;
    }
    proof {
        lemma_trim_start_skip(s@, a as int);
        if a < n {
            assert(!is_space(s@[a as int]));
        }
        assert(trim_start(s@.subrange(a as int, n as int)) == s@.subrange(a as int, n as int));
    }
    let mut r: Vec<char> = Vec::new();
    let mut i: usize = a;
    while i < n
        invariant
            a <= i <= n,
            n == s@.len(),
            r@ =~= s@.subrange(a as int, i as int),
        decreases n - i,
    {
        r.push(s[i]);
        i += 1;
    }
    r
}

/// Trimmed copy of a string.
pub fn trim_str(s: &str) -> (r: Vec<char>)
    ensures
        r@ == trim(s@),
{
    let v = chars_of(s);
    trim_chars(v.as_slice())
}

/// Whether a string is empty once trimmed (`s.trim().is_empty()`).
pub fn is_blank_str(s: &str) -> (r: bool)
    ensures
        r == is_blank(s@),
{
    let t = trim_str(s);
    t.len() == 0
}

pub fn eq_chars(a: &[char], b: &[char]) -> (r: bool)
    ensures
        r == (a@ == b@),
{
    if a.len() != b.len() {
        return false;
    }
    let mut i: usize = 0;
    while i < a.len()
        invariant
            i <= a@.len(),
            a@.len() == b@.len(),
            a@.take(i as int) == b@.take(i as int),
        decreases a@.len() - i,
    {
        if a[i] != b[i] {
            assert(a@[i as int] != b@[i as int]);
            return false;
        }
        assert(a@.take(i + 1) =~= a@.take(i as int).push(a@[i as int]));
        assert(b@.take(i + 1) =~= b@.take(i as int).push(b@[i as int]));
        i += 1;
    }
    assert(a@ =~= a@.take(a@.len() as int));
    assert(b@ =~= b@.take(b@.len() as int));
    true
}

/// Equality of a character sequence and a literal.
pub fn eq_lit(a: &[char], lit: &str) -> (r: bool)
    ensures
        r == (a@ == lit@),
{
    let b = chars_of(lit);
    eq_chars(a, b.as_slice())
}

/// Whether `p` occurs in `s` at index `i`.
pub fn occurs_at_exec(s: &[char], p: &[char], i: usize) -> (r: bool)
    ensures
        r == occurs_at(s@, p@, i as int),
{
    if i > s.len() || p.len() > s.len() - i {
        return false;
    }
    let mut k: usize = 0;
    while k < p.len()
        invariant
            k <= p@.len(),
            i + p@.len() <= s@.len(),
            s@.len() == s.len(),
            p@.len() == p.len(),
            forall|j: int| 0 <= j < k ==> s@[i + j] == p@[j],
        decreases p@.len() - k,
    {
        assert(i + k < s@.len());
        if s[i + k] != p[k] {
            assert(s@.subrange(i as int, i + p@.len())[k as int] != p@[k as int]);
            return false;
        }
        k += 1;
    }
    assert(s@.subrange(i as int, i + p@.len()) =~= p@);
    true
}

pub fn starts_with_chars(s: &[char], p: &[char]) -> (r: bool)
    ensures
        r == starts_with(s@, p@),
{
    occurs_at_exec(s, p, 0)
}

pub fn ends_with_chars(s: &[char], p: &[char]) -> (r: bool)
    ensures
        r == ends_with(s@, p@),
{
    if p.len() > s.len() {
        return false;
    }
    occurs_at_exec(s, p, s.len() - p.len())
}

pub fn contains_chars(s: &[char], p: &[char]) -> (r: bool)
    ensures
        r == contains(s@, p@),
{
    if p.len() > s.len() {
        assert forall|i: int| !occurs_at(s@, p@, i) by {}
        return false;
    }
    let last = s.len() - p.len();
    let mut i: usize = 0;
    while i <= last
        invariant
            last + p@.len() == s@.len(),
            forall|j: int| 0 <= j < i ==> !occurs_at(s@, p@, j),
        decreases last + 1 - i,
    {
        if occurs_at_exec(s, p, i) {
            return true;
        }
        if i == last {
            assert forall|j: int| !occurs_at(s@, p@, j) by {
                if 0 <= j <= last {
                } 
            }
            return false;
        }
        i += 1;
    }
    false
}

pub fn starts_with_lit(s: &[char], lit: &str) -> (r: bool)
    ensures
        r == starts_with(s@, lit@),
{
    let p = chars_of(lit);
    starts_with_chars(s, p.as_slice())
}

pub fn ends_with_lit(s: &[char], lit: &str) -> (r: bool)
    ensures
        r == ends_with(s@, lit@),
{
    let p = chars_of(lit);
    ends_with_chars(s, p.as_slice())
}

pub fn contains_lit(s: &[char], lit: &str) -> (r: bool)
    ensures
        r == contains(s@, lit@),
{
    let p = chars_of(lit);
    contains_chars(s, p.as_slice())
}

pub fn replace_char_exec(s: &[char], from: char, to: char) -> (r: Vec<char>)
    ensures
        r@ == replace_char(s@, from, to),
{
    let mut r: Vec<char> = Vec::new();
    let mut i: usize = 0;
    while i < s.len()
        invariant
            i <= s@.len(),
            r@ =~= replace_char(s@.take(i as int), from, to),
        decreases s@.len() - i,
    {
        if s[i] == from {
            r.push(to);
        } else {
            r.push(s[i]);
        }
        i += 1;
    }
    assert(s@.take(s@.len() as int) =~= s@);
    r
}

/// Appends the decimal rendering of `n`.
pub fn push_decimal(out: &mut Vec<char>, n: u64)
    ensures
        final(out)@ == old(out)@ + decimal(n as nat),
    decreases n,
{
    if n < 10 {
        let c = ((n as u8) + 48) as char;
        assert(c == digit_char(n as nat));
        out.push(c);
        assert(old(out)@.push(c) =~= old(out)@ + seq![c]);
    } else {
        push_decimal(out, n / 10);
        let c = (((n % 10) as u8) + 48) as char;
        assert(c == digit_char((n % 10) as nat));
        out.push(c);
        assert(decimal(n as nat) == decimal((n / 10) as nat).push(c));
        assert(old(out)@ + decimal((n / 10) as nat).push(c) =~= (old(out)@ + decimal(
            (n / 10) as nat,
        )).push(c));
    }
}

proof fn lemma_join_push(ws: Seq<Seq<char>>, w: Seq<char>, sep: Seq<char>)
    ensures
        ws.len() > 0 ==> join(ws.push(w), sep) == join(ws, sep) + sep + w,
        ws.len() == 0 ==> join(ws.push(w), sep) == w,
{
    assert(ws.push(w).drop_last() =~= ws);
    if ws.len() == 0 {
        assert(ws.push(w)[0] == w);
    }
}

proof fn lemma_join_extend_last(ws: Seq<Seq<char>>, c: char, sep: Seq<char>)
    requires
        ws.len() > 0,
    ensures
        join(ws.update(ws.len() - 1, ws.last().push(c)), sep) == join(ws, sep).push(c),
{
    let u = ws.update(ws.len() - 1, ws.last().push(c));
    if ws.len() == 1 {
        assert(u[0] == ws[0].push(c));
    } else {
        assert(u.drop_last() =~= ws.drop_last());
        assert(join(u, sep) == join(ws.drop_last(), sep) + sep + ws.last().push(c));
        assert(join(ws.drop_last(), sep) + sep + ws.last().push(c) =~= (join(ws.drop_last(), sep)
            + sep + ws.last()).push(c));
    }
}

proof fn lemma_pieces_nonempty(t: Seq<char>, m: bool)
    requires
        t.len() > 0,
        !is_delim(m, t.last()),
    ensures
        pieces(t, m).len() > 0,
    decreases t.len(),
{
    if t.len() >= 2 && !is_delim(m, t[t.len() - 2]) {
        let d = t.drop_last();
        assert(d.last() == t[t.len() - 2]);
        lemma_pieces_nonempty(d, m);
    }
}

proof fn lemma_join_empty_iff(ws: Seq<Seq<char>>, sep: Seq<char>)
    requires
        forall|k: int| 0 <= k < ws.len() ==> (#[trigger] ws[k]).len() > 0,
    ensures
        (join(ws, sep).len() == 0) == (ws.len() == 0),
    decreases ws.len(),
{
    if ws.len() > 1 {
        assert(ws.last().len() > 0);
    } else if ws.len() == 1 {
        assert(ws[0].len() > 0);
    }
}

/// `split_whitespace().collect::<Vec<_>>().join(" ")` on a character sequence.
pub fn collapse_spaces_exec(s: &[char]) -> (r: Vec<char>)
    ensures
        r@ == collapse_spaces(s@),
{
    let mut out: Vec<char> = Vec::new();
    let mut i: usize = 0;
    let mut prev_space = true;
    while i < s.len()
        invariant
            i <= s@.len(),
            out@ == join(words(s@.take(i as int)), seq![' ']),
            forall|k: int|
                0 <= k < words(s@.take(i as int)).len() ==> (#[trigger] words(
                    s@.take(i as int),
                )[k]).len() > 0,
            prev_space == (i == 0 || is_space(s@[i - 1])),
        decreases s@.len() - i,
    {
        let ghost t = s@.take(i as int);
        let ghost t1 = s@.take(i + 1);
        proof {
            assert(t1.drop_last() =~= t);
            assert(t1.last() == s@[i as int]);
            if i >= 1 {
                assert(t1[t1.len() - 2] == s@[i - 1]);
            }
            lemma_join_empty_iff(words(t), seq![' ']);
        }
        let c = s[i];
        if is_space_exec(c) {
            prev_space = true;
        } else if !prev_space {
            proof {
                assert(t.last() == s@[i - 1]);
                lemma_pieces_nonempty(t, true);
                let w = words(t);
                assert(words(t1) == w.update(w.len() - 1, w.last().push(c)));
                assert forall|k: int| 0 <= k < words(t1).len() implies (#[trigger] words(t1)[k]).len() > 0 by {
                    if k < w.len() - 1 {
                        assert(words(t1)[k] == w[k]);
                    }
                }
                lemma_join_extend_last(words(t), c, seq![' ']);
            }
            out.push(c);
            prev_space = false;
        } else {
            proof {
                lemma_join_push(words(t), seq![c], seq![' ']);
                let w = words(t);
                assert(words(t1) == w.push(seq![c]));
                assert forall|k: int| 0 <= k < words(t1).len() implies (#[trigger] words(t1)[k]).len() > 0 by {
                    if k < w.len() {
                        assert(words(t1)[k] == w[k]);
                    }
                }
            }
            if out.len() > 0 {
                out.push(' ');
                out.push(c);
                assert(out@ =~= join(words(t), seq![' ']) + seq![' '] + seq![c]);
            } else {
                out.push(c);
                assert(out@ =~= seq![c]);
            }
            prev_space = false;
        }
        i += 1;
    }
    assert(s@.take(s@.len() as int) =~= s@);
    out
}

/// The views of a list of character vectors.
pub open spec fn views(v: Seq<Vec<char>>) -> Seq<Seq<char>> {
    v.map_values(|x: Vec<char>| x@)
}

pub fn is_delim_exec(space_mode: bool, c: char) -> (r: bool)
    ensures
        r == is_delim(space_mode, c),
{
    if space_mode {
        is_space_exec(c)
    } else {
        c == '/' || c == '\\'
    }
}

/// Splits `s` into its non-empty pieces (`split_whitespace`, or the
/// components of a path).
pub fn split_pieces(s: &[char], space_mode: bool) -> (r: Vec<Vec<char>>)
    ensures
        views(r@) == pieces(s@, space_mode),
{
    let mut r: Vec<Vec<char>> = Vec::new();
    let mut i: usize = 0;
    while i < s.len()
        invariant
            i <= s@.len(),
            views(r@) == pieces(s@.take(i as int), space_mode),
        decreases s@.len() - i,
    {
        proof {
            lemma_pieces_step(s@, i as int, space_mode);
        }
        let c = s[i];
        if is_delim_exec(space_mode, c) {
        } else if i >= 1 && !is_delim_exec(space_mode, s[i - 1]) {
            let last = r.len() - 1;
            let mut piece = r.remove(last);
            piece.push(c);
            r.push(piece);
            assert(views(r@) =~= pieces(s@.take(i + 1), space_mode));
        } else {
            let mut piece: Vec<char> = Vec::new();
            piece.push(c);
            r.push(piece);
            assert(views(r@) =~= pieces(s@.take(i + 1), space_mode));
        }
        i += 1;
    }
    assert(s@.take(s@.len() as int) =~= s@);
    r
}

/// Pieces joined with a separator.
pub fn join_exec(ws: &Vec<Vec<char>>, sep: &[char]) -> (r: Vec<char>)
    ensures
        r@ == join(views(ws@), sep@),
{
    let mut out: Vec<char> = Vec::new();
    let mut i: usize = 0;
    while i < ws.len()
        invariant
            i <= ws@.len(),
            out@ == join(views(ws@).take(i as int), sep@),
        decreases ws@.len() - i,
    {
        let ghost t = views(ws@).take(i as int);
        let ghost t1 = views(ws@).take(i + 1);
        assert(t1.drop_last() =~= t);
        assert(t1.last() == ws@[i as int]@);
        if i > 0 {
            append_chars(&mut out, sep);
        }
        append_chars(&mut out, ws[i].as_slice());
        proof {
            if i == 0 {
                assert(t1.len() == 1);
                assert(out@ =~= t1[0]);
            } else {
                assert(out@ =~= join(t, sep@) + sep@ + t1.last());
            }
        }
        i += 1;
    }
    assert(views(ws@).take(ws@.len() as int) =~= views(ws@));
    out
}

/// A copy of a list of strings, equal to it.
pub fn copy_strings(v: &Vec<String>) -> (r: Vec<String>)
    ensures
        r@ == v@,
{
    let mut out: Vec<String> = Vec::new();
    let mut i: usize = 0;
    while i < v.len()
        invariant
            i <= v@.len(),
            out@ == v@.take(i as int),
        decreases v@.len() - i,
    {
        out.push(v[i].clone());
        assert(v@.take(i + 1) =~= v@.take(i as int).push(v@[i as int]));
        i += 1;
    }
    assert(v@.take(v@.len() as int) =~= v@);
    out
}

/// The texts of a list of strings.
pub open spec fn string_views(s: Seq<String>) -> Seq<Seq<char>> {
    s.map_values(|x: String| x@)
}

/// The texts of a list of string slices.
pub open spec fn str_views(s: Seq<&str>) -> Seq<Seq<char>> {
    s.map_values(|x: &str| x@)
}

/// Owned strings holding the given texts.
pub fn strings_of(list: &[&str]) -> (r: Vec<String>)
    ensures
        string_views(r@) == str_views(list@),
{
    let mut out: Vec<String> = Vec::new();
    let mut i: usize = 0;
    while i < list.len()
        invariant
            i <= list@.len(),
            string_views(out@) == str_views(list@.take(i as int)),
        decreases list@.len() - i,
    {
        let ghost before = out@;
        let s = owned(list[i]);
        out.push(s);
        assert(list@.take(i + 1) =~= list@.take(i as int).push(list@[i as int]));
        assert(string_views(out@) =~= string_views(before).push(s@));
        assert(str_views(list@.take(i + 1)) =~= str_views(list@.take(i as int)).push(list@[i as int]@));
        i += 1;
    }
    assert(list@.take(list@.len() as int) =~= list@);
    out
}

/// The decimal text of a signed number.
pub open spec fn signed_decimal(n: int) -> Seq<char> {
    if n < 0 {
        seq!['-'] + decimal((-n) as nat)
    } else {
        decimal(n as nat)
    }
}

/// Appends the decimal text of a signed number.
pub fn push_signed(out: &mut Vec<char>, n: i64)
    ensures
        final(out)@ == old(out)@ + signed_decimal(n as int),
{
    if n < 0 {
        out.push('-');
        let m: u64 = if n == i64::MIN { 9223372036854775808u64 } else { (-n) as u64 };
        push_decimal(out, m);
        assert(old(out)@.push('-') + decimal(m as nat) =~= old(out)@ + (seq!['-'] + decimal(m as nat)));
    } else {
        push_decimal(out, n as u64);
    }
}

/// The characters of each string.
pub fn char_vecs(v: &[String]) -> (r: Vec<Vec<char>>)
    ensures
        views(r@) == string_views(v@),
{
    let mut out: Vec<Vec<char>> = Vec::new();
    let mut i: usize = 0;
    while i < v.len()
        invariant
            i <= v@.len(),
            views(out@) == string_views(v@.take(i as int)),
        decreases v@.len() - i,
    {
        let ghost before = out@;
        let cs = chars_of(v[i].as_str());
        out.push(cs);
        assert(views(out@) =~= views(before).push(v@[i as int]@));
        assert(string_views(v@.take(i + 1)) =~= string_views(v@.take(i as int)).push(v@[i as int]@));
        i += 1;
    }
    assert(v@.take(v@.len() as int) =~= v@);
    out
}

/// `str::split(c)`: the parts between the separators, empty ones kept.
pub open spec fn split_on(s: Seq<char>, c: char) -> Seq<Seq<char>>
    decreases s.len(),
{
    if s.len() == 0 {
        seq![Seq::empty()]
    } else {
        let t = split_on(s.drop_last(), c);
        if s.last() == c {
            t.push(Seq::empty())
        } else {
            t.update(t.len() - 1, t.last().push(s.last()))
        }
    }
}

pub proof fn lemma_split_on_len(s: Seq<char>, c: char)
    ensures
        split_on(s, c).len() >= 1,
    decreases s.len(),
{
    if s.len() > 0 {
        lemma_split_on_len(s.drop_last(), c);
    }
}

/// The parts of `s` between the separators `c`, empty ones kept.
pub fn split_on_exec(s: &[char], c: char) -> (r: Vec<Vec<char>>)
    ensures
        views(r@) == split_on(s@, c),
{
    let mut out: Vec<Vec<char>> = Vec::new();
    let mut cur: Vec<char> = Vec::new();
    let mut i: usize = 0;
    assert(s@.take(0) =~= Seq::<char>::empty());
    assert(views(out@).push(cur@) =~= seq![Seq::<char>::empty()]);
    while i < s.len()
        invariant
            i <= s@.len(),
            views(out@).push(cur@) == split_on(s@.take(i as int), c),
        decreases s@.len() - i,
    {
        let ghost t = split_on(s@.take(i as int), c);
        assert(s@.take(i + 1).drop_last() =~= s@.take(i as int));
        assert(s@.take(i + 1).last() == s@[i as int]);
        let ghost before = views(out@);
        if s[i] == c {
            let done = cur;
            out.push(done);
            cur = Vec::new();
            assert(views(out@) =~= before.push(done@));
            assert(views(out@).push(cur@) =~= t.push(Seq::<char>::empty()));
        } else {
            cur.push(s[i]);
            assert(views(out@) =~= before);
            assert(views(out@).push(cur@) =~= t.update(t.len() - 1, t.last().push(s@[i as int])));
        }
        i += 1;
    }
    assert(s@.take(s@.len() as int) =~= s@);
    let ghost before = views(out@);
    out.push(cur);
    assert(views(out@) =~= before.push(cur@));
    out
}

pub open spec fn is_digit(c: char) -> bool {
    '0' <= c && c <= '9'
}

pub open spec fn all_digits(d: Seq<char>) -> bool {
    forall|i: int| 0 <= i < d.len() ==> is_digit(#[trigger] d[i])
}

/// The number the decimal digits spell.
pub open spec fn digits_value(d: Seq<char>) -> nat
    decreases d.len(),
{
    if d.len() == 0 {
        0
    } else {
        digits_value(d.drop_last()) * 10 + ((d.last() as int - '0' as int) as nat)
    }
}

/// `u64::from_str`: an optional `+`, then one or more decimal digits
/// spelling a number that fits.
pub open spec fn parse_u64(s: Seq<char>) -> Option<nat> {
    let d = if s.len() > 0 && s[0] == '+' { s.skip(1) } else { s };
    if d.len() > 0 && all_digits(d) && digits_value(d) <= u64::MAX {
        Some(digits_value(d))
    } else {
        None
    }
}

proof fn lemma_digits_value_grows(d: Seq<char>, i: int)
    requires
        0 <= i <= d.len(),
        all_digits(d),
    ensures
        digits_value(d.take(i)) <= digits_value(d),
    decreases d.len(),
{
    if i < d.len() {
        assert(all_digits(d.drop_last()));
        assert(d.drop_last().take(i) =~= d.take(i));
        lemma_digits_value_grows(d.drop_last(), i);
    } else {
        assert(d.take(i) =~= d);
    }
}

/// `u64::from_str`.
pub fn parse_u64_exec(s: &[char]) -> (r: Option<u64>)
    ensures
        match parse_u64(s@) {
            Some(v) => r == Some(v as u64),
            None => r is None,
        },
{
    let start: usize = if s.len() > 0 && s[0] == '+' { 1 } else { 0 };
    let ghost d = if s@.len() > 0 && s@[0] == '+' { s@.skip(1) } else { s@ };
    assert(d =~= s@.skip(start as int));
    if start >= s.len() {
        return None;
    }
    let mut value: u64 = 0;
    let mut i: usize = start;
    while i < s.len()
        invariant
            start <= i <= s@.len(),
            start < s@.len(),
            d == s@.skip(start as int),
            d == (if s@.len() > 0 && s@[0] == '+' { s@.skip(1) } else { s@ }),
            all_digits(d.take(i - start)),
            value == digits_value(d.take(i - start)),
        decreases s@.len() - i,
    {
        let k = i - start;
        assert(d.take(k + 1).drop_last() =~= d.take(k as int));
        assert(d.take(k + 1).last() == s@[i as int]);
        let c = s[i];
        if !('0' <= c && c <= '9') {
            assert(!all_digits(d)) by {
                assert(d[k as int] == c);
            }
            return None;
        }
        let digit: u64 = (c as u32 - '0' as u32) as u64;
        assert(digit == (c as int - '0' as int));
        match value.checked_mul(10) {
            None => {
                assert(digits_value(d.take(k + 1)) > u64::MAX);
                proof {
                    if all_digits(d) {
                        lemma_digits_value_grows(d, k + 1);
                    }
                }
                return None;
            },
            Some(tens) => match tens.checked_add(digit) {
                None => {
                    assert(digits_value(d.take(k + 1)) > u64::MAX);
                    proof {
                        if all_digits(d) {
                            lemma_digits_value_grows(d, k + 1);
                        }
                    }
                    return None;
                },
                Some(next) => {
                    value = next;
                },
            },
        }
        assert(all_digits(d.take(k + 1))) by {
            assert forall|j: int| 0 <= j < k + 1 implies is_digit(#[trigger] d.take(k + 1)[j]) by {
                if j < k {
                    assert(d.take(k + 1)[j] == d.take(k as int)[j]);
                }
            }
        }
        i += 1;
    }
    assert(d.take(s@.len() - start) =~= d);
    Some(value)
}

/// `str::replace`: every occurrence of `p`, scanning left to right without
/// overlaps, replaced by `r`.
pub open spec fn replace_all(s: Seq<char>, p: Seq<char>, r: Seq<char>) -> Seq<char>
    decreases s.len(),
{
    if p.len() == 0 || s.len() < p.len() {
        s
    } else if s.subrange(0, p.len() as int) == p {
        r + replace_all(s.skip(p.len() as int), p, r)
    } else {
        seq![s[0]] + replace_all(s.skip(1), p, r)
    }
}

pub fn replace_all_exec(s: &[char], p: &[char], r: &[char]) -> (out: Vec<char>)
    requires
        p@.len() > 0,
    ensures
        out@ == replace_all(s@, p@, r@),
{
    let n = s.len();
    let m = p.len();
    let mut out: Vec<char> = Vec::new();
    let mut i: usize = 0;
    assert(s@.skip(0) =~= s@);
    while i < n
        invariant
            i <= n,
            n == s@.len(),
            m == p@.len(),
            m > 0,
            out@ + replace_all(s@.skip(i as int), p@, r@) == replace_all(s@, p@, r@),
        decreases n - i,
    {
        let ghost rest = s@.skip(i as int);
        let ghost before = out@;
        if n - i < m {
            let mut j: usize = i;
            while j < n
                invariant
                    i <= j <= n,
                    n == s@.len(),
                    out@ == before + s@.subrange(i as int, j as int),
                decreases n - j,
            {
                out.push(s[j]);
                assert(s@.subrange(i as int, j + 1) =~= s@.subrange(i as int, j as int).push(s@[j as int]));
                j += 1;
            }
            assert(s@.subrange(i as int, n as int) =~= rest);
            i = n;
            assert(s@.skip(n as int) =~= Seq::<char>::empty());
            assert(out@ + replace_all(s@.skip(i as int), p@, r@) =~= before + rest);
        } else if occurs_at_exec(s, p, i) {
            assert(rest.subrange(0, m as int) =~= s@.subrange(i as int, i + m));
            assert(rest.skip(m as int) =~= s@.skip(i + m));
            append_chars(&mut out, r);
            i += m;
            assert(before + (r@ + replace_all(s@.skip(i as int), p@, r@)) =~= out@ + replace_all(s@.skip(i as int), p@, r@));
        } else {
            assert(rest.subrange(0, m as int) != p@) by {
                if rest.subrange(0, m as int) == p@ {
                    assert(s@.subrange(i as int, i + m) =~= rest.subrange(0, m as int));
                }
            }
            assert(rest.skip(1) =~= s@.skip(i + 1));
            assert(rest[0] == s@[i as int]);
            out.push(s[i]);
            i += 1;
            assert(before + (seq![rest[0]] + replace_all(s@.skip(i as int), p@, r@)) =~= out@ + replace_all(s@.skip(i as int), p@, r@));
        }
    }
    assert(s@.skip(n as int) =~= Seq::<char>::empty());
    assert(out@ + Seq::<char>::empty() =~= out@);
    out
}

/// The character does not occur in the text.
pub open spec fn lacks_char(s: Seq<char>, c: char) -> bool {
    forall|i: int| 0 <= i < s.len() ==> s[i] != c
}

/// No part of a split holds the separator.
pub proof fn lemma_split_on_parts(s: Seq<char>, c: char)
    ensures
        forall|k: int| 0 <= k < split_on(s, c).len() ==> lacks_char(#[trigger] split_on(s, c)[k], c),
    decreases s.len(),
{
    if s.len() > 0 {
        lemma_split_on_parts(s.drop_last(), c);
        lemma_split_on_len(s.drop_last(), c);
        let t = split_on(s.drop_last(), c);
        if s.last() != c {
            assert forall|k: int| 0 <= k < split_on(s, c).len() implies lacks_char(#[trigger] split_on(s, c)[k], c) by {
                if k == t.len() - 1 {
                    let l = t.last().push(s.last());
                    assert forall|i: int| 0 <= i < l.len() implies l[i] != c by {
                        if i < t.last().len() {
                            assert(l[i] == t.last()[i]);
                        }
                    }
                }
            }
        }
    }
}

/// A text without the separator is one part.
pub proof fn lemma_split_on_single(s: Seq<char>, c: char)
    requires
        lacks_char(s, c),
    ensures
        split_on(s, c) == seq![s],
    decreases s.len(),
{
    if s.len() == 0 {
        assert(s =~= Seq::<char>::empty());
        assert(split_on(s, c) =~= seq![s]);
    } else {
        assert(lacks_char(s.drop_last(), c));
        lemma_split_on_single(s.drop_last(), c);
        assert(s.last() == s[s.len() - 1]);
        assert(s.last() != c);
        let t = split_on(s.drop_last(), c);
        assert(t == seq![s.drop_last()]);
        assert(split_on(s, c) == t.update(t.len() - 1, t.last().push(s.last())));
        assert(s.drop_last().push(s.last()) =~= s);
        assert(split_on(s, c) =~= seq![s]);
    }
}

/// Splitting around one separator splits the two sides apart.
pub proof fn lemma_split_on_concat(a: Seq<char>, b: Seq<char>, c: char)
    ensures
        split_on(a + seq![c] + b, c) == split_on(a, c) + split_on(b, c),
    decreases b.len(),
{
    let s = a + seq![c] + b;
    if b.len() == 0 {
        assert(s.drop_last() =~= a);
        assert(split_on(b, c) =~= seq![Seq::<char>::empty()]);
        assert(split_on(s, c) =~= split_on(a, c) + split_on(b, c));
    } else {
        lemma_split_on_concat(a, b.drop_last(), c);
        lemma_split_on_len(b.drop_last(), c);
        assert(s.drop_last() =~= a + seq![c] + b.drop_last());
        let t1 = split_on(a, c);
        let t2 = split_on(b.drop_last(), c);
        if b.last() == c {
            assert(split_on(s, c) =~= split_on(a, c) + split_on(b, c));
        } else {
            let t = t1 + t2;
            assert(t.update(t.len() - 1, t.last().push(b.last())) =~= t1 + t2.update(t2.len() - 1, t2.last().push(b.last())));
            assert(split_on(s, c) =~= split_on(a, c) + split_on(b, c));
        }
    }
}

/// Joining parts free of the separator and splitting again gives the parts.
pub proof fn lemma_split_on_join(ls: Seq<Seq<char>>, c: char)
    requires
        ls.len() >= 1,
        forall|k: int| 0 <= k < ls.len() ==> lacks_char(#[trigger] ls[k], c),
    ensures
        split_on(join(ls, seq![c]), c) == ls,
    decreases ls.len(),
{
    if ls.len() == 1 {
        assert(lacks_char(ls[0], c));
        lemma_split_on_single(ls[0], c);
        assert(seq![ls[0]] =~= ls);
    } else {
        let prev = ls.drop_last();
        assert forall|k: int| 0 <= k < prev.len() implies lacks_char(#[trigger] prev[k], c) by {
            assert(prev[k] == ls[k]);
        }
        lemma_split_on_join(prev, c);
        assert(lacks_char(ls.last(), c));
        lemma_split_on_single(ls.last(), c);
        lemma_split_on_concat(join(prev, seq![c]), ls.last(), c);
        assert(join(ls, seq![c]) == join(prev, seq![c]) + seq![c] + ls.last());
        assert(prev + seq![ls.last()] =~= ls);
    }
}

/// A replacement adds no character that neither the text nor the
/// replacement holds.
pub proof fn lemma_replace_all_lacks(s: Seq<char>, p: Seq<char>, r: Seq<char>, c: char)
    requires
        lacks_char(s, c),
        lacks_char(r, c),
    ensures
        lacks_char(replace_all(s, p, r), c),
    decreases s.len(),
{
    if p.len() == 0 || s.len() < p.len() {
    } else if s.subrange(0, p.len() as int) == p {
        let rest = s.skip(p.len() as int);
        assert(lacks_char(rest, c)) by {
            assert forall|i: int| 0 <= i < rest.len() implies rest[i] != c by {
                assert(rest[i] == s[i + p.len()]);
            }
        }
        lemma_replace_all_lacks(rest, p, r, c);
        let out = r + replace_all(rest, p, r);
        assert forall|i: int| 0 <= i < out.len() implies out[i] != c by {
            if i >= r.len() {
                assert(out[i] == replace_all(rest, p, r)[i - r.len()]);
            }
        }
    } else {
        let rest = s.skip(1);
        assert(lacks_char(rest, c)) by {
            assert forall|i: int| 0 <= i < rest.len() implies rest[i] != c by {
                assert(rest[i] == s[i + 1]);
            }
        }
        lemma_replace_all_lacks(rest, p, r, c);
        let out = seq![s[0]] + replace_all(rest, p, r);
        assert forall|i: int| 0 <= i < out.len() implies out[i] != c by {
            if i >= 1 {
                assert(out[i] == replace_all(rest, p, r)[i - 1]);
            }
        }
    }
}

} // verus!

//! Reusing an earlier scan: a scan result is kept per root, under a key
//! made from the root's name, and is reused while the settings and the
//! volume's change journal are as they were.

use vstd::prelude::*;
use crate::hashing::{blake3_hex, root_cache_key};
use crate::remote::first_index;
use crate::text::{append_str, chars_of, contains, contains_lit, eq_chars, string_of, trim, trim_chars};
use vstd::string::StringSliceAdditionalSpecFns;

verus! {

/// Where a volume's change journal stood: its identity and next entry.
#[derive(Clone, Debug)]
pub struct UsnJournalSnapshot {
    pub volume: String,
    pub journal_id: String,
    pub next_usn: String,
}

/// An ASCII letter in upper case; any other character unchanged.
pub open spec fn upper_ascii(c: char) -> char {
    if 'a' <= c && c <= 'z' {
        ((c as u32 - 32) as u8) as char
    } else {
        c
    }
}

/// The volume of a Windows path: its drive letter, upper-cased, and the
/// colon; `None` where the path does not start with one.
pub open spec fn volume_arg(p: Seq<char>) -> Option<Seq<char>> {
    if p.len() >= 2 && (p[0] as u32) < 128 && p[1] == ':' {
        Some(seq![upper_ascii(p[0]), ':'])
    } else {
        None
    }
}

/// The volume of a Windows path, as the journal query takes it.
pub fn windows_volume_arg(root: &str) -> (r: Option<String>)
    ensures
        match r {
            Some(v) => volume_arg(root@) == Some(v@),
            None => volume_arg(root@) is None,
        },
{
    let v = chars_of(root);
    if v.len() < 2 || !((v[0] as u32) < 128) || v[1] != ':' {
        return None;
    }
    let c = v[0];
    let up = if 'a' <= c && c <= 'z' { ((c as u32 - 32) as u8) as char } else { c };
    let mut out: Vec<char> = Vec::new();
    out.push(up);
    out.push(':');
    assert(out@ =~= seq![upper_ascii(v@[0]), ':']);
    Some(string_of(out.as_slice()))
}

/// The lines of a text, split at each newline.
pub open spec fn split_lines(s: Seq<char>) -> Seq<Seq<char>>
    decreases s.len(),
{
    if s.len() == 0 {
        seq![Seq::empty()]
    } else {
        let t = split_lines(s.drop_last());
        if s.last() == '\n' {
            t.push(Seq::empty())
        } else {
            t.update(t.len() - 1, t.last().push(s.last()))
        }
    }
}

proof fn lemma_split_lines_len(s: Seq<char>)
    ensures
        split_lines(s).len() >= 1,
    decreases s.len(),
{
    if s.len() > 0 {
        lemma_split_lines_len(s.drop_last());
    }
}

/// What a line of the journal query says: the journal's identity, or its
/// next entry, or neither. A line is a key, a colon, and a value.
pub open spec fn usn_step(state: (Option<Seq<char>>, Option<Seq<char>>), line: Seq<char>) -> (Option<Seq<char>>, Option<Seq<char>>) {
    let c = first_index(line, ':');
    if c < 0 {
        state
    } else {
        let key = trim(line.take(c));
        let value = trim(line.skip(c + 1));
        if contains(key, "Journal ID"@) {
            (Some(value), state.1)
        } else if contains(key, "Next Usn"@) {
            (state.0, Some(value))
        } else {
            state
        }
    }
}

/// The journal's identity and next entry as the query's lines give them,
/// the last line of each kind counting.
pub open spec fn usn_fold(lines: Seq<Seq<char>>) -> (Option<Seq<char>>, Option<Seq<char>>)
    decreases lines.len(),
{
    if lines.len() == 0 {
        (None, None)
    } else {
        usn_step(usn_fold(lines.drop_last()), lines.last())
    }
}

fn first_colon(line: &[char]) -> (r: Option<usize>)
    ensures
        match r {
            Some(i) => i == first_index(line@, ':') && i < line@.len(),
            None => first_index(line@, ':') < 0,
        },
{
    let mut i: usize = 0;
    while i < line.len()
        invariant
            i <= line@.len(),
            first_index(line@.take(i as int), ':') == -1,
        decreases line@.len() - i,
    {
        assert(line@.take(i + 1).drop_last() =~= line@.take(i as int));
        if line[i] == ':' {
            proof {
                lemma_first_index_prefix_local(line@, i + 1);
            }
            return Some(i);
        }
        i += 1;
    }
    assert(line@.take(line@.len() as int) =~= line@);
    None
}

proof fn lemma_first_index_prefix_local(s: Seq<char>, m: int)
    requires
        0 <= m <= s.len(),
        first_index(s.take(m), ':') >= 0,
    ensures
        first_index(s, ':') == first_index(s.take(m), ':'),
    decreases s.len(),
{
    if m == s.len() {
        assert(s.take(m) =~= s);
    } else {
        assert(s.drop_last().take(m) =~= s.take(m));
        lemma_first_index_prefix_local(s.drop_last(), m);
    }
}

fn usn_line(state: (Option<Vec<char>>, Option<Vec<char>>), line: &[char]) -> (r: (Option<Vec<char>>, Option<Vec<char>>))
    ensures
        (opt_view(r.0), opt_view(r.1)) == usn_step((opt_view(state.0), opt_view(state.1)), line@),
{
    let c = match first_colon(line) {
        Some(c) => c,
        None => {
            return state;
        },
    };
    let mut key: Vec<char> = Vec::new();
    let mut i: usize = 0;
    while i < c
        invariant
            i <= c < line@.len(),
            key@ =~= line@.take(i as int),
        decreases c - i,
    {
        key.push(line[i]);
        i += 1;
    }
    let mut value: Vec<char> = Vec::new();
    let len = line.len();
    assert(c < len);
    let mut k: usize = c + 1;
    while k < line.len()
        invariant
            c + 1 <= k <= line@.len(),
            value@ =~= line@.subrange(c + 1, k as int),
        decreases line@.len() - k,
    {
        value.push(line[k]);
        k += 1;
    }
    assert(value@ =~= line@.skip(c + 1));
    let key = trim_chars(key.as_slice());
    let value = trim_chars(value.as_slice());
    if contains_lit(key.as_slice(), "Journal ID") {
        (Some(value), state.1)
    } else if contains_lit(key.as_slice(), "Next Usn") {
        (state.0, Some(value))
    } else {
        state
    }
}

pub open spec fn opt_view(o: Option<Vec<char>>) -> Option<Seq<char>> {
    match o {
        Some(v) => Some(v@),
        None => None,
    }
}

/// Reads the journal query's output for a volume: the snapshot where it
/// names both the journal and its next entry.
pub fn parse_usn_journal(volume: &str, output: &str) -> (r: Option<UsnJournalSnapshot>)
    ensures
        match usn_fold(split_lines(output@)) {
            (Some(j), Some(n)) => r matches Some(s) && s.volume@ == volume@ && s.journal_id@ == j && s.next_usn@ == n,
            _ => r is None,
        },
{
    let text = chars_of(output);
    let mut state: (Option<Vec<char>>, Option<Vec<char>>) = (None, None);
    let mut cur: Vec<char> = Vec::new();
    let mut i: usize = 0;
    proof {
        assert(text@.take(0) =~= Seq::<char>::empty());
    }
    while i < text.len()
        invariant
            i <= text@.len(),
            split_lines(text@.take(i as int)).len() >= 1,
            split_lines(text@.take(i as int)).last() == cur@,
            (opt_view(state.0), opt_view(state.1)) == usn_fold(split_lines(text@.take(i as int)).drop_last()),
        decreases text@.len() - i,
    {
        let ghost t = split_lines(text@.take(i as int));
        assert(text@.take(i + 1).drop_last() =~= text@.take(i as int));
        assert(text@.take(i + 1).last() == text@[i as int]);
        if text[i] == '\n' {
            state = usn_line(state, cur.as_slice());
            cur = Vec::new();
            assert(split_lines(text@.take(i + 1)) == t.push(Seq::empty()));
            assert(t.push(Seq::<char>::empty()).drop_last() =~= t);
            assert(t =~= t.drop_last().push(t.last()));
        } else {
            cur.push(text[i]);
            assert(split_lines(text@.take(i + 1)) == t.update(t.len() - 1, t.last().push(text@[i as int])));
            assert(t.update(t.len() - 1, t.last().push(text@[i as int])).drop_last() =~= t.drop_last());
        }
        i += 1;
    }
    assert(text@.take(text@.len() as int) =~= text@);
    let ghost t = split_lines(text@);
    assert(t =~= t.drop_last().push(t.last()));
    let (j, n) = usn_line(state, cur.as_slice());
    match (j, n) {
        (Some(j), Some(n)) => Some(UsnJournalSnapshot {
            volume: crate::text::owned(volume),
            journal_id: string_of(j.as_slice()),
            next_usn: string_of(n.as_slice()),
        }),
        _ => None,
    }
}

/// Whether two snapshots are alike in every part.
pub open spec fn same_snapshot(a: UsnJournalSnapshot, b: UsnJournalSnapshot) -> bool {
    a.volume@ == b.volume@ && a.journal_id@ == b.journal_id@ && a.next_usn@ == b.next_usn@
}

fn same_text(a: &String, b: &String) -> (r: bool)
    ensures
        r == (a@ == b@),
{
    eq_chars(chars_of(a.as_str()).as_slice(), chars_of(b.as_str()).as_slice())
}

/// Whether a kept scan result may be reused: it was made with the same
/// settings, and the volume's journal has not moved since.
pub fn cached_report_usable(
    kept_signature: &String,
    current_signature: &String,
    kept: &UsnJournalSnapshot,
    current: &UsnJournalSnapshot,
) -> (r: bool)
    ensures
        r == (kept_signature@ == current_signature@ && same_snapshot(*kept, *current)),
{
    same_text(kept_signature, current_signature)
        && same_text(&kept.volume, &current.volume)
        && same_text(&kept.journal_id, &current.journal_id)
        && same_text(&kept.next_usn, &current.next_usn)
}

/// The file a scan result of the root is kept in.
pub fn report_cache_file(root: &str) -> (r: String)
    ensures
        r@ == "scan-report-"@ + blake3_hex(root.spec_bytes()) + ".json"@,
{
    let key = root_cache_key(root);
    let mut v = chars_of("scan-report-");
    append_str(&mut v, key.as_str());
    append_str(&mut v, ".json");
    string_of(v.as_slice())
}

/// The file the remembered hashes of the root are kept in.
pub fn hash_cache_file(root: &str) -> (r: String)
    ensures
        r@ == "hash-cache-"@ + blake3_hex(root.spec_bytes()) + ".json"@,
{
    let key = root_cache_key(root);
    let mut v = chars_of("hash-cache-");
    append_str(&mut v, key.as_str());
    append_str(&mut v, ".json");
    string_of(v.as_slice())
}

} // verus!

//! Settings and request shaping for the optional OpenAI-compatible advisor.

use vstd::prelude::*;
use crate::order::{lemma_text_order_eq, lemma_text_order_trans, text_order_exec};
use crate::paths::text_order;
use crate::text::{
    append_chars, chars_of, ends_with, string_of, trim, trim_str,
};

verus! {

/// Settings of the remote advisor.
#[derive(Clone, Debug)]
pub struct AdvisorConfig {
    pub api_key: Option<String>,
    pub base_url: String,
    pub model: String,
    pub max_items: usize,
    pub strict_file_ai_remote_only: bool,
}

/// `trim_end_matches('/')`.
pub open spec fn strip_trailing_slashes(s: Seq<char>) -> Seq<char>
    decreases s.len(),
{
    if s.len() > 0 && s.last() == '/' {
        strip_trailing_slashes(s.drop_last())
    } else {
        s
    }
}

/// The endpoint URL: the trimmed base without trailing slashes, then
/// `/v1/` unless the base already ends in `/v1`, then the endpoint.
pub open spec fn endpoint_url(base: Seq<char>, endpoint: Seq<char>) -> Seq<char> {
    let t = strip_trailing_slashes(trim(base));
    if ends_with(t, seq!['/', 'v', '1']) {
        t + seq!['/'] + endpoint
    } else {
        t + seq!['/', 'v', '1', '/'] + endpoint
    }
}

pub fn build_compatible_endpoint(base_url: &str, endpoint: &str) -> (r: String)
    ensures
        r@ == endpoint_url(base_url@, endpoint@),
{
    let mut t = trim_str(base_url);
    let ghost t0 = t@;
    assert(strip_trailing_slashes(t0) == strip_trailing_slashes(t@));
    while t.len() > 0 && t[t.len() - 1] == '/'
        invariant
            strip_trailing_slashes(t0) == strip_trailing_slashes(t@),
        decreases t@.len(),
    {
        let ghost before = t@;
        t.pop();
        assert(t@ =~= before.drop_last());
    }
    let mut out: Vec<char> = Vec::new();
    append_chars(&mut out, t.as_slice());
    let v1: Vec<char> = vec!['/', 'v', '1'];
    let ends_v1 = crate::text::ends_with_chars(t.as_slice(), v1.as_slice());
    assert(v1@ =~= seq!['/', 'v', '1']);
    if ends_v1 {
        out.push('/');
    } else {
        out.push('/');
        out.push('v');
        out.push('1');
        out.push('/');
    }
    let e = chars_of(endpoint);
    append_chars(&mut out, e.as_slice());
    assert(out@ =~= endpoint_url(base_url@, endpoint@));
    string_of(out.as_slice())
}

/// The answer when no API key is configured.
pub const MISSING_KEY: &'static str = "请先配置 AI API Key。";

/// The configured API key, trimmed, or the request to configure one.
pub fn configured_api_key(config: &AdvisorConfig) -> (r: Result<String, String>)
    ensures
        match config.api_key {
            Some(k) => if trim(k@).len() > 0 {
                r matches Ok(v) && v@ == trim(k@)
            } else {
                r matches Err(e) && e@ == MISSING_KEY@
            },
            None => r matches Err(e) && e@ == MISSING_KEY@,
        },
{
    match &config.api_key {
        Some(key) => {
            let t = trim_str(key.as_str());
            if t.len() > 0 {
                Ok(string_of(t.as_slice()))
            } else {
                Err(crate::text::owned(MISSING_KEY))
            }
        },
        None => Err(crate::text::owned(MISSING_KEY)),
    }
}

/// One entry of a model listing: an object with an `id`, an object with a
/// `name`, or a bare string.
#[derive(Clone, Debug)]
pub enum ModelEntry {
    WithId { id: String },
    WithName { name: String },
    Plain(String),
}

pub open spec fn entry_id(e: ModelEntry) -> Seq<char> {
    match e {
        ModelEntry::WithId { id } => id@,
        ModelEntry::WithName { name } => name@,
        ModelEntry::Plain(value) => value@,
    }
}

impl ModelEntry {
    /// The model id that the entry carries.
    pub fn into_id(self) -> (r: Option<String>)
        ensures
            r matches Some(v) && v@ == entry_id(self),
    {
        match self {
            ModelEntry::WithId { id } => Some(id),
            ModelEntry::WithName { name } => Some(name),
            ModelEntry::Plain(value) => Some(value),
        }
    }
}

/// Strictly increasing in text order, so free of repeats.
pub open spec fn strictly_sorted(v: Seq<Seq<char>>) -> bool {
    forall|i: int, j: int| 0 <= i < j < v.len() ==> text_order(v[i], v[j]) < 0
}

/// The ids that a listing names: each entry's id trimmed, blanks dropped.
pub open spec fn id_set(entries: Seq<ModelEntry>) -> Set<Seq<char>>
    decreases entries.len(),
{
    if entries.len() == 0 {
        Set::empty()
    } else {
        let rest = id_set(entries.drop_last());
        let t = trim(entry_id(entries.last()));
        if t.len() > 0 {
            rest.insert(t)
        } else {
            rest
        }
    }
}

/// The listed model ids: the id set of the listing, each id once, in text
/// order (the order of a `BTreeSet<String>`).
pub open spec fn model_ids_of(entries: Seq<ModelEntry>, ids: Seq<Seq<char>>) -> bool {
    &&& strictly_sorted(ids)
    &&& ids.to_set() == id_set(entries)
}

fn text_less(a: &str, b: &[char]) -> (r: bool)
    ensures
        r == (text_order(a@, b@) < 0),
{
    let ac = chars_of(a);
    text_order_exec(ac.as_slice(), b) < 0
}

/// The views of a list of strings.
pub open spec fn strs(v: Seq<String>) -> Seq<Seq<char>> {
    v.map_values(|s: String| s@)
}

/// `after` holds what `before` holds and `x`, and nothing else.
pub open spec fn added(before: Seq<Seq<char>>, after: Seq<Seq<char>>, x: Seq<char>) -> bool {
    after.to_set() == before.to_set().insert(x)
}

fn insert_sorted(ids: &mut Vec<String>, x: String)
    requires
        strictly_sorted(strs(old(ids)@)),
    ensures
        strictly_sorted(strs(final(ids)@)),
        added(strs(old(ids)@), strs(final(ids)@), x@),
{
    let ghost before = strs(ids@);
    let xc = chars_of(x.as_str());
    let mut i: usize = 0;
    while i < ids.len() && text_less(ids[i].as_str(), xc.as_slice())
        invariant
            i <= ids@.len(),
            strs(ids@) == before,
            strictly_sorted(before),
            xc@ == x@,
            forall|j: int| 0 <= j < i ==> text_order(before[j], x@) < 0,
        decreases ids@.len() - i,
    {
        assert(before[i as int] == ids@[i as int]@);
        i += 1;
    }
    if i < ids.len() {
        assert(before[i as int] == ids@[i as int]@);
        let yc = chars_of(ids[i].as_str());
        if crate::text::eq_chars(yc.as_slice(), xc.as_slice()) {
            proof {
                assert(before[i as int] == x@);
                assert(before.contains(x@));
                assert(before.to_set().insert(x@) =~= before.to_set());
            }
            return;
        }
        proof {
            lemma_text_order_eq(before[i as int], x@);
            assert(text_order(x@, before[i as int]) < 0);
        }
    }
    proof {
        assert forall|j: int| i <= j < before.len() implies text_order(x@, before[j]) < 0 by {
            if j > i {
                lemma_text_order_trans(x@, before[i as int], before[j]);
            }
        }
    }
    let ghost xv = x@;
    ids.insert(i, x);
    proof {
        let after = strs(ids@);
        assert(ids@[i as int]@ == xv);
        assert(after =~= before.insert(i as int, x@));
        assert forall|a: int, b: int| 0 <= a < b < after.len() implies text_order(after[a], after[b]) < 0 by {
            if a < i && b > i {
                lemma_text_order_trans(before[a], x@, before[b - 1]);
            }
        }
        assert(after[i as int] == xv);
        assert forall|v: Seq<char>| after.contains(v) <==> (v == xv || before.contains(v)) by {
            if after.contains(v) {
                let k = choose|k: int| 0 <= k < after.len() && after[k] == v;
                if k < i {
                    assert(before[k] == v);
                } else if k > i {
                    assert(before[k - 1] == v);
                }
            }
            if before.contains(v) {
                let j = choose|j: int| 0 <= j < before.len() && before[j] == v;
                if j < i {
                    assert(after[j] == v);
                } else {
                    assert(after[j + 1] == v);
                }
            }
            if v == xv {
                assert(after[i as int] == v);
            }
        }
        assert(after.to_set() =~= before.to_set().insert(xv));
    }
}

fn entry_id_ref(e: &ModelEntry) -> (r: &String)
    ensures
        r@ == entry_id(*e),
{
    match e {
        ModelEntry::WithId { id } => id,
        ModelEntry::WithName { name } => name,
        ModelEntry::Plain(value) => value,
    }
}

/// `normalize_model_ids`: the model ids of a listing, trimmed, without
/// blanks or repeats, in text order.
pub fn normalize_model_ids(entries: Vec<ModelEntry>) -> (r: Vec<String>)
    ensures
        model_ids_of(entries@, strs(r@)),
{
    let mut ids: Vec<String> = Vec::new();
    let n = entries.len();
    let mut i: usize = 0;
    assert(entries@.take(0) =~= Seq::<ModelEntry>::empty());
    assert(strs(ids@) =~= Seq::<Seq<char>>::empty());
    assert(strs(ids@).to_set() =~= Set::<Seq<char>>::empty());
    while i < n
        invariant
            n == entries@.len(),
            i <= n,
            model_ids_of(entries@.take(i as int), strs(ids@)),
        decreases n - i,
    {
        assert(entries@.take(i + 1).drop_last() =~= entries@.take(i as int));
        assert(entries@.take(i + 1).last() == entries@[i as int]);
        let id = entry_id_ref(&entries[i]);
        let t = trim_str(id.as_str());
        if t.len() > 0 {
            let x = string_of(t.as_slice());
            insert_sorted(&mut ids, x);
        }
        i += 1;
    }
    assert(entries@.take(n as int) =~= entries@);
    ids
}

/// The position of the first `c` in `s`, or -1.
pub open spec fn first_index(s: Seq<char>, c: char) -> int
    decreases s.len(),
{
    if s.len() == 0 {
        -1
    } else {
        let f = first_index(s.drop_last(), c);
        if f >= 0 {
            f
        } else if s.last() == c {
            s.len() - 1
        } else {
            -1
        }
    }
}

/// The position of the last `c` in `s`, or -1.
pub open spec fn last_index(s: Seq<char>, c: char) -> int
    decreases s.len(),
{
    if s.len() == 0 {
        -1
    } else if s.last() == c {
        s.len() - 1
    } else {
        last_index(s.drop_last(), c)
    }
}

proof fn lemma_first_index_prefix(s: Seq<char>, c: char, m: int)
    requires
        0 <= m <= s.len(),
        first_index(s.take(m), c) >= 0,
    ensures
        first_index(s, c) == first_index(s.take(m), c),
    decreases s.len(),
{
    if m == s.len() {
        assert(s.take(m) =~= s);
    } else {
        assert(s.drop_last().take(m) =~= s.take(m));
        lemma_first_index_prefix(s.drop_last(), c, m);
    }
}

pub(crate) proof fn lemma_index_bounds(s: Seq<char>, c: char)
    ensures
        -1 <= first_index(s, c) < s.len(),
        -1 <= last_index(s, c) < s.len(),
        (first_index(s, c) < 0) == (last_index(s, c) < 0),
    decreases s.len(),
{
    if s.len() > 0 {
        lemma_index_bounds(s.drop_last(), c);
    }
}

pub(crate) fn first_index_exec(s: &Vec<char>, c: char) -> (r: Option<usize>)
    ensures
        match r {
            Some(k) => k == first_index(s@, c),
            None => first_index(s@, c) < 0,
        },
{
    let mut i: usize = 0;
    while i < s.len()
        invariant
            i <= s@.len(),
            first_index(s@.take(i as int), c) == -1,
        decreases s@.len() - i,
    {
        assert(s@.take(i + 1).drop_last() =~= s@.take(i as int));
        if s[i] == c {
            proof {
                lemma_first_index_prefix(s@, c, i + 1);
            }
            return Some(i);
        }
        i += 1;
    }
    assert(s@.take(s@.len() as int) =~= s@);
    None
}

fn last_index_exec(s: &Vec<char>, c: char) -> (r: Option<usize>)
    ensures
        match r {
            Some(k) => k == last_index(s@, c),
            None => last_index(s@, c) < 0,
        },
{
    let mut i: usize = s.len();
    assert(s@.take(i as int) =~= s@);
    while i > 0
        invariant
            i <= s@.len(),
            last_index(s@, c) == last_index(s@.take(i as int), c),
        decreases i,
    {
        assert(s@.take(i as int).drop_last() =~= s@.take(i - 1));
        if s[i - 1] == c {
            return Some(i - 1);
        }
        i -= 1;
    }
    None
}

/// How a reply that should hold a JSON object is framed.
pub enum ReplyFraming {
    /// No `{ ... }` in the reply: only the reply as a whole can be parsed.
    Whole,
    /// The part from the first `{` to the last `}`, parsed where the whole
    /// reply does not parse.
    Object(String),
    /// The last `}` comes before the first `{`: cutting the object out fails.
    Reversed,
}

/// The trimmed reply, and the object cut out of it where both braces occur.
pub fn frame_json_reply(content: &str) -> (r: (String, ReplyFraming))
    ensures
        r.0@ == trim(content@),
        ({
            let t = trim(content@);
            let (a, b) = (first_index(t, '{'), last_index(t, '}'));
            match r.1 {
                ReplyFraming::Whole => a < 0 || b < 0,
                ReplyFraming::Object(o) => 0 <= a <= b && o@ == t.subrange(a, b + 1),
                ReplyFraming::Reversed => 0 <= b < a,
            }
        }),
{
    let t = trim_str(content);
    let framing = match (first_index_exec(&t, '{'), last_index_exec(&t, '}')) {
        (Some(a), Some(b)) => {
            if a <= b {
                let mut o: Vec<char> = Vec::new();
                let n = t.len();
                let mut i: usize = a;
                proof {
                    lemma_index_bounds(t@, '{');
                    lemma_index_bounds(t@, '}');
                }
                while i <= b
                    invariant
                        a <= i <= b + 1,
                        b < n,
                        n == t@.len(),
                        o@ == t@.subrange(a as int, i as int),
                    decreases b + 1 - i,
                {
                    o.push(t[i]);
                    assert(t@.subrange(a as int, i + 1) =~= t@.subrange(a as int, i as int).push(t@[i as int]));
                    i += 1;
                }
                ReplyFraming::Object(string_of(o.as_slice()))
            } else {
                ReplyFraming::Reversed
            }
        },
        _ => ReplyFraming::Whole,
    };
    (string_of(t.as_slice()), framing)
}

} // verus!

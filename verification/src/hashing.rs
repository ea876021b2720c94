//! Content hashes: BLAKE3 digests, in lower-case hexadecimal, of a file's
//! bytes, of a sample of its head and tail, or of a scan root's name.

use vstd::prelude::*;
use blake3::Hasher;
use vstd::string::StringSliceAdditionalSpecFns;

verus! {

#[verifier::external_type_specification]
#[verifier::external_body]
pub struct ExHasher(Hasher);

/// The bytes fed to a hasher so far.
pub uninterp spec fn hasher_input(h: Hasher) -> Seq<u8>;

/// The BLAKE3 digest of the bytes, in lower-case hexadecimal.
pub uninterp spec fn blake3_hex(input: Seq<u8>) -> Seq<char>;

/// `blake3::Hasher::new`: a hasher fed nothing yet.
#[verifier::external_body]
fn new_hasher() -> (h: Hasher)
    ensures
        hasher_input(h) == Seq::<u8>::empty(),
{
    Hasher::new()
}

/// `blake3::Hasher::update`: feeds the bytes after those fed before.
#[verifier::external_body]
fn hasher_update(h: &mut Hasher, bytes: &[u8])
    ensures
        hasher_input(*final(h)) == hasher_input(*old(h)) + bytes@,
{
    h.update(bytes);
}

/// `blake3::Hasher::finalize` and `blake3::Hash::to_hex`: the digest of all
/// the bytes fed, as 64 lower-case hexadecimal digits.
#[verifier::external_body]
fn hasher_hex(h: &Hasher) -> (r: String)
    ensures
        r@ == blake3_hex(hasher_input(*h)),
        r@.len() == 64,
{
    h.finalize().to_hex().to_string()
}

/// A hash being computed over bytes fed in pieces.
pub struct ContentHash {
    state: Hasher,
}

impl ContentHash {
    /// The bytes fed so far.
    pub closed spec fn input(&self) -> Seq<u8> {
        hasher_input(self.state)
    }

    /// A hash of nothing yet.
    pub fn new() -> (h: ContentHash)
        ensures
            h.input() == Seq::<u8>::empty(),
    {
        ContentHash { state: new_hasher() }
    }

    /// Feeds the next bytes.
    pub fn update(&mut self, bytes: &[u8])
        ensures
            final(self).input() == old(self).input() + bytes@,
    {
        hasher_update(&mut self.state, bytes);
    }

    /// The digest of everything fed, in hexadecimal.
    pub fn hex(&self) -> (r: String)
        ensures
            r@ == blake3_hex(self.input()),
            r@.len() == 64,
    {
        hasher_hex(&self.state)
    }
}

/// The little-endian bytes of a number, `count` of them.
pub open spec fn le_bytes(n: nat, count: nat) -> Seq<u8>
    decreases count,
{
    if count == 0 {
        Seq::empty()
    } else {
        seq![(n % 256) as u8] + le_bytes(n / 256, (count - 1) as nat)
    }
}

/// `u64::to_le_bytes`.
pub fn le_bytes_of(n: u64) -> (r: Vec<u8>)
    ensures
        r@ == le_bytes(n as nat, 8),
{
    let mut out: Vec<u8> = Vec::new();
    let mut rest: u64 = n;
    let mut i: usize = 0;
    while i < 8
        invariant
            i <= 8,
            out@ + le_bytes(rest as nat, (8 - i) as nat) == le_bytes(n as nat, 8),
        decreases 8 - i,
    {
        let b = (rest % 256) as u8;
        proof {
            assert(le_bytes(rest as nat, (8 - i) as nat) == seq![b] + le_bytes((rest / 256) as nat, (8 - i - 1) as nat));
            assert(out@.push(b) + le_bytes((rest / 256) as nat, (8 - i - 1) as nat)
                =~= out@ + (seq![b] + le_bytes((rest / 256) as nat, (8 - i - 1) as nat)));
        }
        out.push(b);
        rest = rest / 256;
        i += 1;
    }
    assert(le_bytes(rest as nat, 0) =~= Seq::<u8>::empty());
    assert(out@ + Seq::<u8>::empty() =~= out@);
    out
}

/// The sample a large file is first compared by: its head, its size in
/// eight little-endian bytes, and its tail.
pub open spec fn sample_input(head: Seq<u8>, size: u64, tail: Seq<u8>) -> Seq<u8> {
    head + le_bytes(size as nat, 8) + tail
}

/// The digest of a large file's sample.
pub fn partial_signature(head: &[u8], size: u64, tail: &[u8]) -> (r: String)
    ensures
        r@ == blake3_hex(sample_input(head@, size, tail@)),
{
    let mut h = ContentHash::new();
    h.update(head);
    let size_bytes = le_bytes_of(size);
    h.update(size_bytes.as_slice());
    h.update(tail);
    assert(Seq::<u8>::empty() + head@ + size_bytes@ + tail@ =~= sample_input(head@, size, tail@));
    h.hex()
}

/// The key under which a scan root's cached results are kept: the digest
/// of the root's text.
pub fn root_cache_key(root: &str) -> (r: String)
    ensures
        r@ == blake3_hex(root.spec_bytes()),
{
    let mut h = ContentHash::new();
    h.update(root.as_bytes());
    assert(Seq::<u8>::empty() + root.spec_bytes() =~= root.spec_bytes());
    h.hex()
}

} // verus!

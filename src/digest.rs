//! Identifier digests and random draws.

use vstd::bytes::{spec_u64_to_le_bytes, u64_to_le_bytes};
use vstd::prelude::*;
use vstd::string::*;

verus! {

/// The SipHash-2-4 digest, under the zero key, of a byte string.
pub uninterp spec fn sip24_of(bytes: Seq<u8>) -> u64;

/// Relies on `siphasher::sip::SipHasher24::hash` under the keys set by
/// `SipHasher24::new` (both zero): the digest depends on the bytes alone.
#[verifier::external_body]
fn sip24(bytes: &[u8]) -> (r: u64)
    ensures
        r == sip24_of(bytes@),
{
    siphasher::sip::SipHasher24::new().hash(bytes)
}

/// Relies on `rand::Rng::gen_range` over `0..bound` on the thread-local
/// generator: some value below `bound`; it panics on an empty range.
#[verifier::external_body]
pub(crate) fn random_below(bound: u32) -> (r: u32)
    requires
        bound > 0,
    ensures
        r < bound,
{
    rand::Rng::gen_range(&mut rand::thread_rng(), 0..bound)
}

/// The little-endian bytes of each word in turn.
pub open spec fn words_bytes(words: Seq<u64>) -> Seq<u8>
    decreases words.len(),
{
    if words.len() == 0 {
        Seq::empty()
    } else {
        words_bytes(words.drop_last()) + spec_u64_to_le_bytes(words.last())
    }
}

/// The digest that names a record made of `words` and `text`.
pub open spec fn digest_of(words: Seq<u64>, text: Seq<u8>) -> u64 {
    sip24_of(words_bytes(words) + text)
}

fn append_bytes(v: &mut Vec<u8>, b: &[u8])
    ensures
        final(v)@ == old(v)@ + b@,
{
    let mut i: usize = 0;
    while i < b.len()
        invariant
            i <= b@.len(),
            v@ == old(v)@ + b@.subrange(0, i as int),
        decreases b@.len() - i,
    {
        v.push(b[i]);
        i = i + 1;
        assert(b@.subrange(0, i as int) == b@.subrange(0, i - 1 as int).push(b@[i - 1]));
    }
    assert(b@.subrange(0, b@.len() as int) == b@);
}

/// Digest of the words, in order, followed by the bytes of `text`.
pub fn digest(words: &Vec<u64>, text: &str) -> (r: u64)
    ensures
        r == digest_of(words@, text.spec_bytes()),
{
    let mut bytes: Vec<u8> = Vec::new();
    let mut i: usize = 0;
    while i < words.len()
        invariant
            i <= words@.len(),
            bytes@ == words_bytes(words@.subrange(0, i as int)),
        decreases words@.len() - i,
    {
        let le = u64_to_le_bytes(words[i]);
        append_bytes(&mut bytes, le.as_slice());
        i = i + 1;
        assert(words@.subrange(0, i as int).drop_last() == words@.subrange(0, i - 1 as int));
    }
    assert(words@.subrange(0, words@.len() as int) == words@);
    append_bytes(&mut bytes, text.as_bytes());
    sip24(bytes.as_slice())
}

} // verus!

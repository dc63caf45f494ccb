//! Key generation and the ownership handle: a generated key is the fixed
//! ASCII tag `akira_rust_` followed by the base64url-no-pad encoding of 32
//! random bytes, handed to the caller inside a releasable handle.

use vstd::prelude::*;
use crate::codec::b64url_decode;
use crate::codec::b64url_encode;
use crate::codec::is_b64url_byte;
use crate::codec::lemma_encode_len;
use crate::codec::lemma_encode_valid;
use crate::codec::lemma_round_trip;

verus! {

/// The fixed ASCII tag `akira_rust_` that every key starts with.
pub open spec fn key_tag() -> Seq<u8> {
    seq![97u8, 107u8, 105u8, 114u8, 97u8, 95u8, 114u8, 117u8, 115u8, 116u8, 95u8]
}

/// The key text derived from a sequence of raw bytes: the tag followed by
/// the base64url-no-pad encoding of the bytes.
pub open spec fn spec_key(b: Seq<u8>) -> Seq<u8> {
    key_tag() + b64url_encode(b)
}

/// A well-formed key text: 54 bytes long, starting with the 11-byte tag,
/// followed by 43 bytes of the URL-safe base64 alphabet, and free of zero
/// bytes throughout.
pub open spec fn is_valid_key(s: Seq<u8>) -> bool {
    &&& s.len() == 54
    &&& s.subrange(0, 11) == key_tag()
    &&& forall|i: int| 11 <= i < 54 ==> is_b64url_byte(#[trigger] s[i])
    &&& forall|i: int| 0 <= i < 54 ==> #[trigger] s[i] != 0
}

/// The key derived from any 32 raw bytes is well formed: tagged, 54 bytes
/// long, with a 43-byte body drawn from the URL-safe alphabet and no zero
/// byte anywhere.
pub proof fn lemma_key_valid(b: Seq<u8>)
    requires
        b.len() == 32,
    ensures
        is_valid_key(spec_key(b)),
{
    let k = spec_key(b);
    lemma_encode_len(b);
    lemma_encode_valid(b);
    assert(k.subrange(0, 11) =~= key_tag());
    assert forall|i: int| 0 <= i < 54 implies k[i] != 0 by {
        if i >= 11 {
            assert(k[i] == b64url_encode(b)[i - 11]);
        }
    }
    assert forall|i: int| 11 <= i < 54 implies is_b64url_byte(k[i]) by {
        assert(k[i] == b64url_encode(b)[i - 11]);
    }
}

/// Stripping the tag from the key derived from 32 raw bytes and decoding
/// the remainder as base64url-no-pad yields exactly those 32 bytes back.
pub proof fn lemma_key_round_trip(b: Seq<u8>)
    requires
        b.len() == 32,
    ensures
        b64url_decode(spec_key(b).skip(11)) == Some(b),
        b64url_decode(spec_key(b).skip(11)).unwrap().len() == 32,
{
    assert(spec_key(b).skip(11) =~= b64url_encode(b));
    lemma_round_trip(b);
}

/// Relies on the `base64` crate's `URL_SAFE_NO_PAD` engine: it encodes the
/// input with the URL-safe alphabet and emits no padding characters.
#[verifier::external_body]
fn b64url_encode_vec(bytes: &Vec<u8>) -> (r: Vec<u8>)
    ensures
        r@ == b64url_encode(bytes@),
{
    base64::Engine::encode(&base64::engine::general_purpose::URL_SAFE_NO_PAD, bytes).into_bytes()
}

/// Relies on `rand::thread_rng` and `Rng::gen` to draw 32 bytes from the
/// thread-local cryptographically secure generator. Nothing can be promised
/// of the values themselves, only of how many there are.
#[verifier::external_body]
fn random_bytes_32() -> (r: Vec<u8>)
    ensures
        r@.len() == 32,
{
    let mut rng = rand::thread_rng();
    let bytes: [u8; 32] = rand::Rng::gen(&mut rng);
    bytes.to_vec()
}

/// Builds the key text for a given sequence of 32 raw bytes: the fixed tag
/// followed by their base64url-no-pad encoding. This is the deterministic
/// half of key generation, usable with any source of bytes.
pub fn key_from_bytes(bytes: &Vec<u8>) -> (r: Vec<u8>)
    requires
        bytes@.len() == 32,
    ensures
        r@ == spec_key(bytes@),
        is_valid_key(r@),
{
    let mut r: Vec<u8> = Vec::new();
    r.push(97); // 'a'
    r.push(107); // 'k'
    r.push(105); // 'i'
    r.push(114); // 'r'
    r.push(97); // 'a'
    r.push(95); // '_'
    r.push(114); // 'r'
    r.push(117); // 'u'
    r.push(115); // 's'
    r.push(116); // 't'
    r.push(95); // '_'
    proof {
        assert(r@ =~= key_tag());
    }
    let enc = b64url_encode_vec(bytes);
    let mut i: usize = 0;
    while i < enc.len()
        invariant
            i <= enc@.len(),
            enc@ == b64url_encode(bytes@),
            r@ == key_tag() + enc@.take(i as int),
        decreases enc@.len() - i,
    {
        r.push(enc[i]);
        proof {
            assert(r@ =~= key_tag() + enc@.take(i + 1 as int));
        }
        i = i + 1;
    }
    proof {
        assert(enc@.take(enc@.len() as int) =~= enc@);
        lemma_key_valid(bytes@);
    }
    r
}

/// An opaque handle to a generated key. It either owns the key text
/// (between generation and release) or is null/released and owns nothing;
/// release is terminal and leaves nothing behind to read.
pub struct KeyHandle {
    /// The owned key text, or `None` for a null or released handle.
    pub bytes: Option<Vec<u8>>,
}

impl KeyHandle {
    /// A null handle: it owns no key, and releasing it is a no-op.
    pub fn null() -> (h: KeyHandle)
        ensures
            h.bytes is None,
    {
        KeyHandle { bytes: None }
    }

    /// Whether this handle owns no key.
    pub fn is_null(&self) -> (r: bool)
        ensures
            r == (self.bytes is None),
    {
        self.bytes.is_none()
    }
}

/// Draws 32 bytes from the thread-local cryptographically secure generator
/// and returns a handle owning the derived key text: the fixed tag followed
/// by the base64url-no-pad encoding of those bytes. Ownership of the key
/// transfers to the caller, who may release it through `free_akira_key`.
pub fn generate_akira_key() -> (h: KeyHandle)
    ensures
        h.bytes is Some,
        is_valid_key(h.bytes.unwrap()@),
        exists|b: Seq<u8>| b.len() == 32 && h.bytes.unwrap()@ == spec_key(b),
{
    let bytes = random_bytes_32();
    let key = key_from_bytes(&bytes);
    proof {
        assert(bytes@.len() == 32 && key@ == spec_key(bytes@));
    }
    KeyHandle { bytes: Some(key) }
}

/// Releases a handle: a null or already-released handle is left untouched
/// and the call returns normally; an owning handle gives up its key text,
/// which is reclaimed exactly once, here. Afterwards the handle owns
/// nothing, so no later reader can reach the released text through it.
pub fn free_akira_key(h: &mut KeyHandle)
    ensures
        final (h).bytes is None,
{
    h.bytes = None;
}

} // verus!

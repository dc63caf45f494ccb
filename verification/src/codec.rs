//! A specification of base64url-no-pad encoding (the URL-and-filename-safe
//! base64 alphabet, with no trailing `=` padding), a matching decoding
//! specification, and the proof that decoding inverts encoding.

use vstd::prelude::*;

verus! {

/// The URL-safe base64 alphabet: the ASCII byte that stands for a six-bit
/// value. Values at or above 63 all map to `_`; encoding only ever applies
/// this to values below 64.
pub open spec fn b64url_byte_of(v: u8) -> u8 {
    if v < 26 {
        (65 + v) as u8 // 'A'..='Z'
    } else if v < 52 {
        (97 + (v - 26)) as u8 // 'a'..='z'
    } else if v < 62 {
        (48 + (v - 52)) as u8 // '0'..='9'
    } else if v == 62 {
        45u8 // '-'
    } else {
        95u8 // '_'
    }
}

/// The six-bit value that an ASCII byte stands for in the URL-safe base64
/// alphabet, or `None` for a byte outside the alphabet.
pub open spec fn b64url_val_of(c: u8) -> Option<u8> {
    if 65 <= c && c <= 90 {
        Some((c - 65) as u8) // 'A'..='Z'
    } else if 97 <= c && c <= 122 {
        Some((c - 97 + 26) as u8) // 'a'..='z'
    } else if 48 <= c && c <= 57 {
        Some((c - 48 + 52) as u8) // '0'..='9'
    } else if c == 45 {
        Some(62u8) // '-'
    } else if c == 95 {
        Some(63u8) // '_'
    } else {
        None
    }
}

/// Whether an ASCII byte belongs to the URL-safe base64 alphabet.
pub open spec fn is_b64url_byte(c: u8) -> bool {
    b64url_val_of(c) is Some
}

/// The four alphabet bytes that encode a full group of three input bytes.
pub open spec fn enc3(b0: u8, b1: u8, b2: u8) -> Seq<u8> {
    seq![
        b64url_byte_of(b0 >> 2),
        b64url_byte_of(((b0 & 3) << 4) | (b1 >> 4)),
        b64url_byte_of(((b1 & 15) << 2) | (b2 >> 6)),
        b64url_byte_of(b2 & 63),
    ]
}

/// The three alphabet bytes that encode a trailing group of two input bytes.
pub open spec fn enc2(b0: u8, b1: u8) -> Seq<u8> {
    seq![
        b64url_byte_of(b0 >> 2),
        b64url_byte_of(((b0 & 3) << 4) | (b1 >> 4)),
        b64url_byte_of((b1 & 15) << 2),
    ]
}

/// The two alphabet bytes that encode a trailing group of one input byte.
pub open spec fn enc1(b0: u8) -> Seq<u8> {
    seq![b64url_byte_of(b0 >> 2), b64url_byte_of((b0 & 3) << 4)]
}

/// Base64url-no-pad encoding of a byte sequence: full three-byte groups
/// become four alphabet bytes each, and a trailing group of one or two
/// bytes becomes two or three alphabet bytes, with no padding.
pub open spec fn b64url_encode(s: Seq<u8>) -> Seq<u8>
    decreases s.len(),
{
    if s.len() >= 3 {
        enc3(s[0], s[1], s[2]) + b64url_encode(s.skip(3))
    } else if s.len() == 2 {
        enc2(s[0], s[1])
    } else if s.len() == 1 {
        enc1(s[0])
    } else {
        Seq::empty()
    }
}

/// The byte recovered from the first two six-bit values of a group.
pub open spec fn dec_b0(v0: u8, v1: u8) -> u8 {
    (v0 << 2) | (v1 >> 4)
}

/// The byte recovered from the second and third six-bit values of a group.
pub open spec fn dec_b1(v1: u8, v2: u8) -> u8 {
    ((v1 & 15) << 4) | (v2 >> 2)
}

/// The byte recovered from the third and fourth six-bit values of a group.
pub open spec fn dec_b2(v2: u8, v3: u8) -> u8 {
    ((v2 & 3) << 6) | v3
}

/// Base64url-no-pad decoding: `None` if the length leaves a lone trailing
/// byte or any byte falls outside the alphabet; otherwise the decoded
/// bytes, ignoring unused low bits of a trailing group.
pub open spec fn b64url_decode(s: Seq<u8>) -> Option<Seq<u8>>
    decreases s.len(),
{
    if s.len() == 0 {
        Some(Seq::empty())
    } else if s.len() == 1 {
        None
    } else if s.len() == 2 {
        match (b64url_val_of(s[0]), b64url_val_of(s[1])) {
            (Some(v0), Some(v1)) => Some(seq![dec_b0(v0, v1)]),
            _ => None,
        }
    } else if s.len() == 3 {
        match (b64url_val_of(s[0]), b64url_val_of(s[1]), b64url_val_of(s[2])) {
            (Some(v0), Some(v1), Some(v2)) => Some(seq![dec_b0(v0, v1), dec_b1(v1, v2)]),
            _ => None,
        }
    } else {
        match (b64url_val_of(s[0]), b64url_val_of(s[1]), b64url_val_of(s[2]), b64url_val_of(s[3])) {
            (Some(v0), Some(v1), Some(v2), Some(v3)) => match b64url_decode(s.skip(4)) {
                Some(rest) => Some(seq![dec_b0(v0, v1), dec_b1(v1, v2), dec_b2(v2, v3)] + rest),
                None => None,
            },
            _ => None,
        }
    }
}

/// Every byte the alphabet produces is itself in the alphabet, is nonzero,
/// and decodes back to the value it encoded (when that value is six bits).
pub proof fn lemma_byte_of_valid(v: u8)
    ensures
        is_b64url_byte(b64url_byte_of(v)),
        b64url_byte_of(v) != 0,
        v < 64 ==> b64url_val_of(b64url_byte_of(v)) == Some(v),
{
}

/// Encoding a sequence of n bytes yields exactly ceil(4n / 3) alphabet
/// bytes: four per full three-byte group, plus two or three for a trailing
/// group of one or two bytes.
pub proof fn lemma_encode_len(s: Seq<u8>)
    ensures
        b64url_encode(s).len() == (4 * s.len() + 2) / 3,
    decreases s.len(),
{
    if s.len() >= 3 {
        lemma_encode_len(s.skip(3));
    }
}

/// Every byte of an encoding belongs to the URL-safe alphabet, and in
/// particular none of them is the zero byte.
pub proof fn lemma_encode_valid(s: Seq<u8>)
    ensures
        forall|i: int|
            0 <= i < b64url_encode(s).len() ==> is_b64url_byte(#[trigger] b64url_encode(s)[i])
                && b64url_encode(s)[i] != 0,
    decreases s.len(),
{
    let e = b64url_encode(s);
    if s.len() >= 3 {
        lemma_encode_valid(s.skip(3));
        lemma_byte_of_valid(s[0] >> 2);
        lemma_byte_of_valid(((s[0] & 3) << 4) | (s[1] >> 4));
        lemma_byte_of_valid(((s[1] & 15) << 2) | (s[2] >> 6));
        lemma_byte_of_valid(s[2] & 63);
        assert forall|i: int| 0 <= i < e.len() implies is_b64url_byte(e[i]) && e[i] != 0 by {
            if i >= 4 {
                assert(e[i] == b64url_encode(s.skip(3))[i - 4]);
            }
        }
    } else if s.len() == 2 {
        lemma_byte_of_valid(s[0] >> 2);
        lemma_byte_of_valid(((s[0] & 3) << 4) | (s[1] >> 4));
        lemma_byte_of_valid((s[1] & 15) << 2);
    } else if s.len() == 1 {
        lemma_byte_of_valid(s[0] >> 2);
        lemma_byte_of_valid((s[0] & 3) << 4);
    }
}

/// Decoding inverts encoding: base64url-no-pad decoding of the encoding of
/// any byte sequence succeeds and yields that sequence back.
pub proof fn lemma_round_trip(s: Seq<u8>)
    ensures
        b64url_decode(b64url_encode(s)) == Some(s),
    decreases s.len(),
{
    let e = b64url_encode(s);
    if s.len() == 0 {
        assert(s =~= Seq::<u8>::empty());
    } else if s.len() == 1 {
        let b0 = s[0];
        assert(b0 >> 2 < 64) by (bit_vector);
        assert((b0 & 3) << 4 < 64) by (bit_vector);
        lemma_byte_of_valid(b0 >> 2);
        lemma_byte_of_valid((b0 & 3) << 4);
        assert(dec_b0(b0 >> 2, (b0 & 3) << 4) == b0) by (bit_vector);
        assert(seq![b0] =~= s);
    } else if s.len() == 2 {
        let b0 = s[0];
        let b1 = s[1];
        assert(b0 >> 2 < 64) by (bit_vector);
        assert(((b0 & 3) << 4) | (b1 >> 4) < 64) by (bit_vector);
        assert((b1 & 15) << 2 < 64) by (bit_vector);
        lemma_byte_of_valid(b0 >> 2);
        lemma_byte_of_valid(((b0 & 3) << 4) | (b1 >> 4));
        lemma_byte_of_valid((b1 & 15) << 2);
        assert(dec_b0(b0 >> 2, ((b0 & 3) << 4) | (b1 >> 4)) == b0) by (bit_vector);
        assert(dec_b1(((b0 & 3) << 4) | (b1 >> 4), (b1 & 15) << 2) == b1) by (bit_vector);
        assert(seq![b0, b1] =~= s);
    } else {
        lemma_round_trip(s.skip(3));
        let b0 = s[0];
        let b1 = s[1];
        let b2 = s[2];
        assert(b0 >> 2 < 64) by (bit_vector);
        assert(((b0 & 3) << 4) | (b1 >> 4) < 64) by (bit_vector);
        assert(((b1 & 15) << 2) | (b2 >> 6) < 64) by (bit_vector);
        assert(b2 & 63 < 64) by (bit_vector);
        lemma_byte_of_valid(b0 >> 2);
        lemma_byte_of_valid(((b0 & 3) << 4) | (b1 >> 4));
        lemma_byte_of_valid(((b1 & 15) << 2) | (b2 >> 6));
        lemma_byte_of_valid(b2 & 63);
        assert(dec_b0(b0 >> 2, ((b0 & 3) << 4) | (b1 >> 4)) == b0) by (bit_vector);
        assert(dec_b1(((b0 & 3) << 4) | (b1 >> 4), ((b1 & 15) << 2) | (b2 >> 6)) == b1)
            by (bit_vector);
        assert(dec_b2(((b1 & 15) << 2) | (b2 >> 6), b2 & 63) == b2) by (bit_vector);
        let rest = b64url_encode(s.skip(3));
        assert(e == enc3(b0, b1, b2) + rest);
        assert(e.skip(4) =~= rest);
        assert(seq![b0, b1, b2] + s.skip(3) =~= s);
    }
}

} // verus!

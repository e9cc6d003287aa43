use vstd::prelude::*;

use crate::errors::CodecError;
use crate::keystream::{keystream_byte, keystream, generate_keystream, CRASH_METRICS_SIZE};

verus! {

/// Byte-wise subtraction with 8-bit wraparound: `(a - b) mod 256`.
///
/// This is the whole cipher.  The encoder stores `keystream - plaintext`;
/// applying the same subtraction to the ciphertext recovers the plaintext,
/// so the operation is its own inverse for a fixed keystream byte.
pub open spec fn byte_sub_mod(a: u8, b: u8) -> u8 {
    ((a - b) % 256) as u8
}

/// The plaintext that deciphering a buffer of ciphertext yields:
/// each byte is the matching keystream byte minus the ciphertext byte,
/// modulo 256.
pub open spec fn decipher_bytes(c: Seq<u8>) -> Seq<u8> {
    Seq::new(c.len(), |i: int| byte_sub_mod(keystream_byte(i as nat), c[i]))
}

/// Subtracting the same keystream byte twice gives back the original byte.
pub proof fn lemma_byte_sub_mod_involution(k: u8, p: u8)
    ensures
        byte_sub_mod(k, byte_sub_mod(k, p)) == p,
{
    let c = byte_sub_mod(k, p);
    if k >= p {
        assert((k - p) % 256 == k - p);
        assert((k - c) % 256 == p);
    } else {
        assert((k - p) % 256 == k - p + 256);
        assert(k - c == p - 256);
        assert((p - 256) % 256 == p);
    }
}

/// Recovers the plaintext record from an encrypted one.
///
/// Succeeds exactly on inputs of the fixed record size; anything else is
/// rejected as `UnexpectedLength` before any byte is touched.
pub fn decipher(ciphertext: &Vec<u8>) -> (r: Result<Vec<u8>, CodecError>)
    ensures
        r is Ok <==> ciphertext@.len() == CRASH_METRICS_SIZE,
        r is Ok ==> r->Ok_0@ == decipher_bytes(ciphertext@),
        r is Err ==> r->Err_0 == CodecError::UnexpectedLength,
{
    if ciphertext.len() != CRASH_METRICS_SIZE {
        return Err(CodecError::UnexpectedLength);
    }
    let ks = generate_keystream(ciphertext.len());
    let mut plain: Vec<u8> = Vec::new();
    let mut i: usize = 0;
    while i < ciphertext.len()
        invariant
            i <= ciphertext@.len(),
            ks@ == keystream(ciphertext@.len() as nat),
            plain@.len() == i,
            forall|j: int| 0 <= j < i ==> plain@[j] == byte_sub_mod(
                keystream_byte(j as nat),
                ciphertext@[j],
            ),
        decreases ciphertext@.len() - i,
    {
        let k = ks[i];
        let c = ciphertext[i];
        let p: u8 = if k >= c {
            k - c
        } else {
            (256 - (c - k) as u16) as u8
        };
        proof {
            if k >= c {
                assert((k - c) % 256 == k - c);
            } else {
                assert((k - c) % 256 == k - c + 256);
            }
        }
        plain.push(p);
        i = i + 1;
    }
    proof {
        assert(plain@ =~= decipher_bytes(ciphertext@));
    }
    Ok(plain)
}

/// `decipher` undoes the encoder's subtraction: a ciphertext formed byte by
/// byte as `keystream - plaintext` deciphers back to the exact plaintext.
pub proof fn lemma_decipher_round_trip(p: Seq<u8>, c: Seq<u8>)
    requires
        p.len() == c.len(),
        forall|i: int| 0 <= i < c.len() ==> c[i] == byte_sub_mod(keystream_byte(i as nat), p[i]),
    ensures
        decipher_bytes(c) == p,
{
    assert forall|i: int| 0 <= i < c.len() implies decipher_bytes(c)[i] == p[i] by {
        lemma_byte_sub_mod_involution(keystream_byte(i as nat), p[i]);
    }
    assert(decipher_bytes(c) =~= p);
}

} // verus!

//! File-content digests for the integrity monitor: sha256 or blake3 behind
//! trusted wrappers, hex rendering verified. Reading the file stays with
//! the embedding program; this hashes bytes.

use vstd::prelude::*;
use crate::text::{dec_digit, push_char};
use crate::value::str_eq;

verus! {

/// The SHA-256 digest of `data`: a function of the bytes alone.
pub uninterp spec fn sha256_of(data: Seq<u8>) -> Seq<u8>;

/// The BLAKE3 digest of `data`: a function of the bytes alone.
pub uninterp spec fn blake3_of(data: Seq<u8>) -> Seq<u8>;

/// Relies on sha2's Sha256 (the Digest trait's one-shot digest): the digest
/// depends on the bytes alone and is 32 bytes long.
#[verifier::external_body]
fn sha256_digest(data: &Vec<u8>) -> (r: Vec<u8>)
    ensures
        r@ == sha256_of(data@),
        r@.len() == 32,
{
    let d = <sha2::Sha256 as sha2::Digest>::digest(data);
    d.to_vec()
}

/// Relies on blake3::hash: the digest depends on the bytes alone and is
/// 32 bytes long.
#[verifier::external_body]
fn blake3_digest(data: &Vec<u8>) -> (r: Vec<u8>)
    ensures
        r@ == blake3_of(data@),
        r@.len() == 32,
{
    blake3::hash(data).as_bytes().to_vec()
}

/// The lowercase hex digit for `d`.
pub open spec fn hex_digit(d: int) -> char {
    if d < 10 {
        dec_digit(d)
    } else {
        ((d + 87) as u8) as char
    }
}

/// The lowercase hex rendering of `bytes`, two digits a byte.
pub open spec fn hex_of(bytes: Seq<u8>) -> Seq<char>
    decreases bytes.len(),
{
    if bytes.len() == 0 {
        Seq::empty()
    } else {
        seq![hex_digit(bytes[0] as int / 16), hex_digit(bytes[0] as int % 16)] + hex_of(
            bytes.drop_first(),
        )
    }
}

proof fn lemma_hex_of_snoc(bytes: Seq<u8>, i: int)
    requires
        0 <= i < bytes.len(),
    ensures
        hex_of(bytes.take(i + 1)) == hex_of(bytes.take(i)) + seq![
            hex_digit(bytes[i] as int / 16),
            hex_digit(bytes[i] as int % 16),
        ],
    decreases i,
{
    if i == 0 {
        assert(bytes.take(1)[0] == bytes[0]);
        assert(bytes.take(1).drop_first() =~= Seq::<u8>::empty());
        assert(bytes.take(0) =~= Seq::<u8>::empty());
        assert(hex_of(bytes.take(1)) =~= hex_of(bytes.take(0)) + seq![
            hex_digit(bytes[0] as int / 16),
            hex_digit(bytes[0] as int % 16),
        ]);
    } else {
        lemma_hex_of_snoc(bytes.drop_first(), i - 1);
        assert(bytes.take(i + 1)[0] == bytes[0]);
        assert(bytes.take(i + 1).drop_first() =~= bytes.drop_first().take(i));
        assert(bytes.take(i)[0] == bytes[0]);
        assert(bytes.take(i).drop_first() =~= bytes.drop_first().take(i - 1));
        assert(bytes.drop_first()[i - 1] == bytes[i]);
        assert(hex_of(bytes.take(i + 1)) =~= hex_of(bytes.take(i)) + seq![
            hex_digit(bytes[i] as int / 16),
            hex_digit(bytes[i] as int % 16),
        ]);
    }
}

proof fn lemma_hex_of_len(bytes: Seq<u8>)
    ensures
        hex_of(bytes).len() == 2 * bytes.len(),
    decreases bytes.len(),
{
    if bytes.len() > 0 {
        lemma_hex_of_len(bytes.drop_first());
    }
}

fn hex_digit_char(d: u8) -> (c: char)
    requires
        d < 16,
    ensures
        c == hex_digit(d as int),
{
    if d < 10 {
        (48u8 + d) as char
    } else {
        (87u8 + d) as char
    }
}

/// Renders bytes as lowercase hex, as `hex_of` says.
pub fn to_hex(bytes: &Vec<u8>) -> (s: String)
    ensures
        s@ == hex_of(bytes@),
        s@.len() == 2 * bytes@.len(),
{
    let n = bytes.len();
    let mut s = String::new();
    let mut i: usize = 0;
    proof {
        assert(bytes@.take(0) =~= Seq::<u8>::empty());
    }
    while i < n
        invariant
            i <= n,
            n == bytes@.len(),
            s@ == hex_of(bytes@.take(i as int)),
        decreases n - i,
    {
        let b = bytes[i];
        push_char(&mut s, hex_digit_char(b / 16));
        push_char(&mut s, hex_digit_char(b % 16));
        proof {
            lemma_hex_of_snoc(bytes@, i as int);
            assert(s@ =~= hex_of(bytes@.take(i + 1)));
        }
        i = i + 1;
    }
    proof {
        assert(bytes@.take(n as int) =~= bytes@);
        lemma_hex_of_len(bytes@);
    }
    s
}

/// The hex digest of `data` under the named algorithm: sha256 by that name,
/// blake3 for that name and for any other, blake3 being the default. Always
/// 64 hex characters.
pub open spec fn hash_text(data: Seq<u8>, algorithm: Seq<char>) -> Seq<char> {
    if algorithm == "sha256"@ {
        hex_of(sha256_of(data))
    } else {
        hex_of(blake3_of(data))
    }
}

/// Digests bytes under the named algorithm, as `hash_text` says.
pub fn hash_bytes(data: &Vec<u8>, algorithm: &str) -> (r: String)
    ensures
        r@ == hash_text(data@, algorithm@),
        r@.len() == 64,
{
    if str_eq(algorithm, "sha256") {
        let d = sha256_digest(data);
        to_hex(&d)
    } else {
        let d = blake3_digest(data);
        to_hex(&d)
    }
}

} // verus!

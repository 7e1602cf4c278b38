//! ROM identity hashes: the SHA-1 digest of the ROM bytes as 40 lowercase
//! hexadecimal digits.

use vstd::prelude::*;
use sha1::{Digest, Sha1};
use crate::text::push_char;

verus! {

/// The SHA-1 digest of `data` (FIPS 180-4), as computed by the `sha1` crate.
pub uninterp spec fn sha1_digest(data: Seq<u8>) -> Seq<u8>;

/// Calls `<sha1::Sha1 as sha1::Digest>::digest` on `data`.
///
/// Trusted: the result is the digest that the name `sha1_digest` stands for,
/// and a SHA-1 digest is always 20 bytes long (`OutputSize = U20`).
#[verifier::external_body]
fn sha1_bytes(data: &[u8]) -> (r: Vec<u8>)
    ensures
        r@ == sha1_digest(data@),
        r@.len() == 20,
{
    Sha1::digest(data).to_vec()
}

/// The lowercase hexadecimal digit for a value below 16.
pub open spec fn hex_digit(n: u8) -> char {
    if n < 10 {
        (48 + n) as char
    } else {
        (87 + n) as char
    }
}

/// Each byte as two lowercase hexadecimal digits, high nibble first
/// (what `{:x}` prints for a digest).
pub open spec fn lower_hex(bytes: Seq<u8>) -> Seq<char>
    decreases bytes.len(),
{
    if bytes.len() == 0 {
        Seq::empty()
    } else {
        lower_hex(bytes.drop_last()).push(hex_digit(bytes.last() / 16)).push(
            hex_digit(bytes.last() % 16),
        )
    }
}

fn hex_char(n: u8) -> (c: char)
    requires
        n < 16,
    ensures
        c == hex_digit(n),
{
    if n < 10 {
        (48 + n) as char
    } else {
        (87 + n) as char
    }
}

/// Lowercase hexadecimal rendering of a byte string.
pub fn to_lower_hex(bytes: &[u8]) -> (r: String)
    ensures
        r@ == lower_hex(bytes@),
        r@.len() == 2 * bytes@.len(),
{
    let mut out = String::new();
    let mut i: usize = 0;
    while i < bytes.len()
        invariant
            i <= bytes@.len(),
            out@ == lower_hex(bytes@.subrange(0, i as int)),
            out@.len() == 2 * i,
        decreases bytes@.len() - i,
    {
        assert(bytes@.subrange(0, i + 1).drop_last() =~= bytes@.subrange(0, i as int));
        let b = bytes[i];
        push_char(&mut out, hex_char(b / 16));
        push_char(&mut out, hex_char(b % 16));
        i = i + 1;
    }
    assert(bytes@.subrange(0, bytes@.len() as int) =~= bytes@);
    out
}

/// Whether `c` is a lowercase hexadecimal digit.
pub open spec fn is_lower_hex_char(c: char) -> bool {
    ('0' <= c && c <= '9') || ('a' <= c && c <= 'f')
}

/// Lowercase hex has two digits per byte, each `0-9` or `a-f`.
pub proof fn lemma_lower_hex_shape(bytes: Seq<u8>)
    ensures
        lower_hex(bytes).len() == 2 * bytes.len(),
        forall|i: int| 0 <= i < lower_hex(bytes).len() ==> is_lower_hex_char(#[trigger] lower_hex(bytes)[i]),
    decreases bytes.len(),
{
    if bytes.len() > 0 {
        lemma_lower_hex_shape(bytes.drop_last());
        let prev = lower_hex(bytes.drop_last());
        let b = bytes.last();
        assert(is_lower_hex_char(hex_digit(b / 16)));
        assert(is_lower_hex_char(hex_digit(b % 16)));
        let h = lower_hex(bytes);
        assert forall|i: int| 0 <= i < h.len() implies is_lower_hex_char(#[trigger] h[i]) by {
            if i < prev.len() {
                assert(h[i] == prev[i]);
            }
        }
    }
}

/// Different digit values have different hex digits.
proof fn lemma_hex_digit_injective(x: u8, y: u8)
    requires
        x < 16,
        y < 16,
        hex_digit(x) == hex_digit(y),
    ensures
        x == y,
{
    assert((hex_digit(x) as u32) == (hex_digit(y) as u32));
}

/// Lowercase hex loses nothing: equal renderings come from equal bytes.
pub proof fn lemma_lower_hex_injective(a: Seq<u8>, b: Seq<u8>)
    requires
        lower_hex(a) == lower_hex(b),
    ensures
        a == b,
    decreases a.len(),
{
    lemma_lower_hex_shape(a);
    lemma_lower_hex_shape(b);
    if a.len() > 0 {
        let ha = lower_hex(a);
        let hb = lower_hex(b);
        let n = ha.len();
        assert(ha[n - 2] == hex_digit(a.last() / 16) && ha[n - 1] == hex_digit(a.last() % 16));
        assert(hb[n - 2] == hex_digit(b.last() / 16) && hb[n - 1] == hex_digit(b.last() % 16));
        lemma_hex_digit_injective(a.last() / 16, b.last() / 16);
        lemma_hex_digit_injective(a.last() % 16, b.last() % 16);
        assert(a.last() == b.last());
        assert(ha.subrange(0, n - 2) =~= lower_hex(a.drop_last()));
        assert(hb.subrange(0, n - 2) =~= lower_hex(b.drop_last()));
        lemma_lower_hex_injective(a.drop_last(), b.drop_last());
        assert(a =~= a.drop_last().push(a.last()));
        assert(b =~= b.drop_last().push(b.last()));
    } else {
        assert(b.len() == 0);
        assert(a =~= b);
    }
}

/// Two ROMs get the same identity hash exactly when their whole contents
/// have the same SHA-1 digest: every byte of the ROM counts, and the
/// rendering neither drops nor merges digests.
pub proof fn lemma_rom_hash_identifies_digest(a: Seq<u8>, b: Seq<u8>)
    ensures
        (rom_hash(a) == rom_hash(b)) <==> (sha1_digest(a) == sha1_digest(b)),
        rom_hash(a) == lower_hex(sha1_digest(a)),
{
    if rom_hash(a) == rom_hash(b) {
        lemma_lower_hex_injective(sha1_digest(a), sha1_digest(b));
    }
}

/// The ROM identity hash of `data`: the 40-digit lowercase hex SHA-1 digest.
pub open spec fn rom_hash(data: Seq<u8>) -> Seq<char> {
    lower_hex(sha1_digest(data))
}

/// Computes the ROM identity hash of the ROM's bytes.
pub fn compute_rom_hash(data: &[u8]) -> (r: String)
    ensures
        r@ == rom_hash(data@),
        r@ == lower_hex(sha1_digest(data@)),
        r@.len() == 40,
        forall|i: int| 0 <= i < 40 ==> is_lower_hex_char(#[trigger] r@[i]),
{
    let digest = sha1_bytes(data);
    proof {
        lemma_lower_hex_shape(digest@);
    }
    to_lower_hex(digest.as_slice())
}

} // verus!

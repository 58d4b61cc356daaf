//! SHA-256 digests (from `sha2`) and their lowercase hex spelling (from `hex`).
use vstd::prelude::*;

use sha2::Digest;

verus! {

/// The SHA-256 digest of `data` (`sha2::Sha256::digest`).
pub uninterp spec fn sha256_of(data: Seq<u8>) -> Seq<u8>;

/// Calls `sha2::Sha256::digest`. Claims that the result is the name
/// `sha256_of` of the input bytes and is 32 bytes long (SHA-256 output size).
#[verifier::external_body]
pub fn sha256(data: &[u8]) -> (r: Vec<u8>)
    ensures
        r@ == sha256_of(data@),
        r@.len() == 32,
{
    sha2::Sha256::digest(data).to_vec()
}

/// Lowercase hexadecimal digit for `n < 16`.
pub open spec fn hex_digit(n: int) -> char {
    if n < 10 {
        ((n + 48) as u32) as char
    } else {
        ((n - 10 + 97) as u32) as char
    }
}

/// Every byte as two lowercase hexadecimal digits, high nibble first.
pub open spec fn hex_of(data: Seq<u8>) -> Seq<char>
    decreases data.len(),
{
    if data.len() == 0 {
        Seq::empty()
    } else {
        hex_of(data.drop_last()) + seq![
            hex_digit(data.last() as int / 16),
            hex_digit(data.last() as int % 16),
        ]
    }
}

/// Calls `hex::encode`. Claims what the crate documents and its source does:
/// each byte becomes two lowercase hex digits (`0123456789abcdef`), high
/// nibble first, in order.
#[verifier::external_body]
pub fn hex_encode(data: &[u8]) -> (r: String)
    ensures
        r@ == hex_of(data@),
{
    hex::encode(data)
}

/// A lowercase hexadecimal digit: `0`-`9` or `a`-`f`.
pub open spec fn is_lower_hex(c: char) -> bool {
    ('0' <= c && c <= '9') || ('a' <= c && c <= 'f')
}

pub proof fn lemma_hex_digit(n: int, m: int)
    requires
        0 <= n < 16,
        0 <= m < 16,
    ensures
        is_lower_hex(hex_digit(n)),
        hex_digit(n) == hex_digit(m) ==> n == m,
{
}

/// The hex spelling holds only lowercase hex digits.
pub proof fn lemma_hex_chars(data: Seq<u8>)
    ensures
        forall|i: int| 0 <= i < hex_of(data).len() ==> is_lower_hex(#[trigger] hex_of(data)[i]),
    decreases data.len(),
{
    lemma_hex_len(data);
    if data.len() > 0 {
        let b = data.last() as int;
        lemma_hex_chars(data.drop_last());
        lemma_hex_digit(b / 16, 0);
        lemma_hex_digit(b % 16, 0);
        lemma_hex_len(data.drop_last());
    }
}

/// Different byte strings have different hex spellings.
pub proof fn lemma_hex_injective(a: Seq<u8>, b: Seq<u8>)
    requires
        hex_of(a) == hex_of(b),
    ensures
        a == b,
    decreases a.len(),
{
    lemma_hex_len(a);
    lemma_hex_len(b);
    if a.len() > 0 {
        let ha = hex_of(a);
        let k = ha.len() - 2;
        lemma_hex_len(a.drop_last());
        lemma_hex_len(b.drop_last());
        assert(hex_of(a.drop_last()) =~= ha.subrange(0, k));
        assert(hex_of(b.drop_last()) =~= hex_of(b).subrange(0, k));
        lemma_hex_injective(a.drop_last(), b.drop_last());
        let x = a.last() as int;
        let y = b.last() as int;
        assert(ha[k] == hex_digit(x / 16));
        assert(hex_of(b)[k] == hex_digit(y / 16));
        assert(ha[k + 1] == hex_digit(x % 16));
        assert(hex_of(b)[k + 1] == hex_digit(y % 16));
        lemma_hex_digit(x / 16, y / 16);
        lemma_hex_digit(x % 16, y % 16);
        assert(x == y);
        assert(a =~= a.drop_last().push(a.last()));
        assert(b =~= b.drop_last().push(b.last()));
    } else {
        assert(a =~= b);
    }
}

pub proof fn lemma_hex_len(data: Seq<u8>)
    ensures
        hex_of(data).len() == 2 * data.len(),
    decreases data.len(),
{
    if data.len() > 0 {
        lemma_hex_len(data.drop_last());
    }
}

} // verus!

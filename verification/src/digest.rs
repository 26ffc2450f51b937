//! Fingerprints of texts: SHA-256 in hexadecimal.
use sha2::Digest;
use vstd::prelude::*;

verus! {

/// The SHA-256 digest of `data`.
pub uninterp spec fn sha256(data: Seq<u8>) -> Seq<u8>;

/// The lower-case hexadecimal digit of a number below sixteen.
pub open spec fn hex_digit(n: u8) -> char {
    if n < 10 {
        (48 + n) as char
    } else {
        (87 + n) as char
    }
}

/// Two lower-case hexadecimal digits for each byte.
pub open spec fn hex_of(data: Seq<u8>) -> Seq<char> {
    Seq::new(
        2 * data.len(),
        |i: int|
            if i % 2 == 0 {
                hex_digit(data[i / 2] / 16)
            } else {
                hex_digit(data[i / 2] % 16)
            },
    )
}

/// The fingerprint of `data`: its SHA-256 digest in hexadecimal.
pub open spec fn fingerprint_of(data: Seq<u8>) -> Seq<char> {
    hex_of(sha256(data))
}

/// Calls `sha2::Sha256::digest`, which depends on the data alone and yields 32 bytes.
#[verifier::external_body]
fn sha256_digest(data: &[u8]) -> (r: Vec<u8>)
    ensures
        r@ == sha256(data@),
        r@.len() == 32,
{
    sha2::Sha256::digest(data).to_vec()
}

/// Calls `hex::encode`, which writes two lower-case hexadecimal digits for each byte.
#[verifier::external_body]
fn hex_encode(data: &[u8]) -> (r: String)
    ensures
        r@ == hex_of(data@),
{
    hex::encode(data)
}

/// The fingerprint of `data`: 64 hexadecimal digits that depend on the data alone.
pub fn fingerprint(data: &[u8]) -> (r: String)
    ensures
        r@ == fingerprint_of(data@),
        r@.len() == 64,
{
    let digest = sha256_digest(data);
    hex_encode(digest.as_slice())
}

/// What a hexadecimal digit stands for.
pub open spec fn hex_value(c: char) -> int {
    if '0' <= c <= '9' {
        c as int - 48
    } else {
        c as int - 87
    }
}

/// The fingerprint writes the whole digest, two digits a byte, so that each byte can be read in
/// it: data have the same fingerprint where they have the same digest, and only there.
pub proof fn law_fingerprint_writes_the_digest(a: Seq<u8>, b: Seq<u8>)
    ensures
        fingerprint_of(a).len() == 2 * sha256(a).len(),
        forall|i: int|
            0 <= i < sha256(a).len() ==> #[trigger] sha256(a)[i] == 16 * hex_value(
                fingerprint_of(a)[2 * i],
            ) + hex_value(fingerprint_of(a)[2 * i + 1]),
        fingerprint_of(a) == fingerprint_of(b) <==> sha256(a) == sha256(b),
{
    lemma_hex_is_read_back(sha256(a));
    lemma_hex_is_read_back(sha256(b));
    if fingerprint_of(a) == fingerprint_of(b) {
        assert forall|i: int| 0 <= i < sha256(a).len() implies sha256(a)[i] == sha256(b)[i] by {}
        assert(sha256(a) =~= sha256(b));
    }
}

proof fn lemma_hex_is_read_back(data: Seq<u8>)
    ensures
        hex_of(data).len() == 2 * data.len(),
        forall|i: int|
            0 <= i < data.len() ==> #[trigger] data[i] == 16 * hex_value(hex_of(data)[2 * i])
                + hex_value(hex_of(data)[2 * i + 1]),
{
    assert forall|i: int| 0 <= i < data.len() implies #[trigger] data[i] == 16 * hex_value(
        hex_of(data)[2 * i],
    ) + hex_value(hex_of(data)[2 * i + 1]) by {
        assert((2 * i) / 2 == i && (2 * i) % 2 == 0);
        assert((2 * i + 1) / 2 == i && (2 * i + 1) % 2 == 1);
        let x = data[i];
        assert(hex_of(data)[2 * i] == hex_digit(x / 16));
        assert(hex_of(data)[2 * i + 1] == hex_digit(x % 16));
        assert(x / 16 < 16 && x % 16 < 16);
        assert(hex_value(hex_digit(x / 16)) == x / 16);
        assert(hex_value(hex_digit(x % 16)) == x % 16);
    }
}

} // verus!

//! Pseudonymous wallet identifiers: the hex form of a SHA-256 digest of a
//! freshly generated public key.

use vstd::prelude::*;
use secp256k1::rand::SeedableRng;
use sha2::Digest;

verus! {

/// The SHA-256 digest of a byte sequence.
pub uninterp spec fn sha256_of(data: Seq<u8>) -> Seq<u8>;

/// The lower-case hex digit of a value below sixteen.
pub open spec fn hex_digit(n: int) -> char {
    "0123456789abcdef"@[n]
}

/// The lower-case hex encoding of a byte sequence: each byte becomes two
/// digits, high nibble first.
pub open spec fn hex_of(data: Seq<u8>) -> Seq<char>
    decreases data.len(),
{
    if data.len() == 0 {
        Seq::empty()
    } else {
        hex_of(data.drop_last()) + seq![
            hex_digit(data.last() as int / 16),
            hex_digit(data.last() as int % 16),
        ]
    }
}

/// A hex encoding is twice as long as what it encodes.
pub proof fn lemma_hex_of_len(data: Seq<u8>)
    ensures
        hex_of(data).len() == 2 * data.len(),
    decreases data.len(),
{
    if data.len() > 0 {
        lemma_hex_of_len(data.drop_last());
    }
}

/// Whether every character of `s` is a lower-case hex digit.
pub open spec fn is_hex_seq(s: Seq<char>) -> bool {
    forall|i: int| 0 <= i < s.len() ==> "0123456789abcdef"@.contains(#[trigger] s[i])
}

/// A hex encoding consists of lower-case hex digits.
pub proof fn lemma_hex_of_is_hex(data: Seq<u8>)
    ensures
        is_hex_seq(hex_of(data)),
    decreases data.len(),
{
    reveal_strlit("0123456789abcdef");
    if data.len() > 0 {
        lemma_hex_of_is_hex(data.drop_last());
        let rest = hex_of(data.drop_last());
        let s = hex_of(data);
        let hi: int = data.last() as int / 16;
        let lo: int = data.last() as int % 16;
        assert("0123456789abcdef"@[hi] == hex_digit(hi));
        assert("0123456789abcdef"@[lo] == hex_digit(lo));
        assert forall|i: int| 0 <= i < s.len() implies "0123456789abcdef"@.contains(
            #[trigger] s[i],
        ) by {
            if i < rest.len() {
                assert(s[i] == rest[i]);
            } else if i == rest.len() {
                assert(s[i] == hex_digit(hi));
            } else {
                assert(s[i] == hex_digit(lo));
            }
        }
    }
}

/// Whether the string is entirely lower-case hex digits.
pub fn is_hex_str(s: &str) -> (r: bool)
    ensures
        r == is_hex_seq(s@),
{
    let n = s.unicode_len();
    for i in 0..n
        invariant
            n == s@.len(),
            forall|j: int| 0 <= j < i ==> "0123456789abcdef"@.contains(#[trigger] s@[j]),
    {
        let c = s.get_char(i);
        let ok = c == '0' || c == '1' || c == '2' || c == '3' || c == '4' || c == '5' || c == '6'
            || c == '7' || c == '8' || c == '9' || c == 'a' || c == 'b' || c == 'c' || c == 'd'
            || c == 'e' || c == 'f';
        if !ok {
            proof {
                reveal_strlit("0123456789abcdef");
                let ch = s@[i as int];
                assert forall|k: int|
                    0 <= k < "0123456789abcdef"@.len() implies "0123456789abcdef"@[k] != ch by {
                }
            }
            return false;
        }
        proof {
            reveal_strlit("0123456789abcdef");
            let ch = s@[i as int];
            if c == '0' {
                assert("0123456789abcdef"@[0] == ch);
            } else if c == '1' {
                assert("0123456789abcdef"@[1] == ch);
            } else if c == '2' {
                assert("0123456789abcdef"@[2] == ch);
            } else if c == '3' {
                assert("0123456789abcdef"@[3] == ch);
            } else if c == '4' {
                assert("0123456789abcdef"@[4] == ch);
            } else if c == '5' {
                assert("0123456789abcdef"@[5] == ch);
            } else if c == '6' {
                assert("0123456789abcdef"@[6] == ch);
            } else if c == '7' {
                assert("0123456789abcdef"@[7] == ch);
            } else if c == '8' {
                assert("0123456789abcdef"@[8] == ch);
            } else if c == '9' {
                assert("0123456789abcdef"@[9] == ch);
            } else if c == 'a' {
                assert("0123456789abcdef"@[10] == ch);
            } else if c == 'b' {
                assert("0123456789abcdef"@[11] == ch);
            } else if c == 'c' {
                assert("0123456789abcdef"@[12] == ch);
            } else if c == 'd' {
                assert("0123456789abcdef"@[13] == ch);
            } else if c == 'e' {
                assert("0123456789abcdef"@[14] == ch);
            } else {
                assert("0123456789abcdef"@[15] == ch);
            }
            assert("0123456789abcdef"@.contains(ch));
        }
    }
    true
}

/// Relies on sha2::Sha256: a 32-byte digest that depends on the input alone.
#[verifier::external_body]
fn sha256(input: &[u8]) -> (r: Vec<u8>)
    ensures
        r@ == sha256_of(input@),
        r@.len() == 32,
{
    let mut hasher = sha2::Sha256::new();
    hasher.update(input);
    hasher.finalize().to_vec()
}

/// Relies on hex::encode: the lower-case hex digits of the input, high
/// nibble of each byte first.
#[verifier::external_body]
fn hex_encode(data: &[u8]) -> (r: String)
    ensures
        r@ == hex_of(data@),
{
    hex::encode(data)
}

/// Relies on secp256k1: a freshly generated keypair's public key in its
/// 33-byte compressed serialization. The key is random; nothing more is
/// assumed of the bytes.
#[verifier::external_body]
fn generate_public_key() -> (r: Vec<u8>)
    ensures
        r@.len() == 33,
{
    let secp = secp256k1::Secp256k1::new();
    let mut rng = secp256k1::rand::rngs::StdRng::seed_from_u64(secp256k1::rand::random::<u64>());
    let (_secret_key, public_key) = secp.generate_keypair(&mut rng);
    public_key.serialize().to_vec()
}

/// The hex form of the SHA-256 digest of the input.
fn generate_hash(input: &[u8]) -> (r: String)
    ensures
        r@ == hex_of(sha256_of(input@)),
        r@.len() == 64,
        is_hex_seq(r@),
{
    let digest = sha256(input);
    let encoded = hex_encode(digest.as_slice());
    proof {
        lemma_hex_of_len(digest@);
        lemma_hex_of_is_hex(digest@);
    }
    encoded
}

/// A fresh 64-character identifying hash, derived from a randomly generated
/// public key.
pub fn new_hash() -> (r: String)
    ensures
        r@.len() == 64,
        is_hex_seq(r@),
{
    let public_key = generate_public_key();
    generate_hash(public_key.as_slice())
}

} // verus!

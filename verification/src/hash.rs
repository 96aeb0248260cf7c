//! The hashing primitive: a 32-byte digest over a timestamp, a previous
//! digest and a payload, its hexadecimal rendering, and the leading-zero
//! test that proof-of-work rests on.

use sha2::Digest;
use vstd::prelude::*;
use vstd::utf8::encode_utf8;

verus! {

/// A 256-bit digest.
pub type Hash256 = [u8; 32];

/// The SHA-512 digest of a byte string. The function itself is not written
/// out here; it is whatever the `sha2` crate computes.
pub uninterp spec fn sha512(data: Seq<u8>) -> Seq<u8>;

/// Calls `sha2::Sha512::digest`. Trusted: the result is the SHA-512 digest
/// of `data`, a function of the bytes alone, and it is 64 bytes long.
#[verifier::external_body]
fn sha512_digest(data: &[u8]) -> (out: Vec<u8>)
    ensures
        out@ == sha512(data@),
        out@.len() == 64,
{
    sha2::Sha512::digest(data).to_vec()
}

/// The bytes that are hashed: the timestamp text, the previous digest and
/// the payload text, one after the other, texts in UTF-8.
pub open spec fn hash_input(timestamp: Seq<char>, prev_hash: Seq<u8>, data: Seq<char>) -> Seq<u8> {
    encode_utf8(timestamp) + prev_hash + encode_utf8(data)
}

/// The digest of a timestamp, a previous digest and a payload: the first 32
/// bytes of the SHA-512 digest of `hash_input`.
pub open spec fn digest_of(timestamp: Seq<char>, prev_hash: Seq<u8>, data: Seq<char>) -> Seq<u8> {
    sha512(hash_input(timestamp, prev_hash, data)).subrange(0, 32)
}

/// The all-zero digest, which a genesis block names as its predecessor.
pub open spec fn zero_hash() -> Seq<u8> {
    Seq::new(32, |i: int| 0u8)
}

/// Hashes a timestamp, the previous block's digest and a payload.
pub fn calculate_hash(timestamp: &str, prev_block_hash: &Hash256, data: &str) -> (hash: Hash256)
    ensures
        hash@ == digest_of(timestamp@, prev_block_hash@, data@),
{
    let mut input: Vec<u8> = Vec::new();
    input.extend_from_slice(timestamp.as_bytes());
    input.extend_from_slice(prev_block_hash.as_slice());
    input.extend_from_slice(data.as_bytes());
    assert(input@ =~= hash_input(timestamp@, prev_block_hash@, data@));
    let wide = sha512_digest(input.as_slice());
    let mut hash: Hash256 = [0u8; 32];
    let mut i: usize = 0;
    while i < 32
        invariant
            i <= 32,
            wide@.len() == 64,
            forall|j: int| 0 <= j < i ==> hash@[j] == wide@[j],
        decreases 32 - i,
    {
        hash[i] = wide[i];
        i += 1;
    }
    assert(hash@ =~= wide@.subrange(0, 32));
    hash
}

/// Whether two digests are the same, byte for byte.
pub fn same_hash(a: &Hash256, b: &Hash256) -> (same: bool)
    ensures
        same == (a@ == b@),
{
    let mut i: usize = 0;
    while i < 32
        invariant
            i <= 32,
            forall|j: int| 0 <= j < i ==> a@[j] == b@[j],
        decreases 32 - i,
    {
        if a[i] != b[i] {
            return false;
        }
        i += 1;
    }
    assert(a@ =~= b@);
    true
}

/// Two calls of `calculate_hash` on equal inputs give equal digests: the
/// digest is a function of the three inputs' contents.
pub proof fn lemma_hash_deterministic(
    timestamp_a: &str,
    prev_a: &Hash256,
    data_a: &str,
    timestamp_b: &str,
    prev_b: &Hash256,
    data_b: &str,
)
    requires
        timestamp_a@ == timestamp_b@,
        prev_a@ == prev_b@,
        data_a@ == data_b@,
    ensures
        digest_of(timestamp_a@, prev_a@, data_a@) == digest_of(timestamp_b@, prev_b@, data_b@),
{
}

/// The sixteen lowercase hexadecimal digits in order.
pub open spec fn hex_digits() -> Seq<char> {
    seq!['0', '1', '2', '3', '4', '5', '6', '7', '8', '9', 'a', 'b', 'c', 'd', 'e', 'f']
}

/// The character of the hexadecimal digit `n`.
pub open spec fn hex_char(n: int) -> char
    recommends
        0 <= n < 16,
{
    hex_digits()[n]
}

/// Bytes in lowercase hexadecimal, two characters per byte, high nibble
/// first.
pub open spec fn hex_text(bytes: Seq<u8>) -> Seq<char> {
    Seq::new(
        2 * bytes.len(),
        |i: int|
            if i % 2 == 0 {
                hex_char(bytes[i / 2] as int / 16)
            } else {
                hex_char(bytes[i / 2] as int % 16)
            },
    )
}

/// The one-character string of a hexadecimal digit.
fn hex_digit_str(n: u8) -> (s: &'static str)
    requires
        n < 16,
    ensures
        s@ == seq![hex_char(n as int)],
{
    proof {
        reveal_strlit("0");
        reveal_strlit("1");
        reveal_strlit("2");
        reveal_strlit("3");
        reveal_strlit("4");
        reveal_strlit("5");
        reveal_strlit("6");
        reveal_strlit("7");
        reveal_strlit("8");
        reveal_strlit("9");
        reveal_strlit("a");
        reveal_strlit("b");
        reveal_strlit("c");
        reveal_strlit("d");
        reveal_strlit("e");
        reveal_strlit("f");
    }
    let s = match n {
        0 => "0",
        1 => "1",
        2 => "2",
        3 => "3",
        4 => "4",
        5 => "5",
        6 => "6",
        7 => "7",
        8 => "8",
        9 => "9",
        10 => "a",
        11 => "b",
        12 => "c",
        13 => "d",
        14 => "e",
        _ => "f",
    };
    assert(s@ =~= seq![hex_char(n as int)]);
    s
}

/// Renders a digest as 64 lowercase hexadecimal characters.
pub fn hash_to_hex(hash: &Hash256) -> (text: String)
    ensures
        text@ == hex_text(hash@),
{
    let mut text = String::new();
    let mut i: usize = 0;
    while i < 32
        invariant
            i <= 32,
            text@.len() == 2 * i,
            forall|j: int| 0 <= j < 2 * i ==> text@[j] == hex_text(hash@)[j],
        decreases 32 - i,
    {
        let byte = hash[i];
        text.append(hex_digit_str(byte / 16));
        text.append(hex_digit_str(byte % 16));
        i += 1;
    }
    assert(text@ =~= hex_text(hash@));
    text
}

/// `n` zero digits.
pub open spec fn zeros_text(n: nat) -> Seq<char> {
    Seq::new(n, |i: int| '0')
}

/// The proof-of-work target: the hexadecimal rendering of the digest starts
/// with `difficulty` characters `'0'`.
pub open spec fn satisfies_difficulty(hash: Seq<u8>, difficulty: nat) -> bool {
    zeros_text(difficulty).is_prefix_of(hex_text(hash))
}

/// Tests a digest against the proof-of-work target, nibble by nibble.
pub fn check_difficulty(hash: &Hash256, difficulty: usize) -> (ok: bool)
    ensures
        ok == satisfies_difficulty(hash@, difficulty as nat),
{
    if difficulty > 64 {
        return false;
    }
    let mut i: usize = 0;
    while i < difficulty
        invariant
            i <= difficulty <= 64,
            forall|j: int| 0 <= j < i ==> hex_text(hash@)[j] == '0',
        decreases difficulty - i,
    {
        let byte = hash[i / 2];
        let nibble = if i % 2 == 0 {
            byte / 16
        } else {
            byte % 16
        };
        if nibble != 0 {
            assert(hex_text(hash@)[i as int] != '0');
            assert(zeros_text(difficulty as nat)[i as int] == '0');
            return false;
        }
        i += 1;
    }
    assert(zeros_text(difficulty as nat) =~= hex_text(hash@).subrange(0, difficulty as int));
    true
}

/// A digest meets the target exactly when its hexadecimal rendering has at
/// least `difficulty` characters and the first `difficulty` of them are all
/// `'0'`.
pub proof fn lemma_difficulty_counts_leading_zeros(hash: Seq<u8>, difficulty: nat)
    ensures
        satisfies_difficulty(hash, difficulty) <==> (difficulty <= hex_text(hash).len()
            && forall|i: int| 0 <= i < difficulty ==> hex_text(hash)[i] == '0'),
{
    let zeros = zeros_text(difficulty);
    let hex = hex_text(hash);
    if satisfies_difficulty(hash, difficulty) {
        assert forall|i: int| 0 <= i < difficulty implies hex[i] == '0' by {
            assert(hex.subrange(0, difficulty as int)[i] == zeros[i]);
        }
    }
    if difficulty <= hex.len() && forall|i: int| 0 <= i < difficulty ==> hex[i] == '0' {
        assert(zeros =~= hex.subrange(0, difficulty as int));
    }
}

/// Within the part of a digest that the target constrains, every byte is
/// zero, and setting one of them to `0x01` breaks the target: at difficulty
/// two or more this holds of the first byte in particular.
pub proof fn lemma_leading_byte_change_breaks_proof(hash: Seq<u8>, difficulty: nat, index: int)
    requires
        difficulty >= 2,
        0 <= index,
        2 * index + 2 <= difficulty,
        satisfies_difficulty(hash, difficulty),
    ensures
        index < hash.len(),
        hash[index] == 0,
        !satisfies_difficulty(hash.update(index, 1u8), difficulty),
{
    lemma_difficulty_counts_leading_zeros(hash, difficulty);
    let changed = hash.update(index, 1u8);
    lemma_difficulty_counts_leading_zeros(changed, difficulty);
    assert(hex_text(hash)[2 * index] == '0');
    assert(hex_text(hash)[2 * index + 1] == '0');
    assert(hex_text(changed)[2 * index + 1] == hex_char(1));
}

} // verus!

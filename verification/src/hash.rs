//! The stable hash that names a workspace: 64-bit FNV-1a over the UTF-8 bytes
//! of its path.

use crate::number::{
    hex, hex_is_digits, hex_is_injective, hex_reads_back, hex_text, hex_value,
};
use vstd::arithmetic::div_mod::{lemma_mod_multiples_vanish, lemma_mul_mod_noop_left};
use vstd::prelude::*;
use vstd::utf8::encode_utf8;

verus! {

/// Where the hash of every text starts.
pub const HASH_START: u64 = 0xcbf29ce484222325;

/// What the hash is multiplied by for every byte.
pub const HASH_PRIME: u64 = 0x100000001b3;

/// The hash after one more byte: the byte is mixed in by exclusive or, then the
/// hash is multiplied, modulo 2^64.
pub open spec fn hash_step(hash: u64, byte: u8) -> u64 {
    (((hash ^ byte as u64) as nat * HASH_PRIME as nat) % 0x1_0000_0000_0000_0000) as u64
}

/// The hash of a sequence of bytes.
pub open spec fn hash_of(bytes: Seq<u8>) -> u64
    decreases bytes.len(),
{
    if bytes.len() == 0 {
        HASH_START
    } else {
        hash_step(hash_of(bytes.drop_last()), bytes.last())
    }
}

/// Hashes a text.
pub fn stable_hash_u64(input: &str) -> (hash: u64)
    ensures
        hash == hash_of(encode_utf8(input@)),
{
    let bytes = input.as_bytes();
    let mut hash: u64 = HASH_START;
    let mut i: usize = 0;
    while i < bytes.len()
        invariant
            i <= bytes@.len(),
            hash == hash_of(bytes@.take(i as int)),
        decreases bytes@.len() - i,
    {
        let byte: u8 = bytes[i];
        hash = (hash ^ byte as u64).wrapping_mul(HASH_PRIME);
        assert(bytes@.take(i + 1).drop_last() == bytes@.take(i as int));
        i += 1;
    }
    assert(bytes@.take(i as int) == bytes@);
    hash
}

/// The hash of a text as sixteen digits of base sixteen.
pub open spec fn hash_text(input: Seq<char>) -> Seq<char> {
    hex(hash_of(encode_utf8(input)) as nat, 16)
}

/// Hashes a text and writes the hash as sixteen digits of base sixteen.
pub fn stable_hash(input: &str) -> (text: String)
    ensures
        text@ == hash_text(input@),
{
    hex_text(stable_hash_u64(input), 16)
}

/// The inverse of `HASH_PRIME` modulo 2^64.
spec fn prime_inverse() -> int {
    0xce965057aff6957b
}

proof fn lemma_multiply_injective(x: u64, y: u64)
    requires
        (x as nat * HASH_PRIME as nat) % 0x1_0000_0000_0000_0000 == (y as nat * HASH_PRIME as nat)
            % 0x1_0000_0000_0000_0000,
    ensures
        x == y,
{
    lemma_multiply_back(x);
    lemma_multiply_back(y);
}

proof fn lemma_multiply_back(x: u64)
    ensures
        ((x as int * HASH_PRIME as int) % 0x1_0000_0000_0000_0000 * prime_inverse())
            % 0x1_0000_0000_0000_0000 == x,
{
    let m: int = 0x1_0000_0000_0000_0000;
    let product = x as int * HASH_PRIME as int;
    lemma_mul_mod_noop_left(product, prime_inverse(), m);
    let a = x as int * 887285111055;
    assert(HASH_PRIME as int * prime_inverse() == 887285111055 * m + 1);
    assert(product * prime_inverse() == m * a + x) by (nonlinear_arith)
        requires
            product == x as int * HASH_PRIME as int,
            HASH_PRIME as int * prime_inverse() == 887285111055 * m + 1,
            a == x as int * 887285111055,
    ;
    lemma_mod_multiples_vanish(a, x as int, m);
}

proof fn lemma_step_injective(g: u64, h: u64, b: u8, c: u8)
    requires
        hash_step(g, b) == hash_step(h, c),
        g == h || b == c,
    ensures
        g == h && b == c,
{
    lemma_multiply_injective(g ^ b as u64, h ^ c as u64);
    assert(g ^ (b as u64) == h ^ (c as u64) && (g == h || b == c) ==> g == h && b == c)
        by (bit_vector);
}

/// Two texts whose encodings have one length and differ in exactly one byte have
/// different hashes.
pub proof fn one_changed_byte_changes_the_hash(a: Seq<u8>, b: Seq<u8>, at: int)
    requires
        0 <= at < a.len(),
        a.len() == b.len(),
        a[at] != b[at],
        forall|i: int| 0 <= i < a.len() && i != at ==> #[trigger] a[i] == b[i],
    ensures
        hash_of(a) != hash_of(b),
    decreases a.len(),
{
    if at == a.len() - 1 {
        assert(a.drop_last() == b.drop_last());
        if hash_of(a) == hash_of(b) {
            lemma_step_injective(
                hash_of(a.drop_last()),
                hash_of(b.drop_last()),
                a.last(),
                b.last(),
            );
        }
    } else {
        one_changed_byte_changes_the_hash(a.drop_last(), b.drop_last(), at);
        if hash_of(a) == hash_of(b) {
            lemma_step_injective(
                hash_of(a.drop_last()),
                hash_of(b.drop_last()),
                a.last(),
                b.last(),
            );
        }
    }
}

/// Two texts have the same sixteen digits only if they have the same hash.
pub proof fn hash_text_tells_hashes_apart(a: Seq<char>, b: Seq<char>)
    ensures
        hash_text(a) == hash_text(b) <==> hash_of(encode_utf8(a)) == hash_of(encode_utf8(b)),
{
    if hash_text(a) == hash_text(b) {
        hex_is_injective(hash_of(encode_utf8(a)), hash_of(encode_utf8(b)));
    }
}

/// The hash is the 64-bit FNV-1a hash: it starts at the offset basis, and each further
/// byte is mixed in before a multiplication by the prime, modulo 2^64.
pub proof fn hash_is_fnv1a(bytes: Seq<u8>, byte: u8)
    ensures
        hash_of(Seq::empty()) == 14695981039346656037u64,
        hash_of(bytes.push(byte)) as int == ((hash_of(bytes) ^ (byte as u64)) as int
            * 1099511628211) % 18446744073709551616,
{
    assert(bytes.push(byte).drop_last() =~= bytes);
    let mixed = (hash_of(bytes) ^ (byte as u64)) as int;
    assert(0 <= (mixed * 1099511628211) % 18446744073709551616 < 18446744073709551616);
}

/// The hash is written in full: its sixteen digits of base sixteen are worth the hash.
pub proof fn hash_text_is_worth_the_hash(input: Seq<char>)
    ensures
        hash_text(input).len() == 16,
        hex_value(hash_text(input)) == hash_of(encode_utf8(input)),
{
    hex_is_digits(hash_of(encode_utf8(input)) as nat, 16);
    hex_reads_back(hash_of(encode_utf8(input)));
}

} // verus!

//! Proof of work: a nonce that, hashed behind a challenge, gives a digest with
//! enough leading zero bits.

use sha2::Digest;
use vstd::arithmetic::div_mod::*;
use vstd::arithmetic::power2::*;
use vstd::prelude::*;
use vstd::std_specs::bits::*;
use vstd::utf8::*;

verus! {

/// The SHA-256 digest of some bytes.
pub uninterp spec fn sha256(data: Seq<u8>) -> [u8; 32];

/// Calls `Sha256::digest` of the crate `sha2`. Claimed of it: the digest depends
/// on the bytes alone.
#[verifier::external_body]
fn sha256_digest(data: &[u8]) -> (r: [u8; 32])
    ensures
        r@ == sha256(data@)@,
{
    sha2::Sha256::digest(data).into()
}

/// How many bits a digest has.
pub const DIGEST_BITS: u32 = 256;

/// The eight bytes of a number, most significant first.
pub open spec fn be_bytes(n: u64) -> Seq<u8> {
    seq![
        (n / 0x100_0000_0000_0000 % 256) as u8,
        (n / 0x1_0000_0000_0000 % 256) as u8,
        (n / 0x100_0000_0000 % 256) as u8,
        (n / 0x1_0000_0000 % 256) as u8,
        (n / 0x100_0000 % 256) as u8,
        (n / 0x1_0000 % 256) as u8,
        (n / 0x100 % 256) as u8,
        (n % 256) as u8,
    ]
}

/// How many zero bits come before the first one that is set, the most
/// significant bit of each byte first.
pub open spec fn zero_bits(bytes: Seq<u8>) -> nat
    decreases bytes.len(),
{
    if bytes.len() == 0 {
        0
    } else if bytes[0] == 0 {
        8 + zero_bits(bytes.skip(1))
    } else {
        u8_leading_zeros(bytes[0]) as nat
    }
}

/// The digest that a nonce gives behind a challenge.
pub open spec fn pow_digest(challenge: Seq<char>, nonce: u64) -> Seq<u8> {
    sha256(encode_utf8(challenge) + be_bytes(nonce))@
}

/// Whether a nonce solves a challenge.
pub open spec fn pow_valid(challenge: Seq<char>, nonce: u64, difficulty: nat) -> bool {
    zero_bits(pow_digest(challenge, nonce)) >= difficulty
}

/// The bytes of a number, most significant first, after those of `prefix`.
fn append_be_bytes(prefix: &[u8], n: u64) -> (r: Vec<u8>)
    ensures
        r@ == prefix@ + be_bytes(n),
{
    let mut r: Vec<u8> = Vec::new();
    let mut i: usize = 0;
    while i < prefix.len()
        invariant
            i <= prefix@.len(),
            r@ == prefix@.take(i as int),
        decreases prefix@.len() - i,
    {
        r.push(prefix[i]);
        i = i + 1;
    }
    r.push((n / 0x100_0000_0000_0000 % 256) as u8);
    r.push((n / 0x1_0000_0000_0000 % 256) as u8);
    r.push((n / 0x100_0000_0000 % 256) as u8);
    r.push((n / 0x1_0000_0000 % 256) as u8);
    r.push((n / 0x100_0000 % 256) as u8);
    r.push((n / 0x1_0000 % 256) as u8);
    r.push((n / 0x100 % 256) as u8);
    r.push((n % 256) as u8);
    assert(r@ =~= prefix@ + be_bytes(n));
    r
}

/// Whether a digest has that many leading zero bits.
pub fn meets_difficulty(digest: &[u8; 32], difficulty: u32) -> (r: bool)
    ensures
        r == (zero_bits(digest@) >= difficulty),
        r == (difficulty <= 256 && forall|k: int, j: u8|
            0 <= k && j < 8 && 8 * k + 7 - j < difficulty ==> #[trigger] (digest@[k] >> j) & 1u8
                == 0u8),
{
    broadcast use group_bits_axioms;

    proof {
        law_difficulty_counts_zero_bits(digest@, difficulty as nat);
    }
    let mut zeros: u32 = 0;
    let mut i: usize = 0;
    assert(digest@.skip(0) =~= digest@);
    while i < 32
        invariant
            i <= 32,
            zeros == 8 * i,
            zero_bits(digest@) == zeros + zero_bits(digest@.skip(i as int)),
        decreases 32 - i,
    {
        let leading: u32 = digest[i].leading_zeros();
        assert(digest@.skip(i as int)[0] == digest@[i as int]);
        assert(digest@.skip(i as int).skip(1) =~= digest@.skip(i + 1));
        if leading < 8 {
            proof {
                law_difficulty_counts_zero_bits(digest@, difficulty as nat);
            }
            return zeros + leading >= difficulty;
        }
        zeros = zeros + leading;
        i = i + 1;
    }
    zeros >= difficulty
}

/// Whether a nonce solves a challenge.
pub fn verify_pow(challenge: &str, nonce: u64, difficulty: u32) -> (r: bool)
    ensures
        r == pow_valid(challenge@, nonce, difficulty as nat),
        r ==> difficulty <= DIGEST_BITS,
        r == (zero_bits(
            sha256(
                encode_utf8(challenge@) + seq![
                    (nonce / 0x100_0000_0000_0000 % 256) as u8,
                    (nonce / 0x1_0000_0000_0000 % 256) as u8,
                    (nonce / 0x100_0000_0000 % 256) as u8,
                    (nonce / 0x1_0000_0000 % 256) as u8,
                    (nonce / 0x100_0000 % 256) as u8,
                    (nonce / 0x1_0000 % 256) as u8,
                    (nonce / 0x100 % 256) as u8,
                    (nonce % 256) as u8,
                ],
            )@,
        ) >= difficulty),
{
    let message: Vec<u8> = append_be_bytes(challenge.as_bytes(), nonce);
    let digest: [u8; 32] = sha256_digest(message.as_slice());
    proof {
        lemma_zero_bits_at_most(digest@);
    }
    meets_difficulty(&digest, difficulty)
}

// ---------------------------------------------------------------------------
// Laws
// ---------------------------------------------------------------------------

/// The number that some bytes write, most significant first.
pub open spec fn be_value(bytes: Seq<u8>) -> nat
    decreases bytes.len(),
{
    if bytes.len() == 0 {
        0
    } else {
        bytes[0] as nat * pow2((8 * (bytes.len() - 1)) as nat) + be_value(bytes.skip(1))
    }
}

/// A byte has `k` leading zero bits exactly if it is below `2^(8 - k)`.
proof fn lemma_byte_zero_bits(b: u8, k: nat)
    requires
        k <= 8,
    ensures
        u8_leading_zeros(b) >= k <==> b < pow2((8 - k) as nat),
{
    axiom_u8_leading_zeros(b);
    lemma2_to64();
    let z = u8_leading_zeros(b) as u8;
    if b != 0 {
        let low: u8 = (7 - z) as u8;
        let high: u8 = (8 - z) as u8;
        assert((b >> low) & 1u8 != 0u8);
        assert(b >> high == 0);
        assert(b >= (1u16 << low)) by (bit_vector)
            requires
                low < 8,
                (b >> low) & 1u8 != 0u8,
        ;
        assert(b < (1u16 << high)) by (bit_vector)
            requires
                high <= 8,
                b >> high == 0,
        ;
        vstd::bits::lemma_u16_shl_is_mul(1, low as u16);
        vstd::bits::lemma_u16_shl_is_mul(1, high as u16);
        if k <= z {
            if 8 - z < 8 - k {
                lemma_pow2_strictly_increases((8 - z) as nat, (8 - k) as nat);
            }
        } else {
            if 8 - k < 7 - z {
                lemma_pow2_strictly_increases((8 - k) as nat, (7 - z) as nat);
            }
        }
    } else {
        lemma_pow2_pos((8 - k) as nat);
    }
}

/// Bytes write a number below `2^(8 * len)`.
proof fn lemma_be_value_bound(bytes: Seq<u8>)
    ensures
        be_value(bytes) < pow2(8 * bytes.len()),
    decreases bytes.len(),
{
    if bytes.len() == 0 {
        lemma2_to64();
    } else {
        let rest = bytes.skip(1);
        lemma_be_value_bound(rest);
        lemma_pow2_adds(8, 8 * rest.len());
        lemma2_to64();
        let p = pow2(8 * rest.len());
        assert(bytes[0] as nat * p + p <= 256 * p) by (nonlinear_arith)
            requires
                bytes[0] <= 255,
        ;
    }
}

/// A digest has `k` leading zero bits exactly if, read as a number, it is below
/// `2^(8 * len - k)`: a difficulty is a bound on the digest.
pub proof fn law_zero_bits_bound_the_digest(bytes: Seq<u8>, k: nat)
    requires
        k <= 8 * bytes.len(),
    ensures
        zero_bits(bytes) >= k <==> be_value(bytes) < pow2((8 * bytes.len() - k) as nat),
    decreases bytes.len(),
{
    if bytes.len() == 0 {
        lemma2_to64();
    } else {
        let rest = bytes.skip(1);
        let p = pow2(8 * rest.len());
        lemma_be_value_bound(rest);
        if k <= 8 {
            lemma_byte_zero_bits(bytes[0], k);
            axiom_u8_leading_zeros(bytes[0]);
            let q = pow2((8 - k) as nat);
            lemma_pow2_adds((8 - k) as nat, 8 * rest.len());
            assert(8 - k + 8 * rest.len() == 8 * bytes.len() - k);
            assert(be_value(bytes) < q * p <==> bytes[0] < q) by (nonlinear_arith)
                requires
                    be_value(bytes) == bytes[0] as nat * p + be_value(rest),
                    be_value(rest) < p,
            ;
        } else if bytes[0] == 0 {
            assert(0 * p == 0) by (nonlinear_arith);
            law_zero_bits_bound_the_digest(rest, (k - 8) as nat);
        } else {
            axiom_u8_leading_zeros(bytes[0]);
            assert(bytes[0] as nat * p >= p) by (nonlinear_arith)
                requires
                    bytes[0] >= 1,
            ;
            lemma_pow2_strictly_increases((8 * bytes.len() - k) as nat, 8 * rest.len());
        }
    }
}

/// A digest meets a difficulty exactly if it has that many bits and each of them,
/// counted from the most significant bit of the first byte, is zero.
pub proof fn law_difficulty_counts_zero_bits(digest: Seq<u8>, difficulty: nat)
    ensures
        zero_bits(digest) >= difficulty <==> difficulty <= 8 * digest.len() && forall|
            k: int,
            j: u8,
        |
            0 <= k && j < 8 && 8 * k + 7 - j < difficulty ==> #[trigger] (digest[k] >> j) & 1u8
                == 0u8,
    decreases digest.len(),
{
    lemma_zero_bits_at_most(digest);
    if digest.len() > 0 && difficulty <= 8 * digest.len() {
        let first = digest[0];
        let rest = digest.skip(1);
        axiom_u8_leading_zeros(first);
        if first == 0 {
            assert forall|j: u8| j < 8 implies #[trigger] (first >> j) & 1u8 == 0u8 by {
                assert(0u8 >> j & 1u8 == 0u8) by (bit_vector)
                    requires
                        j < 8,
                ;
            }
            let less: nat = if difficulty > 8 {
                (difficulty - 8) as nat
            } else {
                0
            };
            law_difficulty_counts_zero_bits(rest, less);
            if zero_bits(digest) >= difficulty {
                assert forall|k: int, j: u8|
                    0 <= k && j < 8 && 8 * k + 7 - j < difficulty implies #[trigger] (digest[k]
                    >> j) & 1u8 == 0u8 by {
                    if k > 0 {
                        assert(rest[k - 1] == digest[k]);
                        assert((rest[k - 1] >> j) & 1u8 == 0u8);
                    }
                }
            } else {
                let (k, j) = choose|k: int, j: u8|
                    0 <= k && j < 8 && 8 * k + 7 - j < less && #[trigger] (rest[k] >> j) & 1u8
                        != 0u8;
                assert(rest[k] == digest[k + 1]);
                assert((digest[k + 1] >> j) & 1u8 != 0u8);
            }
        } else {
            let z = u8_leading_zeros(first);
            if z >= difficulty {
                assert forall|k: int, j: u8|
                    0 <= k && j < 8 && 8 * k + 7 - j < difficulty implies #[trigger] (digest[k]
                    >> j) & 1u8 == 0u8 by {
                    assert(k == 0);
                }
            } else {
                let j = (7 - z) as u8;
                assert((digest[0] >> j) & 1u8 != 0u8);
            }
        }
    }
}

/// One more byte multiplies the number by 256 and adds to it.
pub(crate) proof fn lemma_be_value_push(bytes: Seq<u8>, last: u8)
    ensures
        be_value(bytes.push(last)) == 256 * be_value(bytes) + last,
    decreases bytes.len(),
{
    lemma2_to64();
    let longer = bytes.push(last);
    if bytes.len() == 0 {
        assert(longer.skip(1) =~= Seq::empty());
        assert(be_value(longer) == longer[0] as nat * pow2(0) + be_value(longer.skip(1)));
        assert(be_value(Seq::<u8>::empty()) == 0);
        assert(last as nat * 1 == last as nat);
    } else {
        let rest = bytes.skip(1);
        assert(longer.skip(1) =~= rest.push(last));
        lemma_be_value_push(rest, last);
        let p = pow2((8 * rest.len()) as nat);
        lemma_pow2_adds(8, (8 * rest.len()) as nat);
        assert(pow2((8 * (longer.len() - 1)) as nat) == 256 * p) by {
            assert(8 * (longer.len() - 1) == 8 + 8 * rest.len());
        }
        assert(bytes[0] as nat * (256 * p) == 256 * (bytes[0] as nat * p)) by (nonlinear_arith);
    }
}

/// Bytes of one number and one length are the same.
proof fn lemma_be_value_injective(a: Seq<u8>, b: Seq<u8>)
    requires
        a.len() == b.len(),
        be_value(a) == be_value(b),
    ensures
        a == b,
    decreases a.len(),
{
    if a.len() > 0 {
        let (x, y) = (a.drop_last(), b.drop_last());
        assert(x.push(a.last()) =~= a);
        assert(y.push(b.last()) =~= b);
        lemma_be_value_push(x, a.last());
        lemma_be_value_push(y, b.last());
        lemma_be_value_injective(x, y);
    } else {
        assert(a =~= b);
    }
}

/// The next byte of a number, behind those before it.
proof fn lemma_be_value_next(before: Seq<u8>, n: int, unit: int)
    requires
        n >= 0,
        unit > 0,
        be_value(before) == n / (unit * 256),
    ensures
        be_value(before.push((n / unit % 256) as u8)) == n / unit,
{
    lemma_be_value_push(before, (n / unit % 256) as u8);
    lemma_div_denominator(n, unit, 256);
    lemma_fundamental_div_mod(n / unit, 256);
    lemma_div_pos_is_pos(n, unit);
}

/// The eight bytes of a number write that number.
#[verifier::spinoff_prover]
proof fn lemma_be_bytes_write_the_number(n: u64)
    ensures
        be_value(be_bytes(n)) == n,
{
    let n_int = n as int;
    let s0 = Seq::<u8>::empty();
    let s1 = s0.push((n_int / 0x100_0000_0000_0000 % 256) as u8);
    let s2 = s1.push((n_int / 0x1_0000_0000_0000 % 256) as u8);
    let s3 = s2.push((n_int / 0x100_0000_0000 % 256) as u8);
    let s4 = s3.push((n_int / 0x1_0000_0000 % 256) as u8);
    let s5 = s4.push((n_int / 0x100_0000 % 256) as u8);
    let s6 = s5.push((n_int / 0x1_0000 % 256) as u8);
    let s7 = s6.push((n_int / 0x100 % 256) as u8);
    let s8 = s7.push((n_int / 1 % 256) as u8);
    assert(s8 =~= be_bytes(n));
    assert(be_value(s0) == 0);
    lemma_be_value_next(s0, n_int, 0x100_0000_0000_0000);
    lemma_be_value_next(s1, n_int, 0x1_0000_0000_0000);
    lemma_be_value_next(s2, n_int, 0x100_0000_0000);
    lemma_be_value_next(s3, n_int, 0x1_0000_0000);
    lemma_be_value_next(s4, n_int, 0x100_0000);
    lemma_be_value_next(s5, n_int, 0x1_0000);
    lemma_be_value_next(s6, n_int, 0x100);
    lemma_be_value_next(s7, n_int, 1);
}

/// A nonce solves a challenge exactly if the SHA-256 digest of one message, read
/// as a number, is below a bound that halves with every step of the difficulty.
/// The message is all of the challenge in UTF-8 and then the eight bytes that
/// write the nonce, most significant first.
pub proof fn law_work_is_done_on_the_whole_challenge(
    challenge: Seq<char>,
    nonce: u64,
    nonce_bytes: Seq<u8>,
    difficulty: nat,
)
    requires
        nonce_bytes.len() == 8,
        be_value(nonce_bytes) == nonce,
    ensures
        pow_valid(challenge, nonce, difficulty) <==> difficulty <= 256 && be_value(
            sha256(encode_utf8(challenge) + nonce_bytes)@,
        ) < pow2((256 - difficulty) as nat),
{
    lemma_be_bytes_write_the_number(nonce);
    lemma_be_value_injective(nonce_bytes, be_bytes(nonce));
    let digest = sha256(encode_utf8(challenge) + nonce_bytes)@;
    assert(digest.len() == 32);
    lemma_zero_bits_at_most(digest);
    if difficulty <= 256 {
        law_zero_bits_bound_the_digest(digest, difficulty);
    }
}

/// The digest that is judged belongs to a message that holds the whole challenge
/// and the whole nonce: it is as long as both together, starts with every byte of
/// the challenge, and ends in eight bytes that write the nonce.
pub proof fn law_message_holds_challenge_and_nonce(challenge: Seq<char>, nonce: u64)
    ensures
        exists|message: Seq<u8>|
            {
                &&& pow_digest(challenge, nonce) == (#[trigger] sha256(message))@
                &&& message.len() == encode_utf8(challenge).len() + 8
                &&& message.take(encode_utf8(challenge).len() as int) == encode_utf8(challenge)
                &&& be_value(message.skip(encode_utf8(challenge).len() as int)) == nonce
            },
{
    let text = encode_utf8(challenge);
    let message = text + be_bytes(nonce);
    lemma_be_bytes_write_the_number(nonce);
    assert(message.take(text.len() as int) =~= text);
    assert(message.skip(text.len() as int) =~= be_bytes(nonce));
    assert(pow_digest(challenge, nonce) == sha256(message)@);
}

/// A digest of `len` bytes has at most `8 * len` leading zero bits.
proof fn lemma_zero_bits_at_most(bytes: Seq<u8>)
    ensures
        zero_bits(bytes) <= 8 * bytes.len(),
    decreases bytes.len(),
{
    if bytes.len() > 0 {
        axiom_u8_leading_zeros(bytes[0]);
        lemma_zero_bits_at_most(bytes.skip(1));
    }
}

/// A solution of a challenge solves it at every lower difficulty too, and at
/// difficulty 0 every nonce is a solution.
pub proof fn law_easier_challenges_stay_solved(
    challenge: Seq<char>,
    nonce: u64,
    difficulty: nat,
    lower: nat,
)
    requires
        lower <= difficulty,
    ensures
        pow_valid(challenge, nonce, difficulty) ==> pow_valid(challenge, nonce, lower),
        pow_valid(challenge, nonce, 0),
{
}

/// Whether `z` is the highest difficulty at which a nonce solves a challenge.
pub open spec fn solves_up_to(challenge: Seq<char>, nonce: u64, z: nat) -> bool {
    forall|difficulty: nat| #[trigger]
        pow_valid(challenge, nonce, difficulty) <==> difficulty <= z
}

/// Every nonce solves a challenge up to one difficulty and at none above it; that
/// difficulty is at most the number of bits of a digest.
pub proof fn law_work_has_a_threshold(challenge: Seq<char>, nonce: u64)
    ensures
        exists|z: nat| z <= DIGEST_BITS && #[trigger] solves_up_to(challenge, nonce, z),
        forall|y: nat, z: nat|
            #[trigger] solves_up_to(challenge, nonce, y) && #[trigger] solves_up_to(
                challenge,
                nonce,
                z,
            ) ==> y == z,
        forall|difficulty: nat|
            difficulty > DIGEST_BITS ==> !#[trigger] pow_valid(challenge, nonce, difficulty),
{
    let digest = pow_digest(challenge, nonce);
    assert(digest.len() == 32);
    lemma_zero_bits_at_most(digest);
    assert(solves_up_to(challenge, nonce, zero_bits(digest)));
    assert forall|y: nat, z: nat|
        #[trigger] solves_up_to(challenge, nonce, y) && #[trigger] solves_up_to(
            challenge,
            nonce,
            z,
        ) implies y == z by {
        assert(pow_valid(challenge, nonce, y));
        assert(pow_valid(challenge, nonce, z));
    }
}

/// No digest has more leading zero bits than bits.
pub proof fn law_difficulty_beyond_the_digest_is_never_met(digest: Seq<u8>, difficulty: nat)
    requires
        difficulty > 8 * digest.len(),
    ensures
        zero_bits(digest) < difficulty,
{
    lemma_zero_bits_at_most(digest);
}

} // verus!

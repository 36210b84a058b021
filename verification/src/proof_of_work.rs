//! The proof-of-work rule: difficulty targets and the check of a nonce.
//!
//! A nonce solves a challenge if the Keccak-256 hash of the challenge followed
//! by the nonce, as 32 big-endian bytes, is at most the target.
use crate::bindings::checked_sum;
use crate::bindings::from_be_bytes;
use crate::bindings::keccak256;
use crate::bindings::keccak256_digest;
use crate::bindings::shift_right;
use crate::bindings::to_be_bytes;
use crate::bytes::be_bytes;
use crate::bytes::be_value;
use crate::bytes::hex_digit;
use crate::bytes::lemma_be_bytes_len;
use crate::bytes::law_be_bytes_positional;
use crate::bytes::law_be_bytes_read_back;
use crate::bytes::law_be_value_write_back;
use crate::bytes::lemma_be_value_bound;
use crate::bytes::lemma_leading_hex_zeros;
use crate::u256::lemma_below_modulus;
use crate::u256::modulus;
use crate::u256::U256;
use vstd::arithmetic::div_mod::lemma_div_is_ordered_by_denominator;
use vstd::arithmetic::div_mod::lemma_basic_div;
use vstd::arithmetic::div_mod::lemma_fundamental_div_mod;
use vstd::arithmetic::power2::lemma2_to64;
use vstd::arithmetic::power2::lemma_pow2_adds;
use vstd::arithmetic::power2::lemma_pow2_pos;
use vstd::arithmetic::power2::lemma_pow2_strictly_increases;
use vstd::arithmetic::power2::pow2;
use vstd::prelude::*;

verus! {

/// The number of hexadecimal digits of a hash.
pub const HASH_HEX_DIGITS: u128 = 64;

/// The target for a number of leading hexadecimal zeros: 2^256 - 1 shifted
/// right by four bits for each zero.
pub open spec fn target_value(hex_zeros: nat) -> nat {
    (modulus() - 1) as nat / pow2(4 * hex_zeros)
}

/// The bytes that are hashed for a nonce.
pub open spec fn preimage(challenge: Seq<u8>, nonce: nat) -> Seq<u8> {
    challenge + be_bytes(nonce, 32)
}

/// Whether a nonce solves a challenge.
pub open spec fn proof_valid(challenge: Seq<u8>, nonce: nat, target: nat) -> bool {
    be_value(keccak256_digest(preimage(challenge, nonce))) <= target
}

/// The difficulty that belongs to a target: one more, but no more than the
/// largest 256-bit value.
pub open spec fn difficulty_value(target: nat) -> nat {
    if target + 1 < modulus() {
        target + 1
    } else {
        (modulus() - 1) as nat
    }
}

/// The target for a number of leading hexadecimal zeros. More zeros than a hash
/// has digits count as all of them.
pub fn target_from_hex_zeros(hex_zeros: U256) -> (r: U256)
    ensures
        r@ == target_value(hex_zeros@),
{
    let wanted: u128 = if hex_zeros.fits_u128() {
        hex_zeros.to_u128()
    } else {
        HASH_HEX_DIGITS
    };
    let zeros: usize = if wanted < HASH_HEX_DIGITS {
        wanted as usize
    } else {
        64
    };
    let shift: usize = zeros * 4;
    proof {
        lemma_pow2_pos(256);
        lemma2_to64();
        if hex_zeros@ >= 64 {
            if hex_zeros@ > 64 {
                lemma_pow2_strictly_increases(256, 4 * hex_zeros@);
            }
            lemma_basic_div(modulus() - 1, pow2(4 * hex_zeros@) as int);
            assert(target_value(hex_zeros@) == 0);
        } else {
            law_target_form(0);
        }
    }
    if shift == 0 {
        U256::max_value()
    } else if shift >= 256 {
        U256::zero()
    } else {
        shift_right(U256::max_value(), shift)
    }
}

/// The exclusive bound that a mining kernel compares hashes against.
pub fn target_to_difficulty(target: U256) -> (r: U256)
    ensures
        r@ == difficulty_value(target@),
        target@ < modulus() - 1 ==> r@ == target@ + 1,
        target@ == modulus() - 1 ==> r@ == target@,
{
    match checked_sum(target, U256::from_u64(1)) {
        Some(difficulty) => {
            proof {
                lemma_below_modulus(difficulty);
            }
            difficulty
        },
        None => U256::max_value(),
    }
}

/// The 64 bytes that are hashed for a nonce.
pub fn proof_preimage(challenge: &[u8; 32], nonce: U256) -> (r: [u8; 64])
    ensures
        r@ == preimage(challenge@, nonce@),
        forall|i: int| 0 <= i < 32 ==> #[trigger] r@[i] == challenge@[i],
        be_value(r@.skip(32)) == nonce@,
{
    let tail = to_be_bytes(nonce);
    let mut buf: [u8; 64] = [0u8; 64];
    let mut i: usize = 0;
    while i < 32
        invariant
            i <= 32,
            forall|j: int| 0 <= j < i ==> buf@[j] == challenge@[j],
            forall|j: int| 0 <= j < i ==> buf@[32 + j] == tail@[j],
        decreases 32 - i,
    {
        buf[i] = challenge[i];
        buf[32 + i] = tail[i];
        i += 1;
    }
    assert(buf@ =~= challenge@ + tail@);
    proof {
        lemma_below_modulus(nonce);
        law_be_bytes_read_back(nonce@, 32);
        assert(buf@.skip(32) =~= tail@);
    }
    buf
}

/// Whether a hash is at most a target.
pub fn hash_meets_target(hash: &[u8; 32], target: U256) -> (r: bool)
    ensures
        r == (be_value(hash@) <= target@),
{
    from_be_bytes(hash).le(&target)
}

/// Whether a nonce solves a challenge.
pub fn check_proof(challenge: &[u8; 32], nonce: U256, target: U256) -> (r: bool)
    ensures
        r == proof_valid(challenge@, nonce@, target@),
        keccak256_digest(preimage(challenge@, nonce@)).len() == 32,
        target@ == modulus() - 1 ==> r,
{
    let buf = proof_preimage(challenge, nonce);
    let hash = keccak256(buf.as_slice());
    proof {
        lemma_be_value_bound(hash@);
    }
    hash_meets_target(&hash, target)
}

/// Up to 64 hexadecimal zeros, the target is the largest number with that many
/// leading zero digits among 64.
pub proof fn law_target_form(hex_zeros: nat)
    requires
        hex_zeros <= 64,
    ensures
        target_value(hex_zeros) == pow2((256 - 4 * hex_zeros) as nat) - 1,
{
    let s = pow2(4 * hex_zeros) as int;
    let t = pow2((256 - 4 * hex_zeros) as nat) as int;
    lemma_pow2_pos(4 * hex_zeros);
    lemma_pow2_pos((256 - 4 * hex_zeros) as nat);
    lemma_pow2_pos(256);
    lemma_pow2_adds(4 * hex_zeros, (256 - 4 * hex_zeros) as nat);
    assert((s * t - 1) / s == t - 1) by (nonlinear_arith)
        requires
            s > 0,
            t > 0,
    ;
}

/// Without hexadecimal zeros the target is the largest value, and every 32-byte
/// hash meets it.
pub proof fn law_no_zeros_accepts_all(hash: Seq<u8>)
    requires
        hash.len() == 32,
    ensures
        target_value(0) == modulus() - 1,
        be_value(hash) <= target_value(0),
{
    law_target_form(0);
    lemma_be_value_bound(hash);
}

/// More hexadecimal zeros never raise the target.
pub proof fn law_target_antitone(fewer: nat, more: nat)
    requires
        fewer <= more,
    ensures
        target_value(more) <= target_value(fewer),
{
    lemma_pow2_pos(4 * fewer);
    lemma_pow2_pos(4 * more);
    lemma_pow2_pos(256);
    if fewer < more {
        lemma_pow2_strictly_increases(4 * fewer, 4 * more);
        lemma_div_is_ordered_by_denominator(
            modulus() - 1,
            pow2(4 * fewer) as int,
            pow2(4 * more) as int,
        );
    }
}

/// A nonce that solves a challenge at one difficulty solves it at every easier
/// one.
pub proof fn law_proof_survives_easing(challenge: Seq<u8>, nonce: nat, fewer: nat, more: nat)
    requires
        fewer <= more,
    ensures
        proof_valid(challenge, nonce, target_value(more)) ==> proof_valid(
            challenge,
            nonce,
            target_value(fewer),
        ),
{
    law_target_antitone(fewer, more);
}

/// A 32-byte hash meets the target for a number of hexadecimal zeros exactly
/// if that many of its leading hexadecimal digits are zero.
pub proof fn law_target_counts_hex_zeros(hash: Seq<u8>, hex_zeros: nat)
    requires
        hash.len() == 32,
    ensures
        be_value(hash) <= target_value(hex_zeros) <==> forall|i: int|
            0 <= i < hex_zeros && i < 64 ==> #[trigger] hex_digit(hash, i) == 0,
{
    let digits = if hex_zeros <= 64 {
        hex_zeros
    } else {
        64
    };
    lemma_leading_hex_zeros(hash, digits);
    law_target_form(digits);
    if hex_zeros > 64 {
        lemma2_to64();
        law_target_antitone(64, hex_zeros);
        assert(target_value(hex_zeros) == 0 == target_value(64));
    }
}

/// A nonce solves a challenge at a number of hexadecimal zeros exactly if the
/// hash, which has 32 bytes, starts with that many zero digits.
pub proof fn law_proof_counts_hex_zeros(challenge: Seq<u8>, nonce: nat, hex_zeros: nat)
    ensures
        ({
            let hash = keccak256_digest(preimage(challenge, nonce));
            hash.len() == 32 ==> (proof_valid(challenge, nonce, target_value(hex_zeros))
                <==> forall|i: int|
                0 <= i < hex_zeros && i < 64 ==> #[trigger] hex_digit(hash, i) == 0)
        }),
{
    let hash = keccak256_digest(preimage(challenge, nonce));
    if hash.len() == 32 {
        law_target_counts_hex_zeros(hash, hex_zeros);
    }
}

/// A hash is at most the target exactly if it is below the difficulty, except
/// for the largest hash under the largest target, where the difficulty
/// saturates.
pub proof fn law_difficulty_is_exclusive_target(hash: nat, target: nat)
    requires
        hash < modulus(),
        target < modulus(),
        !(hash == modulus() - 1 && target == modulus() - 1),
    ensures
        hash <= target <==> hash < difficulty_value(target),
{
}

/// Different nonces are hashed from different bytes.
pub proof fn law_preimage_injective(challenge: Seq<u8>, n1: U256, n2: U256)
    requires
        preimage(challenge, n1@) == preimage(challenge, n2@),
    ensures
        n1@ == n2@,
{
    lemma_below_modulus(n1);
    lemma_below_modulus(n2);
    lemma_be_bytes_len(n1@, 32);
    lemma_be_bytes_len(n2@, 32);
    law_be_bytes_read_back(n1@, 32);
    law_be_bytes_read_back(n2@, 32);
    let p1 = preimage(challenge, n1@);
    let p2 = preimage(challenge, n2@);
    assert(p1.skip(challenge.len() as int) =~= be_bytes(n1@, 32));
    assert(p2.skip(challenge.len() as int) =~= be_bytes(n2@, 32));
}

/// The message that is hashed has 64 bytes: the challenge, byte for byte, and
/// the nonce, most significant byte first.
pub proof fn law_preimage_layout(challenge: Seq<u8>, nonce: nat)
    requires
        challenge.len() == 32,
        nonce < modulus(),
    ensures
        preimage(challenge, nonce).len() == 64,
        forall|i: int| 0 <= i < 32 ==> #[trigger] preimage(challenge, nonce)[i] == challenge[i],
        be_value(preimage(challenge, nonce).skip(32)) == nonce,
        forall|i: int|
            32 <= i < 64 ==> #[trigger] preimage(challenge, nonce)[i] == (nonce / pow2(
                (8 * (63 - i)) as nat,
            )) % 256,
{
    let message = preimage(challenge, nonce);
    lemma_be_bytes_len(nonce, 32);
    law_be_bytes_read_back(nonce, 32);
    assert(message.skip(32) =~= be_bytes(nonce, 32));
    assert forall|i: int| 32 <= i < 64 implies #[trigger] message[i] == (nonce / pow2(
        (8 * (63 - i)) as nat,
    )) % 256 by {
        law_be_bytes_positional(nonce, 32, i - 32);
        assert(message[i] == be_bytes(nonce, 32)[i - 32]);
    }
}

/// A nonce solves a challenge exactly if the digest of the 64 bytes that start
/// with the challenge and end with the nonce, read with the highest byte first,
/// is at most the target.
pub proof fn law_proof_hashes_challenge_and_nonce(
    challenge: Seq<u8>,
    nonce: nat,
    target: nat,
    message: Seq<u8>,
)
    requires
        challenge.len() == 32,
        nonce < modulus(),
        message.len() == 64,
        forall|i: int| 0 <= i < 32 ==> #[trigger] message[i] == challenge[i],
        be_value(message.skip(32)) == nonce,
    ensures
        proof_valid(challenge, nonce, target) <==> be_value(keccak256_digest(message)) <= target,
{
    law_preimage_layout(challenge, nonce);
    law_be_value_write_back(message.skip(32));
    law_be_value_write_back(preimage(challenge, nonce).skip(32));
    assert(message =~= preimage(challenge, nonce)) by {
        assert forall|i: int| 0 <= i < 64 implies message[i] == preimage(challenge, nonce)[i] by {
            if i >= 32 {
                assert(message.skip(32)[i - 32] == message[i]);
                assert(preimage(challenge, nonce).skip(32)[i - 32] == preimage(
                    challenge,
                    nonce,
                )[i]);
            }
        }
    }
}

/// The target is 2^256 - 1 without its lowest four bits for each hexadecimal
/// zero: put back, they make up the difference. From 64 zeros on nothing is
/// left.
pub proof fn law_target_is_a_shift(hex_zeros: nat)
    ensures
        target_value(hex_zeros) * pow2(4 * hex_zeros) <= modulus() - 1,
        modulus() - 1 < (target_value(hex_zeros) + 1) * pow2(4 * hex_zeros),
        hex_zeros >= 64 ==> target_value(hex_zeros) == 0,
{
    lemma_pow2_pos(256);
    lemma_pow2_pos(4 * hex_zeros);
    let p = pow2(4 * hex_zeros) as int;
    let t = target_value(hex_zeros) as int;
    lemma_fundamental_div_mod(modulus() - 1, p);
    assert(t * p <= modulus() - 1 && modulus() - 1 < (t + 1) * p) by (nonlinear_arith)
        requires
            modulus() - 1 == p * t + (modulus() - 1) % p,
            0 <= (modulus() - 1) % p < p,
    ;
    if hex_zeros >= 64 {
        lemma2_to64();
        law_target_form(64);
        law_target_antitone(64, hex_zeros);
    }
}

/// The difficulty is one more than the target, but for the largest target,
/// which is its own difficulty.
pub proof fn law_difficulty_is_next(target: nat)
    requires
        target < modulus(),
    ensures
        target < modulus() - 1 ==> difficulty_value(target) == target + 1,
        target == modulus() - 1 ==> difficulty_value(target) == target,
{
}

} // verus!

//! The operations that come from outside crates: 256-bit arithmetic, the
//! Keccak-256 hash and key parsing from `alloy`, randomness from `rand`.
//!
//! Nothing in this file is proved. Each function makes one outside call and
//! states what that call returns; everything else in the crate is verified on
//! top of these statements.
use crate::bytes::be_bytes;
use crate::bytes::be_value;
use crate::u256::modulus;
use crate::u256::U256;
use vstd::arithmetic::power2::pow2;
use vstd::prelude::*;
use vstd::utf8::encode_utf8;

verus! {

/// The Keccak-256 digest of a byte string.
pub uninterp spec fn keccak256_digest(data: Seq<u8>) -> Seq<u8>;

/// The account address that belongs to a private key in text form, or `None`
/// if the text is no private key.
pub uninterp spec fn private_key_address(key: Seq<char>) -> Option<Seq<u8>>;

/// The value of a hexadecimal digit of either case, or `None` for another
/// character.
pub open spec fn hex_digit_value(c: char) -> Option<nat> {
    if '0' <= c && c <= '9' {
        Some((c as int - '0' as int) as nat)
    } else if 'a' <= c && c <= 'f' {
        Some((c as int - 'a' as int + 10) as nat)
    } else if 'A' <= c && c <= 'F' {
        Some((c as int - 'A' as int + 10) as nat)
    } else {
        None
    }
}

/// The number that hexadecimal digits denote.
pub open spec fn hex_number(digits: Seq<char>) -> nat
    decreases digits.len(),
{
    if digits.len() == 0 {
        0
    } else {
        hex_number(digits.drop_last()) * 16 + hex_digit_value(digits.last())->0
    }
}

/// The order of the group of the curve secp256k1.
pub open spec fn secp256k1_order() -> nat {
    0xFFFF_FFFF_FFFF_FFFF_FFFF_FFFF_FFFF_FFFE_BAAE_DCE6_AF48_A03B_BFD2_5E8C_D036_4141nat
}

/// Whether a text is a private key: 64 hexadecimal digits that denote a number
/// between zero and the order of the curve, both excluded.
pub open spec fn is_private_key(text: Seq<char>) -> bool {
    &&& text.len() == 64
    &&& forall|i: int| 0 <= i < text.len() ==> hex_digit_value(#[trigger] text[i]) is Some
    &&& 0 < hex_number(text) < secp256k1_order()
}

/// `>>` of `alloy::primitives::U256`: the quotient by 2^n, rounded down, for
/// every shift amount.
#[verifier::external_body]
pub(crate) fn shift_right(a: U256, n: usize) -> (r: U256)
    ensures
        r@ == a@ / pow2(n as nat),
{
    U256 { limbs: (alloy::primitives::U256::from_limbs(a.limbs) >> n).into_limbs() }
}

/// `checked_add` of `alloy::primitives::U256`: the sum, or `None` if it
/// reaches 2^256.
#[verifier::external_body]
pub(crate) fn checked_sum(a: U256, b: U256) -> (r: Option<U256>)
    ensures
        match r {
            Some(sum) => sum@ == a@ + b@,
            None => a@ + b@ >= modulus(),
        },
{
    alloy::primitives::U256::from_limbs(a.limbs)
        .checked_add(alloy::primitives::U256::from_limbs(b.limbs))
        .map(|sum| U256 { limbs: sum.into_limbs() })
}

/// `+` of `alloy::primitives::U256`: the sum modulo 2^256.
#[verifier::external_body]
pub(crate) fn wrapping_sum(a: U256, b: U256) -> (r: U256)
    ensures
        r@ == (a@ + b@) % modulus(),
{
    let sum = alloy::primitives::U256::from_limbs(a.limbs)
        + alloy::primitives::U256::from_limbs(b.limbs);
    U256 { limbs: sum.into_limbs() }
}

/// `*` of `alloy::primitives::U256`: the product modulo 2^256.
#[verifier::external_body]
pub(crate) fn wrapping_product(a: U256, b: U256) -> (r: U256)
    ensures
        r@ == (a@ * b@) % modulus(),
{
    let product = alloy::primitives::U256::from_limbs(a.limbs)
        * alloy::primitives::U256::from_limbs(b.limbs);
    U256 { limbs: product.into_limbs() }
}

/// `/` of `alloy::primitives::U256`: the quotient, rounded down. The outside
/// operator panics on a zero divisor.
#[verifier::external_body]
pub(crate) fn quotient(a: U256, b: U256) -> (r: U256)
    requires
        b@ != 0,
    ensures
        r@ == a@ / b@,
{
    let quotient = alloy::primitives::U256::from_limbs(a.limbs)
        / alloy::primitives::U256::from_limbs(b.limbs);
    U256 { limbs: quotient.into_limbs() }
}

/// `%` of `alloy::primitives::U256`: the remainder of the division. The
/// outside operator panics on a zero divisor.
#[verifier::external_body]
pub(crate) fn remainder(a: U256, b: U256) -> (r: U256)
    requires
        b@ != 0,
    ensures
        r@ == a@ % b@,
{
    let remainder = alloy::primitives::U256::from_limbs(a.limbs)
        % alloy::primitives::U256::from_limbs(b.limbs);
    U256 { limbs: remainder.into_limbs() }
}

/// `to_be_bytes::<32>` of `alloy::primitives::U256`: the 32 bytes of the
/// value, most significant first.
#[verifier::external_body]
pub(crate) fn to_be_bytes(a: U256) -> (r: [u8; 32])
    ensures
        r@ == be_bytes(a@, 32),
{
    alloy::primitives::U256::from_limbs(a.limbs).to_be_bytes::<32>()
}

/// `from_be_bytes::<32>` of `alloy::primitives::U256`: the value that 32
/// bytes denote, most significant first.
#[verifier::external_body]
pub(crate) fn from_be_bytes(bytes: &[u8; 32]) -> (r: U256)
    ensures
        r@ == be_value(bytes@),
{
    U256 { limbs: alloy::primitives::U256::from_be_bytes::<32>(*bytes).into_limbs() }
}

/// `alloy::primitives::keccak256`: a digest that depends on the bytes alone.
/// What the digest is on given bytes is not stated.
#[verifier::external_body]
pub(crate) fn keccak256(data: &[u8]) -> (r: [u8; 32])
    ensures
        r@ == keccak256_digest(data@),
{
    alloy::primitives::keccak256(data).0
}

/// `gen` of `rand::thread_rng()`: any 64-bit number. Nothing is stated of how
/// the numbers are distributed. The generator seeds itself from the operating
/// system, and panics where that gives it no randomness.
#[verifier::external_body]
pub(crate) fn random_u64() -> (r: u64) {
    rand::Rng::gen::<u64>(&mut rand::thread_rng())
}

/// The error of key parsing in `alloy::signers::local`.
#[verifier::external_type_specification]
#[verifier::external_body]
pub struct ExLocalSignerError(alloy::signers::local::LocalSignerError);

/// `parse` of `alloy::signers::local::PrivateKeySigner` and the `address` of
/// the signer: whether the text is accepted, and the address that belongs to
/// it, depend on the text alone. A text of 64 bytes is accepted exactly if it
/// consists of hexadecimal digits and denotes a number that is a scalar of the
/// curve other than zero. What the address is, and which error comes for a text
/// that is not accepted, is not stated.
#[verifier::external_body]
pub(crate) fn signer_address(key: &str) -> (r: Result<
    [u8; 20],
    alloy::signers::local::LocalSignerError,
>)
    ensures
        match r {
            Ok(address) => private_key_address(key@) == Some(address@),
            Err(_) => private_key_address(key@) is None,
        },
        encode_utf8(key@).len() == 64 ==> (r is Ok <==> is_private_key(key@)),
{
    key.parse::<alloy::signers::local::PrivateKeySigner>().map(
        |signer| signer.address().into_array(),
    )
}

} // verus!

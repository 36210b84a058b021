//! Big-endian byte strings and the numbers that they denote.
use vstd::arithmetic::div_mod::lemma_div_denominator;
use vstd::arithmetic::div_mod::lemma_fundamental_div_mod;
use vstd::arithmetic::power2::lemma2_to64;
use vstd::arithmetic::power2::lemma_pow2_adds;
use vstd::arithmetic::power2::lemma_pow2_pos;
use vstd::arithmetic::power2::pow2;
use vstd::prelude::*;

verus! {

/// The number that a byte string denotes, most significant byte first.
pub open spec fn be_value(bytes: Seq<u8>) -> nat
    decreases bytes.len(),
{
    if bytes.len() == 0 {
        0
    } else {
        be_value(bytes.drop_last()) * 256 + bytes.last() as nat
    }
}

/// The `width` lowest bytes of a number, most significant byte first.
pub open spec fn be_bytes(value: nat, width: nat) -> Seq<u8>
    decreases width,
{
    if width == 0 {
        Seq::empty()
    } else {
        be_bytes(value / 256, (width - 1) as nat).push((value % 256) as u8)
    }
}

/// The hexadecimal digits of a byte string, most significant first: digit
/// `2 * i` is the upper half of byte `i`, digit `2 * i + 1` its lower half.
pub open spec fn hex_digit(bytes: Seq<u8>, index: int) -> int {
    if index % 2 == 0 {
        bytes[index / 2] as int / 16
    } else {
        bytes[index / 2] as int % 16
    }
}

/// A byte string of length `n` denotes a number below 2^(8 * n).
pub proof fn lemma_be_value_bound(bytes: Seq<u8>)
    ensures
        be_value(bytes) < pow2(8 * bytes.len()),
    decreases bytes.len(),
{
    lemma2_to64();
    if bytes.len() > 0 {
        lemma_be_value_bound(bytes.drop_last());
        lemma_pow2_adds(8, (8 * (bytes.len() - 1)) as nat);
        assert(8 + 8 * (bytes.len() - 1) == 8 * bytes.len());
    }
}

/// Writing a number in `width` bytes gives that many bytes.
pub proof fn lemma_be_bytes_len(value: nat, width: nat)
    ensures
        be_bytes(value, width).len() == width,
    decreases width,
{
    if width > 0 {
        lemma_be_bytes_len(value / 256, (width - 1) as nat);
    }
}

/// Reading back the bytes of a number that fits in them gives the number.
pub proof fn law_be_bytes_read_back(value: nat, width: nat)
    requires
        value < pow2(8 * width),
    ensures
        be_value(be_bytes(value, width)) == value,
    decreases width,
{
    lemma2_to64();
    if width > 0 {
        let rest = (width - 1) as nat;
        lemma_pow2_adds(8, 8 * rest);
        assert(8 + 8 * rest == 8 * width);
        assert(value / 256 < pow2(8 * rest)) by (nonlinear_arith)
            requires
                value < 256 * pow2(8 * rest),
        ;
        law_be_bytes_read_back(value / 256, rest);
        assert(be_bytes(value, width).drop_last() =~= be_bytes(value / 256, rest));
    }
}

/// Writing the number that a byte string denotes, in as many bytes, gives the
/// byte string back.
pub proof fn law_be_value_write_back(bytes: Seq<u8>)
    ensures
        be_bytes(be_value(bytes), bytes.len()) == bytes,
    decreases bytes.len(),
{
    if bytes.len() > 0 {
        law_be_value_write_back(bytes.drop_last());
        let high = be_value(bytes.drop_last());
        assert((high * 256 + bytes.last()) / 256 == high);
        assert((high * 256 + bytes.last()) % 256 == bytes.last());
        assert(bytes.drop_last().push(bytes.last()) =~= bytes);
    } else {
        assert(bytes =~= Seq::<u8>::empty());
    }
}

/// Dropping the last `n` bytes divides the number by 2^(8 * n).
proof fn lemma_be_value_prefix(bytes: Seq<u8>, keep: nat)
    requires
        keep <= bytes.len(),
    ensures
        be_value(bytes) / pow2((8 * (bytes.len() - keep)) as nat) == be_value(
            bytes.take(keep as int),
        ),
    decreases bytes.len() - keep,
{
    lemma2_to64();
    if keep == bytes.len() {
        assert(bytes.take(keep as int) =~= bytes);
        assert(pow2((8 * (bytes.len() - keep)) as nat) == 1);
    } else {
        let rest = (bytes.len() - keep - 1) as nat;
        lemma_be_value_prefix(bytes, keep + 1);
        assert(8 * (bytes.len() - (keep + 1)) == 8 * rest);
        lemma_pow2_pos(8 * rest);
        lemma_pow2_adds(8 * rest, 8);
        assert(8 * rest + 8 == 8 * (bytes.len() - keep));
        lemma_div_denominator(be_value(bytes) as int, pow2(8 * rest) as int, 256);
        let longer = bytes.take(keep as int + 1);
        assert(longer.drop_last() =~= bytes.take(keep as int));
        assert((be_value(longer.drop_last()) * 256 + longer.last()) / 256 == be_value(
            longer.drop_last(),
        ));
    }
}

/// A byte string denotes zero exactly if all its bytes are zero.
proof fn lemma_be_value_zero(bytes: Seq<u8>)
    ensures
        be_value(bytes) == 0 <==> forall|i: int| 0 <= i < bytes.len() ==> bytes[i] == 0,
    decreases bytes.len(),
{
    if bytes.len() > 0 {
        let front = bytes.drop_last();
        lemma_be_value_zero(front);
        if be_value(bytes) == 0 {
            assert forall|i: int| 0 <= i < bytes.len() implies bytes[i] == 0 by {
                if i < bytes.len() - 1 {
                    assert(front[i] == 0);
                }
            }
        } else if forall|i: int| 0 <= i < bytes.len() ==> bytes[i] == 0 {
            assert forall|i: int| 0 <= i < front.len() implies front[i] == 0 by {
                assert(bytes[i] == 0);
            }
            assert(bytes.last() == 0);
        }
    }
}

/// A byte string of length `n` denotes a number below 16^(2 * n - digits)
/// exactly if its first `digits` hexadecimal digits are all zero.
pub proof fn lemma_leading_hex_zeros(bytes: Seq<u8>, digits: nat)
    requires
        digits <= 2 * bytes.len(),
    ensures
        be_value(bytes) < pow2((8 * bytes.len() - 4 * digits) as nat) <==> forall|i: int|
            0 <= i < digits ==> #[trigger] hex_digit(bytes, i) == 0,
{
    lemma2_to64();
    let n = bytes.len();
    let value = be_value(bytes);
    let whole = digits / 2;
    let prefix = bytes.take(whole as int);
    lemma_be_value_zero(prefix);
    lemma_be_value_prefix(bytes, whole);
    let p = pow2((8 * (n - whole)) as nat);
    lemma_pow2_pos((8 * (n - whole)) as nat);
    lemma_fundamental_div_mod(value as int, p as int);
    assert(value < p <==> be_value(prefix) == 0) by (nonlinear_arith)
        requires
            value == p * be_value(prefix) + value % p,
            0 <= value % p < p,
    ;
    // The whole bytes among the digits.
    assert(be_value(prefix) == 0 <==> forall|i: int|
        0 <= i < 2 * whole ==> #[trigger] hex_digit(bytes, i) == 0) by {
        if be_value(prefix) == 0 {
            assert forall|i: int| 0 <= i < 2 * whole implies #[trigger] hex_digit(bytes, i)
                == 0 by {
                assert(prefix[i / 2] == 0);
            }
        } else if forall|i: int| 0 <= i < 2 * whole ==> #[trigger] hex_digit(bytes, i) == 0 {
            assert forall|i: int| 0 <= i < prefix.len() implies prefix[i] == 0 by {
                assert(hex_digit(bytes, 2 * i) == 0);
                assert(hex_digit(bytes, 2 * i + 1) == 0);
            }
        }
    }
    if digits % 2 == 1 {
        // One more digit: the upper half of the byte that follows.
        let longer = bytes.take(whole as int + 1);
        lemma_be_value_prefix(bytes, whole + 1);
        let q = pow2((8 * (n - whole - 1)) as nat);
        let bound = pow2((8 * n - 4 * digits) as nat);
        lemma_pow2_pos((8 * (n - whole - 1)) as nat);
        lemma_pow2_adds((8 * (n - whole - 1)) as nat, 4);
        assert(8 * (n - whole - 1) + 4 == 8 * n - 4 * digits);
        assert(bound == q * 16);
        lemma_fundamental_div_mod(value as int, q as int);
        assert(longer.drop_last() =~= prefix);
        let v = be_value(longer);
        assert(v == be_value(prefix) * 256 + bytes[whole as int]);
        assert(value < q * 16 <==> v < 16) by (nonlinear_arith)
            requires
                value == q * v + value % q,
                0 <= value % q < q,
        ;
        assert(hex_digit(bytes, digits - 1) == bytes[whole as int] as int / 16);
        assert(value < bound <==> be_value(prefix) == 0 && bytes[whole as int] < 16);
        if value < bound {
            assert forall|i: int| 0 <= i < digits implies #[trigger] hex_digit(bytes, i)
                == 0 by {
                if i < digits - 1 {
                    assert(0 <= i < 2 * whole);
                }
            }
        } else if forall|i: int| 0 <= i < digits ==> #[trigger] hex_digit(bytes, i) == 0 {
            assert(hex_digit(bytes, digits - 1) == 0);
        }
    } else {
        assert(8 * (n - whole) == 8 * n - 4 * digits);
    }
}

/// Byte `i` of a number that is written in `width` bytes is its digit in base
/// 256 with `width - 1 - i` digits behind it.
pub proof fn law_be_bytes_positional(value: nat, width: nat, i: int)
    requires
        0 <= i < width,
    ensures
        be_bytes(value, width).len() == width,
        be_bytes(value, width)[i] == (value / pow2((8 * (width - 1 - i)) as nat)) % 256,
    decreases width,
{
    lemma2_to64();
    lemma_be_bytes_len(value, width);
    lemma_be_bytes_len(value / 256, (width - 1) as nat);
    if i < width - 1 {
        let behind = (width - 2 - i) as nat;
        law_be_bytes_positional(value / 256, (width - 1) as nat, i);
        lemma_pow2_pos(8 * behind);
        lemma_pow2_adds(8, 8 * behind);
        assert(8 + 8 * behind == 8 * (width - 1 - i));
        assert(8 * behind == 8 * (width - 1 - 1 - i));
        lemma_div_denominator(value as int, 256, pow2(8 * behind) as int);
        assert(be_bytes(value, width)[i] == be_bytes(value / 256, (width - 1) as nat)[i]);
        assert(((width - 1) as nat - 1 - i) == behind);
        assert(pow2((8 * (width - 1 - i)) as nat) == 256 * pow2(8 * behind));
    } else {
        assert(pow2((8 * (width - 1 - i)) as nat) == 1);
        assert(value / 1 == value);
    }
}

/// A byte string denotes a number whose digits in base 256 are its bytes, the
/// first byte the highest.
pub proof fn law_be_value_positional(bytes: Seq<u8>, i: int)
    requires
        0 <= i < bytes.len(),
    ensures
        (be_value(bytes) / pow2((8 * (bytes.len() - 1 - i)) as nat)) % 256 == bytes[i],
        be_value(bytes) < pow2(8 * bytes.len()),
{
    lemma_be_value_bound(bytes);
    law_be_value_write_back(bytes);
    law_be_bytes_positional(be_value(bytes), bytes.len(), i);
}

} // verus!

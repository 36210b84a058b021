//! Numbers and bytes as text, and text as numbers.
use crate::bindings::quotient;
use crate::bindings::remainder;
use crate::bytes::hex_digit;
use crate::u256::U256;
use vstd::arithmetic::power::pow;
use vstd::prelude::*;
use vstd::string::StrSliceExecFns;
use vstd::string::StringExecFns;

verus! {

/// The wei in one ether, which are also the base units in one token.
pub const WEI_PER_ETH: u64 = 1_000_000_000_000_000_000;

/// The wei in one millionth of an ether.
pub const WEI_PER_MICRO_ETH: u64 = 1_000_000_000_000;

/// The character of a hexadecimal digit, in lower case.
pub open spec fn digit_char(digit: int) -> char {
    if digit < 10 {
        ('0' as int + digit) as char
    } else {
        ('a' as int + (digit - 10)) as char
    }
}

/// Bytes in hexadecimal, two digits for each byte.
pub open spec fn hex_text(bytes: Seq<u8>) -> Seq<char> {
    Seq::new(2 * bytes.len(), |i: int| digit_char(hex_digit(bytes, i)))
}

/// The first bytes of a byte string, eight at most.
pub open spec fn first_eight(bytes: Seq<u8>) -> Seq<u8> {
    bytes.take(
        if bytes.len() < 8 {
            bytes.len() as int
        } else {
            8
        },
    )
}

/// A number in decimal, without leading zeros.
pub open spec fn decimal(value: nat) -> Seq<char>
    decreases value,
{
    if value < 10 {
        seq![digit_char(value as int)]
    } else {
        decimal(value / 10).push(digit_char(value as int % 10))
    }
}

/// The `width` lowest decimal digits of a number, with leading zeros.
pub open spec fn padded(value: nat, width: nat) -> Seq<char>
    decreases width,
{
    if width == 0 {
        Seq::empty()
    } else {
        padded(value / 10, (width - 1) as nat).push(digit_char(value as int % 10))
    }
}

/// An amount of wei as ether: the whole part, a point and six decimal places,
/// the rest cut off.
pub open spec fn eth_text(wei: nat) -> Seq<char> {
    decimal(wei / WEI_PER_ETH as nat) + seq!['.'] + padded(
        (wei % WEI_PER_ETH as nat) / WEI_PER_MICRO_ETH as nat,
        6,
    )
}

/// Whether a character is a decimal digit.
pub open spec fn is_digit(c: char) -> bool {
    '0' <= c && c <= '9'
}

/// The number that decimal digits denote.
pub open spec fn digits_value(digits: Seq<char>) -> nat
    decreases digits.len(),
{
    if digits.len() == 0 {
        0
    } else {
        digits_value(digits.drop_last()) * 10 + (digits.last() as int - '0' as int) as nat
    }
}

/// The digits of an unsigned number in text form: what follows an optional
/// plus sign.
pub open spec fn unsigned_digits(text: Seq<char>) -> Seq<char> {
    if text.len() > 0 && text[0] == '+' {
        text.skip(1)
    } else {
        text
    }
}

/// The unsigned number that a text denotes: at least one decimal digit, no
/// other character but a leading plus sign, and no more than `max`.
pub open spec fn parse_text(text: Seq<char>, max: nat) -> Option<nat> {
    let digits = unsigned_digits(text);
    if digits.len() > 0 && (forall|i: int| 0 <= i < digits.len() ==> is_digit(#[trigger] digits[i]))
        && digits_value(digits) <= max {
        Some(digits_value(digits))
    } else {
        None
    }
}

/// The text of one digit.
fn digit_str(digit: u8) -> (r: &'static str)
    requires
        digit < 16,
    ensures
        r@ == seq![digit_char(digit as int)],
{
    proof {
        reveal_strlit("0");
        reveal_strlit("1");
        reveal_strlit("2");
        reveal_strlit("3");
        reveal_strlit("4");
        reveal_strlit("5");
        reveal_strlit("6");
        reveal_strlit("7");
        reveal_strlit("8");
        reveal_strlit("9");
        reveal_strlit("a");
        reveal_strlit("b");
        reveal_strlit("c");
        reveal_strlit("d");
        reveal_strlit("e");
        reveal_strlit("f");
    }
    match digit {
        0 => "0",
        1 => "1",
        2 => "2",
        3 => "3",
        4 => "4",
        5 => "5",
        6 => "6",
        7 => "7",
        8 => "8",
        9 => "9",
        10 => "a",
        11 => "b",
        12 => "c",
        13 => "d",
        14 => "e",
        _ => "f",
    }
}

/// The first eight bytes in hexadecimal.
pub fn hex_short(bytes: &[u8]) -> (r: String)
    ensures
        r@ == hex_text(first_eight(bytes@)),
{
    let count: usize = if bytes.len() < 8 {
        bytes.len()
    } else {
        8
    };
    let mut s = String::new();
    let ghost shown = first_eight(bytes@);
    let mut i: usize = 0;
    while i < count
        invariant
            i <= count <= bytes@.len(),
            shown == bytes@.take(count as int),
            s@.len() == 2 * i,
            forall|j: int| 0 <= j < 2 * i ==> s@[j] == digit_char(#[trigger] hex_digit(shown, j)),
        decreases count - i,
    {
        let b: u8 = bytes[i];
        let ghost before = s@;
        s.append(digit_str(b / 16));
        s.append(digit_str(b % 16));
        proof {
            assert(hex_digit(shown, 2 * i as int) == b as int / 16);
            assert(hex_digit(shown, 2 * i + 1) == b as int % 16);
            assert forall|j: int| 0 <= j < 2 * (i + 1) implies s@[j] == digit_char(
                #[trigger] hex_digit(shown, j),
            ) by {
                if j < 2 * i {
                    assert(s@[j] == before[j]);
                }
            }
        }
        i += 1;
    }
    assert(s@ =~= hex_text(shown));
    s
}

/// Appends a number in decimal.
fn push_decimal(s: &mut String, value: u128)
    ensures
        final(s)@ == old(s)@ + decimal(value as nat),
    decreases value,
{
    if value >= 10 {
        push_decimal(s, value / 10);
    }
    s.append(digit_str((value % 10) as u8));
    assert(s@ =~= old(s)@ + decimal(value as nat));
}

/// Appends the lowest decimal digits of a number, with leading zeros.
fn push_padded(s: &mut String, value: u64, width: u32)
    ensures
        final(s)@ == old(s)@ + padded(value as nat, width as nat),
    decreases width,
{
    if width > 0 {
        push_padded(s, value / 10, width - 1);
        s.append(digit_str((value % 10) as u8));
    }
    assert(s@ =~= old(s)@ + padded(value as nat, width as nat));
}

/// The whole tokens in an amount of base units, rounded down.
pub fn whole_tokens(amount: U256) -> (r: u128)
    requires
        amount@ / WEI_PER_ETH as nat <= u128::MAX,
    ensures
        r == amount@ / WEI_PER_ETH as nat,
        r * 1_000_000_000_000_000_000 <= amount@ < (r + 1) * 1_000_000_000_000_000_000,
{
    quotient(amount, U256::from_u64(WEI_PER_ETH)).to_u128()
}

/// Whether the whole tokens in an amount are a 128-bit number.
pub fn whole_tokens_fit(amount: U256) -> (r: bool)
    ensures
        r == (amount@ / WEI_PER_ETH as nat <= u128::MAX),
        r == (amount@ < (u128::MAX + 1) * 1_000_000_000_000_000_000),
{
    quotient(amount, U256::from_u64(WEI_PER_ETH)).fits_u128()
}

/// An amount of wei as ether, with six decimal places.
pub fn format_eth(wei: U256) -> (r: String)
    requires
        wei@ / WEI_PER_ETH as nat <= u128::MAX,
    ensures
        r@ == eth_text(wei@),
{
    let one_eth = U256::from_u64(WEI_PER_ETH);
    let whole: u128 = whole_tokens(wei);
    let frac = remainder(wei, one_eth);
    let micro_eth = quotient(frac, U256::from_u64(WEI_PER_MICRO_ETH));
    proof {
        reveal_strlit(".");
        assert(micro_eth@ < 1_000_000);
    }
    let micro: u64 = micro_eth.to_u128() as u64;
    let mut s = String::new();
    push_decimal(&mut s, whole);
    s.append(".");
    push_padded(&mut s, micro, 6);
    assert(s@ =~= eth_text(wei@));
    s
}

/// The first digits of a number denote no more than all of them.
proof fn lemma_prefix_value(digits: Seq<char>, count: int)
    requires
        0 <= count <= digits.len(),
    ensures
        digits_value(digits.take(count)) <= digits_value(digits),
    decreases digits.len(),
{
    if count == digits.len() {
        assert(digits.take(count) =~= digits);
    } else {
        lemma_prefix_value(digits.drop_last(), count);
        assert(digits.drop_last().take(count) =~= digits.take(count));
    }
}

/// The unsigned number that a text denotes, if it is at most `max`.
pub fn parse_unsigned(text: &str, max: u64) -> (r: Option<u64>)
    ensures
        match r {
            Some(value) => parse_text(text@, max as nat) == Some(value as nat),
            None => parse_text(text@, max as nat) is None,
        },
{
    let len: usize = text.unicode_len();
    let start: usize = if len > 0 && text.get_char(0) == '+' {
        1
    } else {
        0
    };
    let ghost digits = unsigned_digits(text@);
    assert(digits =~= text@.skip(start as int));
    if start == len {
        return None;
    }
    let mut value: u64 = 0;
    let mut i: usize = start;
    assert(digits.take(0) =~= Seq::<char>::empty());
    while i < len
        invariant
            start <= i <= len,
            len == text@.len(),
            digits == unsigned_digits(text@),
            digits == text@.skip(start as int),
            value == digits_value(digits.take(i - start)),
            value <= max,
            forall|j: int| 0 <= j < i - start ==> is_digit(#[trigger] digits[j]),
        decreases len - i,
    {
        let c = text.get_char(i);
        assert(c == digits[i - start]);
        if c < '0' || c > '9' {
            assert(!is_digit(digits[i - start]));
            return None;
        }
        let d: u64 = (c as u32 - '0' as u32) as u64;
        proof {
            let longer = digits.take(i - start + 1);
            assert(longer.drop_last() =~= digits.take(i - start));
            assert(longer.last() == c);
            assert(digits_value(longer) == value * 10 + d);
        }
        let next: u128 = value as u128 * 10 + d as u128;
        if next > max as u128 {
            proof {
                lemma_prefix_value(digits, i - start + 1);
            }
            return None;
        }
        value = next as u64;
        i += 1;
    }
    assert(digits.take(len - start) =~= digits);
    Some(value)
}

/// A decimal digit's character denotes the digit.
proof fn lemma_digit_char(digit: int)
    requires
        0 <= digit < 10,
    ensures
        is_digit(digit_char(digit)),
        digit_char(digit) as int - '0' as int == digit,
{
}

/// The decimal text of a number: at least one character, digits only, and the
/// number when read.
proof fn lemma_decimal(value: nat)
    ensures
        decimal(value).len() > 0,
        forall|i: int| 0 <= i < decimal(value).len() ==> is_digit(#[trigger] decimal(value)[i]),
        digits_value(decimal(value)) == value,
    decreases value,
{
    if value < 10 {
        lemma_digit_char(value as int);
        let text = decimal(value);
        assert(text.drop_last() =~= Seq::<char>::empty());
        assert(digits_value(text.drop_last()) == 0);
    } else {
        lemma_decimal(value / 10);
        lemma_digit_char(value as int % 10);
        assert(decimal(value).drop_last() =~= decimal(value / 10));
    }
}

/// The padded text of a number: `width` characters, and behind other digits it
/// adds the number to what they denote, shifted by `width` places.
proof fn lemma_padded(front: Seq<char>, value: nat, width: nat)
    requires
        value < pow(10, width),
    ensures
        padded(value, width).len() == width,
        forall|i: int| 0 <= i < width ==> is_digit(#[trigger] padded(value, width)[i]),
        digits_value(front + padded(value, width)) == digits_value(front)
            * pow(10, width) + value,
    decreases width,
{
    reveal(pow);
    if width == 0 {
        assert(front + padded(value, width) =~= front);
    } else {
        let rest = (width - 1) as nat;
        let p = pow(10, rest);
        assert(pow(10, width) == 10 * p);
        lemma_padded(front, value / 10, rest);
        lemma_digit_char(value as int % 10);
        let text = front + padded(value, width);
        assert(text.drop_last() =~= front + padded(value / 10, rest));
        assert(text.last() == digit_char(value as int % 10));
        let f = digits_value(front);
        assert((f * p + value / 10) * 10 + value % 10 == f * (10 * p) + value) by (nonlinear_arith);
    }
}

/// A number that is written in decimal is read back, wherever it is at most
/// the limit.
pub proof fn law_decimal_reads_back(value: nat, max: nat)
    requires
        value <= max,
    ensures
        parse_text(decimal(value), max) == Some(value),
{
    lemma_decimal(value);
    assert(is_digit(decimal(value)[0]));
}

/// The digits of a formatted amount, read without the point, are the amount in
/// millionths of an ether, rounded down; the point stands before the last six.
pub proof fn law_format_eth_reads_back(wei: nat)
    ensures
        ({
            let text = eth_text(wei);
            let point = text.len() - 7;
            &&& point > 0
            &&& text[point] == '.'
            &&& forall|i: int|
                0 <= i < text.len() && i != point ==> is_digit(#[trigger] text[i])
            &&& digits_value(text.take(point) + text.skip(point + 1)) == wei / 1_000_000_000_000
        }),
{
    let whole = wei / WEI_PER_ETH as nat;
    let micro = (wei % WEI_PER_ETH as nat) / WEI_PER_MICRO_ETH as nat;
    let text = eth_text(wei);
    let point = text.len() - 7;
    lemma_decimal(whole);
    assert(pow(10, 6) == 1_000_000) by {
        reveal_with_fuel(pow, 7);
    }
    lemma_padded(decimal(whole), micro, 6);
    assert(text.take(point) =~= decimal(whole));
    assert(text.skip(point + 1) =~= padded(micro, 6));
    assert forall|i: int| 0 <= i < text.len() && i != point implies is_digit(
        #[trigger] text[i],
    ) by {
        if i < point {
            assert(text[i] == decimal(whole)[i]);
        } else {
            assert(text[i] == padded(micro, 6)[i - point - 1]);
        }
    }
}

/// The short form of a byte string has two characters for each of its first
/// eight bytes, and two byte strings with the same short form start with the
/// same eight bytes, or are both that short and equal.
pub proof fn law_hex_short_shows_prefix(a: Seq<u8>, b: Seq<u8>)
    ensures
        hex_text(first_eight(a)).len() == 2 * first_eight(a).len() <= 16,
        hex_text(first_eight(a)) == hex_text(first_eight(b)) ==> first_eight(a) == first_eight(b),
{
    let x = first_eight(a);
    let y = first_eight(b);
    if hex_text(x) == hex_text(y) {
        assert(hex_text(x).len() == hex_text(y).len());
        assert forall|i: int| 0 <= i < x.len() implies x[i] == y[i] by {
            assert(hex_text(x)[2 * i] == hex_text(y)[2 * i]);
            assert(hex_text(x)[2 * i + 1] == hex_text(y)[2 * i + 1]);
            lemma_digit_chars(x[i] as int / 16, y[i] as int / 16);
            lemma_digit_chars(x[i] as int % 16, y[i] as int % 16);
            assert(hex_digit(x, 2 * i) == x[i] as int / 16);
            assert(hex_digit(x, 2 * i + 1) == x[i] as int % 16);
            assert(hex_digit(y, 2 * i) == y[i] as int / 16);
            assert(hex_digit(y, 2 * i + 1) == y[i] as int % 16);
        }
        assert(x =~= y);
    }
}

/// Different hexadecimal digits have different characters.
proof fn lemma_digit_chars(d1: int, d2: int)
    requires
        0 <= d1 < 16,
        0 <= d2 < 16,
    ensures
        digit_char(d1) == digit_char(d2) ==> d1 == d2,
{
}

/// The short form shows each of the first eight bytes as two hexadecimal digits
/// in lower case, the upper half first, and nothing else.
pub proof fn law_hex_short_layout(bytes: Seq<u8>)
    ensures
        ({
            let text = hex_text(first_eight(bytes));
            let shown = if bytes.len() < 8 {
                bytes.len() as int
            } else {
                8
            };
            &&& text.len() == 2 * shown
            &&& forall|i: int|
                #![trigger bytes[i]]
                0 <= i < shown ==> {
                    let high = bytes[i] as int / 16;
                    let low = bytes[i] as int % 16;
                    &&& high < 10 ==> text[2 * i] as int == 48 + high
                    &&& high >= 10 ==> text[2 * i] as int == 87 + high
                    &&& low < 10 ==> text[2 * i + 1] as int == 48 + low
                    &&& low >= 10 ==> text[2 * i + 1] as int == 87 + low
                }
        }),
{
    let text = hex_text(first_eight(bytes));
    let shown = first_eight(bytes);
    assert forall|i: int| #![trigger bytes[i]] 0 <= i < shown.len() implies text[2 * i]
        == digit_char(bytes[i] as int / 16) && text[2 * i + 1] == digit_char(
        bytes[i] as int % 16,
    ) by {
        assert(hex_digit(shown, 2 * i) == bytes[i] as int / 16);
        assert(hex_digit(shown, 2 * i + 1) == bytes[i] as int % 16);
    }
}

/// A number has no leading zero in decimal, unless it is a single digit, and no
/// character but the digits from `0` to `9`.
pub proof fn law_decimal_form(value: nat)
    ensures
        decimal(value).len() > 0,
        decimal(value)[0] == '0' <==> value == 0,
        value < 10 ==> decimal(value).len() == 1,
        forall|i: int|
            0 <= i < decimal(value).len() ==> 48 <= #[trigger] decimal(value)[i] as int <= 57,
    decreases value,
{
    lemma_decimal(value);
    if value >= 10 {
        law_decimal_form(value / 10);
        assert(decimal(value)[0] == decimal(value / 10)[0]);
    }
    assert forall|i: int| 0 <= i < decimal(value).len() implies 48 <= #[trigger] decimal(
        value,
    )[i] as int <= 57 by {
        assert(is_digit(decimal(value)[i]));
    }
}

/// A formatted amount starts with a zero exactly if it is less than one ether,
/// and then the point follows at once.
pub proof fn law_format_eth_has_no_leading_zeros(wei: nat)
    ensures
        eth_text(wei)[0] == '0' <==> wei < 1_000_000_000_000_000_000,
        eth_text(wei)[0] == '0' ==> eth_text(wei)[1] == '.' && eth_text(wei).len() == 8,
{
    let whole = wei / WEI_PER_ETH as nat;
    law_decimal_form(whole);
    law_format_eth_reads_back(wei);
    assert(eth_text(wei)[0] == decimal(whole)[0]);
    assert(pow(10, 6) == 1_000_000) by {
        reveal_with_fuel(pow, 7);
    }
    lemma_padded(decimal(whole), (wei % WEI_PER_ETH as nat) / WEI_PER_MICRO_ETH as nat, 6);
}

/// The units: 10^18 wei in an ether, 10^12 in a millionth of one.
pub proof fn law_units()
    ensures
        WEI_PER_ETH == 1_000_000_000_000_000_000,
        WEI_PER_MICRO_ETH == 1_000_000_000_000,
{
}

/// Digits denote ten times what they denote without the last one, and the last
/// one; no digits denote zero.
pub proof fn law_digits_in_base_ten(digits: Seq<char>, c: char)
    requires
        '0' <= c && c <= '9',
    ensures
        digits_value(Seq::empty()) == 0,
        digits_value(digits.push(c)) == 10 * digits_value(digits) + (c as int - 48),
{
    assert(digits.push(c).drop_last() =~= digits);
}

/// The shortest texts: nothing and a plus sign alone are no numbers, and one
/// character is one exactly if it is a digit, with a plus sign before it or
/// without.
pub proof fn law_shortest_numbers(c: char, max: nat)
    ensures
        parse_text(Seq::empty(), max) is None,
        parse_text(seq!['+'], max) is None,
        '0' <= c && c <= '9' && c as int - 48 <= max ==> parse_text(seq![c], max) == Some(
            (c as int - 48) as nat,
        ) && parse_text(seq!['+', c], max) == Some((c as int - 48) as nat),
        !('0' <= c && c <= '9' && c as int - 48 <= max) ==> parse_text(seq![c], max) is None
            && parse_text(seq!['+', c], max) is None,
{
    let one = seq![c];
    let signed = seq!['+', c];
    assert(unsigned_digits(signed) =~= one);
    assert(unsigned_digits(seq!['+']) =~= Seq::<char>::empty());
    assert(one.drop_last() =~= Seq::<char>::empty());
    assert(one.last() == c);
    assert(one[0] == c);
    assert(digits_value(one.drop_last()) == 0);
    if c == '+' {
        assert(unsigned_digits(one) =~= Seq::<char>::empty());
        assert(!is_digit(c));
    }
    if !is_digit(c) {
        assert(!is_digit(one[0]));
    }
}

/// One more character: behind a number a digit makes it ten times as large and
/// adds itself, as long as that is at most the limit. Behind anything else than
/// a number, no character makes one, but for the first digit behind a plus sign.
pub proof fn law_longer_numbers(text: Seq<char>, c: char, max: nat)
    requires
        text.len() > 0,
        text != seq!['+'],
    ensures
        match parse_text(text, max) {
            Some(value) => if '0' <= c && c <= '9' && 10 * value + (c as int - 48) <= max {
                parse_text(text.push(c), max) == Some((10 * value + (c as int - 48)) as nat)
            } else {
                parse_text(text.push(c), max) is None
            },
            None => parse_text(text.push(c), max) is None,
        },
{
    let digits = unsigned_digits(text);
    let longer = unsigned_digits(text.push(c));
    assert(longer =~= digits.push(c));
    if text[0] == '+' && text.len() == 1 {
        assert(text =~= seq!['+']);
    }
    assert(digits.len() > 0);
    assert(longer.drop_last() =~= digits);
    assert(longer.last() == c);
    assert(digits_value(longer) >= digits_value(digits));
    assert(forall|i: int| 0 <= i < digits.len() ==> longer[i] == #[trigger] digits[i]);
    assert(longer[digits.len() as int] == c);
    if forall|i: int| 0 <= i < longer.len() ==> is_digit(#[trigger] longer[i]) {
        assert forall|i: int| 0 <= i < digits.len() implies is_digit(#[trigger] digits[i]) by {
            assert(is_digit(longer[i]));
        }
        assert(is_digit(longer[digits.len() as int]));
    } else if forall|i: int| 0 <= i < digits.len() ==> is_digit(#[trigger] digits[i]) {
        assert(!is_digit(c)) by {
            let i = choose|i: int| 0 <= i < longer.len() && !is_digit(#[trigger] longer[i]);
            if i < digits.len() {
                assert(is_digit(digits[i]));
            }
        }
    }
}

/// The limit only decides whether a number is taken, not which number it is.
pub proof fn law_limit_only_refuses(text: Seq<char>, low: nat, high: nat)
    requires
        low <= high,
    ensures
        match parse_text(text, high) {
            Some(value) => value <= high && parse_text(text, low) == (if value <= low {
                Some(value)
            } else {
                None
            }),
            None => parse_text(text, low) is None,
        },
{
}

} // verus!

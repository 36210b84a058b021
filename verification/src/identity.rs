//! The private key of the miner, from the text that the user gave.
use crate::bindings::hex_digit_value;
use crate::bindings::hex_number;
use crate::bindings::is_private_key;
use crate::bindings::private_key_address;
use crate::bindings::signer_address;
use alloy::signers::local::LocalSignerError;
use vstd::prelude::*;
use vstd::string::StrSliceExecFns;
use vstd::utf8::encode_utf8;

verus! {

/// The length of a private key in hexadecimal.
pub const KEY_HEX_DIGITS: usize = 64;

/// The key of the miner and the account that it belongs to.
#[derive(Debug)]
pub struct Identity {
    pub key: String,
    pub address: [u8; 20],
}

/// Why a text is not taken as a private key.
#[derive(Debug)]
pub enum KeyError {
    /// It has this many bytes where it should have 64.
    WrongLength(usize),
    /// It has the right length and still is no key.
    Malformed(LocalSignerError),
}

/// Whether a character is white space, as Unicode defines it.
pub open spec fn is_whitespace(c: char) -> bool {
    ||| '\u{9}' <= c && c <= '\u{D}'
    ||| c == '\u{20}'
    ||| c == '\u{85}'
    ||| c == '\u{A0}'
    ||| c == '\u{1680}'
    ||| '\u{2000}' <= c && c <= '\u{200A}'
    ||| c == '\u{2028}'
    ||| c == '\u{2029}'
    ||| c == '\u{202F}'
    ||| c == '\u{205F}'
    ||| c == '\u{3000}'
}

/// A text without the white space that it starts with.
pub open spec fn trim_start(text: Seq<char>) -> Seq<char>
    decreases text.len(),
{
    if text.len() > 0 && is_whitespace(text[0]) {
        trim_start(text.skip(1))
    } else {
        text
    }
}

/// A text without the white space that it ends with.
pub open spec fn trim_end(text: Seq<char>) -> Seq<char>
    decreases text.len(),
{
    if text.len() > 0 && is_whitespace(text.last()) {
        trim_end(text.drop_last())
    } else {
        text
    }
}

/// Whether a text starts with `0x`.
pub open spec fn has_hex_prefix(text: Seq<char>) -> bool {
    text.len() >= 2 && text[0] == '0' && text[1] == 'x'
}

/// A text without the `0x` that it starts with, however often it does.
pub open spec fn strip_hex_prefix(text: Seq<char>) -> Seq<char>
    decreases text.len(),
{
    if has_hex_prefix(text) {
        strip_hex_prefix(text.skip(2))
    } else {
        text
    }
}

/// The key in what the user gave: without surrounding white space and without
/// the hexadecimal prefix.
pub open spec fn key_text(raw: Seq<char>) -> Seq<char> {
    strip_hex_prefix(trim_end(trim_start(raw)))
}

/// Whether a character is white space.
fn char_is_whitespace(c: char) -> (r: bool)
    ensures
        r == is_whitespace(c),
{
    ('\u{9}' <= c && c <= '\u{D}') || c == '\u{20}' || c == '\u{85}' || c == '\u{A0}' || c
        == '\u{1680}' || ('\u{2000}' <= c && c <= '\u{200A}') || c == '\u{2028}' || c == '\u{2029}'
        || c == '\u{202F}' || c == '\u{205F}' || c == '\u{3000}'
}

/// The key in what the user gave.
fn trimmed_key(raw: &str) -> (r: &str)
    ensures
        r@ == key_text(raw@),
{
    let len: usize = raw.unicode_len();
    let mut start: usize = 0;
    assert(raw@.skip(0) =~= raw@);
    while start < len && char_is_whitespace(raw.get_char(start))
        invariant
            start <= len,
            len == raw@.len(),
            trim_start(raw@.skip(start as int)) == trim_start(raw@),
        ensures
            raw@.skip(start as int) == trim_start(raw@),
        decreases len - start,
    {
        assert(raw@.skip(start as int).skip(1) =~= raw@.skip(start + 1));
        start += 1;
    }
    let ghost front = trim_start(raw@);
    let mut end: usize = len;
    assert(raw@.subrange(start as int, len as int) =~= front);
    while end > start && char_is_whitespace(raw.get_char(end - 1))
        invariant
            start <= end <= len,
            len == raw@.len(),
            trim_end(raw@.subrange(start as int, end as int)) == trim_end(front),
        ensures
            raw@.subrange(start as int, end as int) == trim_end(front),
        decreases end - start,
    {
        assert(raw@.subrange(start as int, end as int).drop_last() =~= raw@.subrange(
            start as int,
            end - 1,
        ));
        end -= 1;
    }
    let ghost body = trim_end(front);
    while end - start >= 2 && raw.get_char(start) == '0' && raw.get_char(start + 1) == 'x'
        invariant
            start <= end <= len,
            len == raw@.len(),
            strip_hex_prefix(raw@.subrange(start as int, end as int)) == strip_hex_prefix(body),
        ensures
            raw@.subrange(start as int, end as int) == strip_hex_prefix(body),
        decreases end - start,
    {
        assert(raw@.subrange(start as int, end as int).skip(2) =~= raw@.subrange(
            start + 2,
            end as int,
        ));
        start += 2;
    }
    raw.substring_char(start, end)
}

/// The key in what the user gave, if it has the length of one.
pub fn normalize_key(raw: &str) -> (r: Result<String, KeyError>)
    ensures
        match r {
            Ok(key) => key@ == key_text(raw@) && encode_utf8(key@).len() == KEY_HEX_DIGITS,
            Err(KeyError::WrongLength(len)) => len == encode_utf8(key_text(raw@)).len() && len
                != KEY_HEX_DIGITS,
            Err(KeyError::Malformed(_)) => false,
        },
{
    let key = trimmed_key(raw);
    let len: usize = key.as_bytes().len();
    if len != KEY_HEX_DIGITS {
        return Err(KeyError::WrongLength(len));
    }
    Ok(key.to_owned())
}

/// The identity that belongs to a key, given what parsing the key gave.
pub fn identify(key: String, parsed: Result<[u8; 20], LocalSignerError>) -> (r: Result<
    Identity,
    KeyError,
>)
    ensures
        match parsed {
            Ok(address) => r matches Ok(id) && id.key@ == key@ && id.address == address,
            Err(error) => r == Err::<Identity, KeyError>(KeyError::Malformed(error)),
        },
{
    match parsed {
        Ok(address) => Ok(Identity { key, address }),
        Err(error) => Err(KeyError::Malformed(error)),
    }
}

/// The identity in what the user gave.
pub fn load_identity(raw: &str) -> (r: Result<Identity, KeyError>)
    ensures
        match r {
            Ok(id) => {
                &&& encode_utf8(key_text(raw@)).len() == KEY_HEX_DIGITS
                &&& is_private_key(key_text(raw@))
                &&& id.key@ == key_text(raw@)
                &&& private_key_address(key_text(raw@)) == Some(id.address@)
            },
            Err(KeyError::WrongLength(len)) => len == encode_utf8(key_text(raw@)).len() && len
                != KEY_HEX_DIGITS,
            Err(KeyError::Malformed(_)) => {
                &&& encode_utf8(key_text(raw@)).len() == KEY_HEX_DIGITS
                &&& !is_private_key(key_text(raw@))
                &&& private_key_address(key_text(raw@)) is None
            },
        },
{
    match normalize_key(raw) {
        Ok(key) => {
            let parsed = signer_address(key.as_str());
            identify(key, parsed)
        },
        Err(error) => Err(error),
    }
}

/// White space around a key does not matter.
pub proof fn law_whitespace_ignored(before: Seq<char>, raw: Seq<char>, after: Seq<char>)
    requires
        forall|i: int| 0 <= i < before.len() ==> is_whitespace(#[trigger] before[i]),
        forall|i: int| 0 <= i < after.len() ==> is_whitespace(#[trigger] after[i]),
    ensures
        key_text(before + raw + after) == key_text(raw),
{
    lemma_trim_start_front(before, raw + after);
    assert(before + raw + after =~= before + (raw + after));
    lemma_trim_start_blank(after);
    lemma_trim_start_back(raw, after);
    lemma_trim_end_back(trim_start(raw), after);
}

/// White space in front is trimmed away.
proof fn lemma_trim_start_front(before: Seq<char>, text: Seq<char>)
    requires
        forall|i: int| 0 <= i < before.len() ==> is_whitespace(#[trigger] before[i]),
    ensures
        trim_start(before + text) == trim_start(text),
    decreases before.len(),
{
    if before.len() == 0 {
        assert(before + text =~= text);
    } else {
        assert((before + text)[0] == before[0]);
        assert((before + text).skip(1) =~= before.skip(1) + text);
        lemma_trim_start_front(before.skip(1), text);
    }
}

/// White space alone is trimmed to nothing.
proof fn lemma_trim_start_blank(text: Seq<char>)
    requires
        forall|i: int| 0 <= i < text.len() ==> is_whitespace(#[trigger] text[i]),
    ensures
        trim_start(text) == Seq::<char>::empty(),
{
    lemma_trim_start_front(text, Seq::empty());
    assert(text + Seq::<char>::empty() =~= text);
}

/// Trimming the front leaves white space at the back alone, unless nothing
/// else is there.
proof fn lemma_trim_start_back(text: Seq<char>, after: Seq<char>)
    requires
        forall|i: int| 0 <= i < after.len() ==> is_whitespace(#[trigger] after[i]),
    ensures
        trim_end(trim_start(text + after)) == trim_end(trim_start(text) + after),
    decreases text.len(),
{
    if text.len() == 0 {
        assert(text + after =~= after);
        lemma_trim_start_blank(after);
        lemma_trim_end_back(Seq::empty(), after);
        assert(trim_start(text) + after =~= Seq::<char>::empty() + after);
    } else {
        assert((text + after)[0] == text[0]);
        if is_whitespace(text[0]) {
            assert((text + after).skip(1) =~= text.skip(1) + after);
            lemma_trim_start_back(text.skip(1), after);
        }
    }
}

/// White space at the back is trimmed away.
proof fn lemma_trim_end_back(text: Seq<char>, after: Seq<char>)
    requires
        forall|i: int| 0 <= i < after.len() ==> is_whitespace(#[trigger] after[i]),
    ensures
        trim_end(text + after) == trim_end(text),
    decreases after.len(),
{
    if after.len() == 0 {
        assert(text + after =~= text);
    } else {
        assert((text + after).last() == after.last());
        assert((text + after).drop_last() =~= text + after.drop_last());
        lemma_trim_end_back(text, after.drop_last());
    }
}

/// A key may be given with or without `0x` in front, as long as no white space
/// stands between the two.
pub proof fn law_hex_prefix_optional(raw: Seq<char>)
    requires
        trim_start(raw) == raw || trim_start(raw).len() == 0,
    ensures
        key_text(seq!['0', 'x'] + raw) == key_text(raw),
{
    let prefixed = seq!['0', 'x'] + raw;
    assert(trim_start(prefixed) == prefixed);
    if trim_start(raw).len() == 0 {
        lemma_blank(raw);
        lemma_trim_end_back(Seq::empty(), raw);
        assert(Seq::<char>::empty() + raw =~= raw);
        assert(trim_end(trim_start(raw)) =~= trim_end(raw));
    }
    lemma_trim_end_keeps_front(raw);
    let body = seq!['0', 'x'] + trim_end(raw);
    assert(has_hex_prefix(body));
    assert(body.skip(2) =~= trim_end(raw));
}

/// What is trimmed to nothing is white space.
proof fn lemma_blank(text: Seq<char>)
    requires
        trim_start(text).len() == 0,
    ensures
        forall|i: int| 0 <= i < text.len() ==> is_whitespace(#[trigger] text[i]),
    decreases text.len(),
{
    if text.len() > 0 {
        lemma_blank(text.skip(1));
        assert forall|i: int| 0 <= i < text.len() implies is_whitespace(#[trigger] text[i]) by {
            if i > 0 {
                assert(text[i] == text.skip(1)[i - 1]);
            }
        }
    }
}

/// Trimming the back leaves a prefix in front alone.
proof fn lemma_trim_end_keeps_front(text: Seq<char>)
    ensures
        trim_end(seq!['0', 'x'] + text) == seq!['0', 'x'] + trim_end(text),
    decreases text.len(),
{
    let prefixed = seq!['0', 'x'] + text;
    if text.len() == 0 {
        assert(prefixed.last() == 'x');
        assert(prefixed =~= seq!['0', 'x'] + trim_end(text));
    } else {
        assert(prefixed.last() == text.last());
        if is_whitespace(text.last()) {
            assert(prefixed.drop_last() =~= seq!['0', 'x'] + text.drop_last());
            lemma_trim_end_keeps_front(text.drop_last());
        }
    }
}

/// Where trimming the front ends.
proof fn lemma_trim_start_where(text: Seq<char>) -> (n: int)
    ensures
        0 <= n <= text.len(),
        trim_start(text) == text.skip(n),
        forall|i: int| 0 <= i < n ==> is_whitespace(#[trigger] text[i]),
        n < text.len() ==> !is_whitespace(text[n]),
    decreases text.len(),
{
    if text.len() > 0 && is_whitespace(text[0]) {
        let m = lemma_trim_start_where(text.skip(1));
        assert(text.skip(1).skip(m) =~= text.skip(m + 1));
        assert forall|i: int| 0 <= i < m + 1 implies is_whitespace(#[trigger] text[i]) by {
            if i > 0 {
                assert(is_whitespace(text.skip(1)[i - 1]));
            }
        }
        m + 1
    } else {
        assert(text.skip(0) =~= text);
        0
    }
}

/// Where trimming the back ends.
proof fn lemma_trim_end_where(text: Seq<char>) -> (n: int)
    ensures
        0 <= n <= text.len(),
        trim_end(text) == text.take(n),
        forall|i: int| n <= i < text.len() ==> is_whitespace(#[trigger] text[i]),
        n > 0 ==> !is_whitespace(text[n - 1]),
    decreases text.len(),
{
    if text.len() > 0 && is_whitespace(text.last()) {
        let front = text.drop_last();
        let n = lemma_trim_end_where(front);
        assert(front.take(n) =~= text.take(n));
        assert forall|i: int| n <= i < text.len() implies is_whitespace(#[trigger] text[i]) by {
            if i < text.len() - 1 {
                assert(is_whitespace(front[i]));
            }
        }
        n
    } else {
        assert(text.take(text.len() as int) =~= text);
        text.len() as int
    }
}

/// Where the hexadecimal prefixes end.
proof fn lemma_strip_where(text: Seq<char>) -> (n: int)
    ensures
        0 <= n <= text.len(),
        n % 2 == 0,
        strip_hex_prefix(text) == text.skip(n),
        forall|i: int|
            0 <= i < n ==> #[trigger] text[i] == (if i % 2 == 0 {
                '0'
            } else {
                'x'
            }),
        !(n + 1 < text.len() && text[n] == '0' && text[n + 1] == 'x'),
    decreases text.len(),
{
    if has_hex_prefix(text) {
        let rest = text.skip(2);
        let m = lemma_strip_where(rest);
        assert(rest.skip(m) =~= text.skip(m + 2));
        assert forall|i: int| 0 <= i < m + 2 implies #[trigger] text[i] == (if i % 2 == 0 {
            '0'
        } else {
            'x'
        }) by {
            if i >= 2 {
                assert(rest[i - 2] == text[i]);
            }
        }
        m + 2
    } else {
        assert(text.skip(0) =~= text);
        0
    }
}

/// The key is the stretch of what the user gave from `r.1` up to `r.2`. White
/// space stands before `r.0` and from `r.2` on, the first and the last character
/// between them are none, and `0x` alone, any number of times, stands from `r.0`
/// up to `r.1` and not again at `r.1`.
pub proof fn law_key_is_inside(raw: Seq<char>) -> (r: (int, int, int))
    ensures
        0 <= r.0 <= r.1 <= r.2 <= raw.len(),
        key_text(raw) == raw.subrange(r.1, r.2),
        forall|i: int| 0 <= i < r.0 ==> is_whitespace(#[trigger] raw[i]),
        forall|i: int| r.2 <= i < raw.len() ==> is_whitespace(#[trigger] raw[i]),
        r.0 < r.2 ==> !is_whitespace(raw[r.0]) && !is_whitespace(raw[r.2 - 1]),
        (r.1 - r.0) % 2 == 0,
        forall|i: int|
            r.0 <= i < r.1 ==> #[trigger] raw[i] == (if (i - r.0) % 2 == 0 {
                '0'
            } else {
                'x'
            }),
        !(r.1 + 1 < r.2 && raw[r.1] == '0' && raw[r.1 + 1] == 'x'),
{
    let p = lemma_trim_start_where(raw);
    let front = raw.skip(p);
    let e = lemma_trim_end_where(front);
    let body = front.take(e);
    let n = lemma_strip_where(body);
    let end = p + e;
    assert(body.skip(n) =~= raw.subrange(p + n, end));
    assert forall|i: int| end <= i < raw.len() implies is_whitespace(#[trigger] raw[i]) by {
        assert(is_whitespace(front[i - p]));
    }
    assert forall|i: int| p <= i < p + n implies #[trigger] raw[i] == (if (i - p) % 2 == 0 {
        '0'
    } else {
        'x'
    }) by {
        assert(body[i - p] == raw[i]);
    }
    if p < end {
        assert(front[e - 1] == raw[end - 1]);
    }
    (p, p + n, end)
}

/// A text without white space at its ends and without `0x` in front is the key
/// as it stands.
pub proof fn law_plain_key_is_kept(raw: Seq<char>)
    requires
        raw.len() > 0 ==> !is_whitespace(raw[0]) && !is_whitespace(raw.last()),
        raw.len() >= 2 ==> !(raw[0] == '0' && raw[1] == 'x'),
    ensures
        key_text(raw) == raw,
{
}

/// White space is: the controls from tab to carriage return, the space, the next
/// line control, the no-break space, and the spaces and separators further up in
/// Unicode.
pub proof fn law_whitespace_codes(c: char)
    ensures
        is_whitespace(c) <==> {
            let code = c as int;
            ||| 9 <= code <= 13
            ||| code == 32 || code == 133 || code == 160 || code == 5760
            ||| 8192 <= code <= 8202
            ||| code == 8232 || code == 8233 || code == 8239 || code == 8287 || code == 12288
        },
{
}

/// A private key is 64 hexadecimal digits of either case, and the number that
/// they denote lies between zero and the order of the curve.
pub proof fn law_private_key_form(text: Seq<char>)
    ensures
        KEY_HEX_DIGITS == 64,
        is_private_key(text) <==> {
            &&& text.len() == 64
            &&& forall|i: int|
                #![trigger text[i]]
                0 <= i < 64 ==> {
                    let code = text[i] as int;
                    48 <= code <= 57 || 65 <= code <= 70 || 97 <= code <= 102
                }
            &&& hex_number(text) > 0
            &&& hex_number(text)
                < 115792089237316195423570985008687907852837564279074904382605163141518161494337nat
        },
{
    if text.len() == 64 {
        assert forall|i: int| #![trigger text[i]] 0 <= i < 64 implies (hex_digit_value(
            text[i],
        ) is Some <==> {
            let code = text[i] as int;
            48 <= code <= 57 || 65 <= code <= 70 || 97 <= code <= 102
        }) by {}
    }
}

/// Hexadecimal digits denote sixteen times what they denote without the last
/// one, and the last one; no digits denote zero.
pub proof fn law_hex_digits_in_base_sixteen(digits: Seq<char>, c: char)
    ensures
        hex_number(Seq::empty()) == 0,
        48 <= c as int <= 57 ==> hex_number(digits.push(c)) == 16 * hex_number(digits) + (c as int
            - 48),
        65 <= c as int <= 70 ==> hex_number(digits.push(c)) == 16 * hex_number(digits) + (c as int
            - 55),
        97 <= c as int <= 102 ==> hex_number(digits.push(c)) == 16 * hex_number(digits) + (c as int
            - 87),
{
    assert(digits.push(c).drop_last() =~= digits);
}

} // verus!

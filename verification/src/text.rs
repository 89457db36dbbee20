//! Text: comparing it, taking it apart and reading numbers from it.

use vstd::prelude::*;
use vstd::string::StrSliceExecFns;

verus! {

/// Text from its UTF-8 encoding, as `String::from_utf8` gives it: the characters that the
/// bytes encode, or nothing where they are no UTF-8.
#[verifier::external_body]
pub(crate) fn utf8_text(bytes: Vec<u8>) -> (r: Option<String>)
    ensures
        match r {
            Some(text) => vstd::utf8::valid_utf8(bytes@) && text@ == vstd::utf8::decode_utf8(
                bytes@,
            ),
            None => !vstd::utf8::valid_utf8(bytes@),
        },
{
    String::from_utf8(bytes).ok()
}

/// Whether two sequences of bytes are equal.
pub fn same_bytes(a: &[u8], b: &[u8]) -> (r: bool)
    ensures
        r == (a@ == b@),
{
    let count: usize = a.len();
    if count != b.len() {
        return false;
    }
    let mut i: usize = 0;
    while i < count
        invariant
            i <= count == a@.len() == b@.len(),
            forall|j: int| 0 <= j < i ==> #[trigger] a@[j] == b@[j],
        decreases count - i,
    {
        if a[i] != b[i] {
            return false;
        }
        i = i + 1;
    }
    assert(a@ =~= b@);
    true
}

/// Texts are equal exactly where their encodings are.
pub proof fn texts_equal_by_encoding(a: Seq<char>, b: Seq<char>)
    ensures
        vstd::utf8::encode_utf8(a) == vstd::utf8::encode_utf8(b) <==> a == b,
{
    vstd::utf8::encode_utf8_decode_utf8(a);
    vstd::utf8::encode_utf8_decode_utf8(b);
}

/// Whether two texts are equal.
pub fn same_text(a: &str, b: &str) -> (r: bool)
    ensures
        r == (a@ == b@),
{
    proof {
        texts_equal_by_encoding(a@, b@);
    }
    same_bytes(a.as_bytes(), b.as_bytes())
}

/// The characters with the Unicode property `White_Space`.
pub open spec fn is_white_space(c: char) -> bool {
    let code = c as u32;
    ||| 0x9 <= code <= 0xd
    ||| code == 0x20
    ||| code == 0x85
    ||| code == 0xa0
    ||| code == 0x1680
    ||| 0x2000 <= code <= 0x200a
    ||| code == 0x2028
    ||| code == 0x2029
    ||| code == 0x202f
    ||| code == 0x205f
    ||| code == 0x3000
}

/// Whether a character is white space.
pub(crate) fn white_space(c: char) -> (r: bool)
    ensures
        r == is_white_space(c),
{
    let code: u32 = c as u32;
    (0x9 <= code && code <= 0xd) || code == 0x20 || code == 0x85 || code == 0xa0 || code == 0x1680
        || (0x2000 <= code && code <= 0x200a) || code == 0x2028 || code == 0x2029 || code == 0x202f
        || code == 0x205f || code == 0x3000
}

/// The characters of a text.
pub fn chars_of(text: &str) -> (r: Vec<char>)
    ensures
        r@ == text@,
{
    let count: usize = text.unicode_len();
    let mut chars: Vec<char> = Vec::new();
    let mut i: usize = 0;
    while i < count
        invariant
            i <= count == text@.len(),
            chars@ =~= text@.take(i as int),
        decreases count - i,
    {
        chars.push(text.get_char(i));
        i = i + 1;
    }
    assert(chars@ =~= text@);
    chars
}

/// The text without white space at its start.
pub open spec fn trimmed_front(text: Seq<char>) -> Seq<char>
    decreases text.len(),
{
    if text.len() > 0 && is_white_space(text[0]) {
        trimmed_front(text.skip(1))
    } else {
        text
    }
}

/// The text without white space at its end.
pub open spec fn trimmed_back(text: Seq<char>) -> Seq<char>
    decreases text.len(),
{
    if text.len() > 0 && is_white_space(text.last()) {
        trimmed_back(text.drop_last())
    } else {
        text
    }
}

/// The text without white space at either end.
pub open spec fn trimmed(text: Seq<char>) -> Seq<char> {
    trimmed_back(trimmed_front(text))
}

/// Takes white space off both ends.
pub fn trim(text: &[char]) -> (r: (usize, usize))
    ensures
        r.0 <= r.1 <= text@.len(),
        text@.subrange(r.0 as int, r.1 as int) == trimmed(text@),
{
    let count: usize = text.len();
    let mut start: usize = 0;
    assert(text@.skip(0) =~= text@);
    while start < count && white_space(text[start])
        invariant
            start <= count == text@.len(),
            trimmed_front(text@) == trimmed_front(text@.skip(start as int)),
        decreases count - start,
    {
        assert(text@.skip(start as int).skip(1) =~= text@.skip(start + 1));
        start = start + 1;
    }
    let ghost front = text@.skip(start as int);
    let mut end: usize = count;
    assert(text@.subrange(start as int, end as int) =~= front);
    while end > start && white_space(text[end - 1])
        invariant
            start <= end <= count == text@.len(),
            front == trimmed_front(text@),
            trimmed_back(front) == trimmed_back(text@.subrange(start as int, end as int)),
        decreases end,
    {
        assert(text@.subrange(start as int, end as int).drop_last() =~= text@.subrange(
            start as int,
            end - 1,
        ));
        end = end - 1;
    }
    (start, end)
}

/// Whether a character is a decimal digit.
pub open spec fn is_digit(c: char) -> bool {
    '0' <= c <= '9'
}

/// The number that decimal digits write.
pub open spec fn digits_value(text: Seq<char>) -> nat
    decreases text.len(),
{
    if text.len() == 0 {
        0
    } else {
        digits_value(text.drop_last()) * 10 + (text.last() as nat - '0' as nat) as nat
    }
}

/// The text without a plus sign in front.
pub open spec fn unsigned_part(text: Seq<char>) -> Seq<char> {
    if text.len() > 0 && text[0] == '+' {
        text.skip(1)
    } else {
        text
    }
}

/// The number that a text writes: decimal digits, with or without a plus sign, that do
/// not exceed what a `usize` can hold.
pub open spec fn number(text: Seq<char>) -> Option<usize> {
    let digits = unsigned_part(text);
    if digits.len() > 0 && (forall|i: int| 0 <= i < digits.len() ==> is_digit(#[trigger] digits[i]))
        && digits_value(digits) <= usize::MAX {
        Some(digits_value(digits) as usize)
    } else {
        None
    }
}

proof fn longer_is_larger(text: Seq<char>, n: int)
    requires
        0 <= n <= text.len(),
        forall|i: int| 0 <= i < text.len() ==> is_digit(#[trigger] text[i]),
    ensures
        digits_value(text.take(n)) <= digits_value(text),
    decreases text.len() - n,
{
    if n < text.len() {
        longer_is_larger(text, n + 1);
        assert(text.take(n + 1).drop_last() =~= text.take(n));
    } else {
        assert(text.take(n) =~= text);
    }
}

/// Reads the number that a text writes.
pub fn parse_number(text: &[char]) -> (r: Option<usize>)
    ensures
        r == number(text@),
{
    let count: usize = text.len();
    let start: usize = if count > 0 && text[0] == '+' {
        1
    } else {
        0
    };
    let ghost digits = unsigned_part(text@);
    assert(digits =~= text@.skip(start as int));
    if start == count {
        return None;
    }
    let mut value: usize = 0;
    let mut i: usize = start;
    assert(digits.take(0) =~= Seq::<char>::empty());
    while i < count
        invariant
            start <= i <= count == text@.len(),
            start < count,
            digits == unsigned_part(text@),
            digits == text@.skip(start as int),
            forall|j: int| 0 <= j < i - start ==> is_digit(#[trigger] digits[j]),
            value == digits_value(digits.take(i - start)),
        decreases count - i,
    {
        let c: char = text[i];
        assert(digits[i - start] == c);
        if c < '0' || c > '9' {
            return None;
        }
        let digit: usize = (c as u32 - '0' as u32) as usize;
        assert(digits.take(i - start + 1).drop_last() =~= digits.take(i - start));
        assert(digits_value(digits.take(i - start + 1)) == value * 10 + digit);
        let next: Option<usize> = match value.checked_mul(10) {
            Some(tens) => tens.checked_add(digit),
            None => None,
        };
        match next {
            Some(sum) => {
                value = sum;
            },
            None => {
                proof {
                    if forall|j: int| 0 <= j < digits.len() ==> is_digit(#[trigger] digits[j]) {
                        longer_is_larger(digits, i - start + 1);
                    }
                }
                return None;
            },
        }
        i = i + 1;
    }
    assert(digits.take(count - start) =~= digits);
    Some(value)
}


/// A number in decimal digits.
pub open spec fn decimal(value: nat) -> Seq<char>
    decreases value,
{
    let digit = ('0' as nat + value % 10) as char;
    if value < 10 {
        seq![digit]
    } else {
        decimal(value / 10).push(digit)
    }
}

/// The decimal digits of a number are digits, and their value is the number.
pub proof fn decimal_has_its_value(value: nat)
    ensures
        decimal(value).len() > 0,
        forall|i: int| 0 <= i < decimal(value).len() ==> is_digit(#[trigger] decimal(value)[i]),
        digits_value(decimal(value)) == value,
    decreases value,
{
    let text = decimal(value);
    let digit = ('0' as nat + value % 10) as char;
    assert(digit as nat == '0' as nat + value % 10);
    if value < 10 {
        assert(text.drop_last() =~= Seq::<char>::empty());
        assert(digits_value(text.drop_last()) == 0);
    } else {
        decimal_has_its_value(value / 10);
        assert(text.drop_last() =~= decimal(value / 10));
    }
}

/// A number that was written in decimal digits is read, with or without a plus sign.
pub proof fn written_number_is_read(value: usize)
    ensures
        number(decimal(value as nat)) == Some(value),
        number(seq!['+'] + decimal(value as nat)) == Some(value),
{
    let text = decimal(value as nat);
    decimal_has_its_value(value as nat);
    assert(is_digit(text[0]));
    assert((seq!['+'] + text).skip(1) =~= text);
}

/// What is trimmed off is white space, and what is left neither starts nor ends with it.
pub proof fn trimming_takes_white_space(text: Seq<char>) -> (r: (int, int))
    ensures
        0 <= r.0 <= r.1 <= text.len(),
        trimmed(text) == text.subrange(r.0, r.1),
        forall|i: int|
            0 <= i < text.len() && !(r.0 <= i < r.1) ==> is_white_space(#[trigger] text[i]),
        trimmed(text).len() > 0 ==> !is_white_space(trimmed(text)[0]) && !is_white_space(
            trimmed(text).last(),
        ),
{
    let a = front_is_white(text);
    let rest = trimmed_front(text);
    let b = back_is_white(rest);
    let r = (a, a + b);
    assert(trimmed(text) =~= text.subrange(a, a + b));
    assert forall|i: int| 0 <= i < text.len() && !(a <= i < a + b) implies is_white_space(
        #[trigger] text[i],
    ) by {
        if i >= a + b {
            assert(rest[i - a] == text[i]);
        }
    }
    if trimmed(text).len() > 0 {
        assert(trimmed(text)[0] == rest[0]);
    }
    r
}

proof fn front_is_white(text: Seq<char>) -> (a: int)
    ensures
        0 <= a <= text.len(),
        trimmed_front(text) == text.subrange(a, text.len() as int),
        forall|i: int| 0 <= i < a ==> is_white_space(#[trigger] text[i]),
        trimmed_front(text).len() > 0 ==> !is_white_space(trimmed_front(text)[0]),
    decreases text.len(),
{
    if text.len() > 0 && is_white_space(text[0]) {
        let rest = text.skip(1);
        let a = front_is_white(rest);
        assert(rest.subrange(a, rest.len() as int) =~= text.subrange(a + 1, text.len() as int));
        assert forall|i: int| 0 <= i < a + 1 implies is_white_space(#[trigger] text[i]) by {
            if i > 0 {
                assert(rest[i - 1] == text[i]);
            }
        }
        a + 1
    } else {
        assert(text.subrange(0, text.len() as int) =~= text);
        0
    }
}

proof fn back_is_white(text: Seq<char>) -> (b: int)
    ensures
        0 <= b <= text.len(),
        trimmed_back(text) == text.subrange(0, b),
        forall|i: int| b <= i < text.len() ==> is_white_space(#[trigger] text[i]),
        trimmed_back(text).len() > 0 ==> !is_white_space(trimmed_back(text).last()),
    decreases text.len(),
{
    if text.len() > 0 && is_white_space(text.last()) {
        let rest = text.drop_last();
        let b = back_is_white(rest);
        assert(rest.subrange(0, b) =~= text.subrange(0, b));
        assert forall|i: int| b <= i < text.len() implies is_white_space(#[trigger] text[i]) by {
            if i < text.len() - 1 {
                assert(rest[i] == text[i]);
            }
        }
        b
    } else {
        assert(text.subrange(0, text.len() as int) =~= text);
        text.len() as int
    }
}

} // verus!

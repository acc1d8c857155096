//! Ranges of code points and the text that names them.

use vstd::prelude::*;

use crate::error::RequestError;
use crate::text::chars_of;

verus! {

/// A closed interval of code points.
#[derive(Debug, Clone, Copy, PartialEq, Eq, Structural)]
pub struct CodePointRange {
    pub start: u32,
    pub end: u32,
}

impl CodePointRange {
    /// Whether the start is no greater than the end.
    pub open spec fn wf(self) -> bool {
        self.start <= self.end
    }

    /// The range from `start` to `end`, if `start` is no greater than `end`.
    pub fn new(start: u32, end: u32) -> (r: Option<CodePointRange>)
        ensures
            r == if start <= end {
                Some(CodePointRange { start, end })
            } else {
                None
            },
    {
        if start <= end {
            Some(CodePointRange { start, end })
        } else {
            None
        }
    }

    /// Whether the code point lies in the range.
    pub fn contains(&self, code_point: u32) -> (b: bool)
        ensures
            b == (self.start <= code_point <= self.end),
    {
        self.start <= code_point && code_point <= self.end
    }
}

/// Whether the character is a decimal digit.
pub open spec fn is_digit(c: char) -> bool {
    '0' <= c <= '9'
}

/// The value of a decimal digit; 0 for any other character.
pub open spec fn digit_value(c: char) -> nat {
    if is_digit(c) {
        (c as u32 - 48) as nat
    } else {
        0
    }
}

/// Whether every character is a decimal digit.
pub open spec fn all_digits(text: Seq<char>) -> bool {
    forall|i: int| 0 <= i < text.len() ==> is_digit(#[trigger] text[i])
}

/// The number that the digits spell in base ten.
pub open spec fn digits_value(text: Seq<char>) -> nat
    decreases text.len(),
{
    if text.len() == 0 {
        0
    } else {
        digits_value(text.drop_last()) * 10 + digit_value(text.last())
    }
}

/// The text without a plus sign at its start.
pub open spec fn unsigned_part(text: Seq<char>) -> Seq<char> {
    if text.len() > 0 && text[0] == '+' {
        text.drop_first()
    } else {
        text
    }
}

/// The number that the text spells: an optional plus sign, then one or more
/// decimal digits whose value fits 32 bits. `None` for any other text.
pub open spec fn number(text: Seq<char>) -> Option<u32> {
    let digits = unsigned_part(text);
    if digits.len() > 0 && all_digits(digits) && digits_value(digits) <= u32::MAX {
        Some(digits_value(digits) as u32)
    } else {
        None
    }
}

/// The index of the first dash in the text, or the text's length where it
/// has none.
pub open spec fn dash_index(text: Seq<char>) -> int
    decreases text.len(),
{
    if text.len() == 0 {
        0
    } else if text[0] == '-' {
        0
    } else {
        1 + dash_index(text.drop_first())
    }
}

/// The range that the text names: two numbers with the only dash of the text
/// between them, the first no greater than the second. `None` for any other
/// text.
pub open spec fn range_of(text: Seq<char>) -> Option<CodePointRange> {
    let dash = dash_index(text);
    if dash < text.len() && dash_index(text.skip(dash + 1)) == text.len() - dash - 1 {
        match (number(text.take(dash)), number(text.skip(dash + 1))) {
            (Some(start), Some(end)) => if start <= end {
                Some(CodePointRange { start, end })
            } else {
                None
            },
            _ => None,
        }
    } else {
        None
    }
}

/// The first dash is where a dash stands with none before it, and at the
/// end where there is none.
pub proof fn lemma_dash_index(text: Seq<char>, i: int)
    requires
        0 <= i <= text.len(),
        forall|k: int| 0 <= k < i ==> text[k] != '-',
        i < text.len() ==> text[i] == '-',
    ensures
        dash_index(text) == i,
    decreases text.len(),
{
    if i > 0 {
        lemma_dash_index(text.drop_first(), i - 1);
    }
}

/// A prefix spells no more than the whole.
pub proof fn lemma_digits_value_prefix(text: Seq<char>, n: int)
    requires
        0 <= n <= text.len(),
    ensures
        digits_value(text.take(n)) <= digits_value(text),
    decreases text.len() - n,
{
    if n == text.len() {
        assert(text.take(n) =~= text);
    } else {
        assert(text.take(n + 1).drop_last() =~= text.take(n));
        lemma_digits_value_prefix(text, n + 1);
    }
}

/// The character of a digit below ten.
pub open spec fn digit_char(digit: nat) -> char {
    ((48 + digit) as u8) as char
}

/// The number in base ten, without a sign and without a leading zero.
pub open spec fn decimal_text(value: nat) -> Seq<char>
    decreases value,
{
    if value < 10 {
        seq![digit_char(value)]
    } else {
        decimal_text(value / 10).push(digit_char(value % 10))
    }
}

/// The text that names the range from `start` to `end`: the two numbers in
/// base ten with a dash between them.
pub open spec fn range_text(start: u32, end: u32) -> Seq<char> {
    decimal_text(start as nat) + seq!['-'] + decimal_text(end as nat)
}

/// A number in base ten is one or more digits that spell it.
pub proof fn lemma_decimal_text(value: nat)
    ensures
        decimal_text(value).len() > 0,
        all_digits(decimal_text(value)),
        digits_value(decimal_text(value)) == value,
    decreases value,
{
    if value < 10 {
        assert(is_digit(digit_char(value)));
        assert(digit_value(digit_char(value)) == value);
        assert(decimal_text(value).drop_last() =~= Seq::<char>::empty());
        assert(digits_value(decimal_text(value).drop_last()) == 0);
    } else {
        lemma_decimal_text(value / 10);
        let last = digit_char(value % 10);
        assert(is_digit(last));
        assert(digit_value(last) == value % 10);
        assert(decimal_text(value).drop_last() =~= decimal_text(value / 10));
    }
}

/// The text of a range names that range.
pub proof fn lemma_range_text(start: u32, end: u32)
    requires
        start <= end,
    ensures
        range_of(range_text(start, end)) == Some(CodePointRange { start, end }),
{
    let first = decimal_text(start as nat);
    let second = decimal_text(end as nat);
    let text = range_text(start, end);
    lemma_decimal_text(start as nat);
    lemma_decimal_text(end as nat);
    assert forall|k: int| 0 <= k < first.len() implies text[k] != '-' by {
        assert(is_digit(first[k]));
    }
    lemma_dash_index(text, first.len() as int);
    assert(text.take(first.len() as int) =~= first);
    assert(text.skip(first.len() as int + 1) =~= second);
    assert forall|k: int| 0 <= k < second.len() implies second[k] != '-' by {
        assert(is_digit(second[k]));
    }
    lemma_dash_index(second, second.len() as int);
    assert(is_digit(first[0]));
    assert(is_digit(second[0]));
}

/// The number that the characters from `from` up to `to` spell.
fn parse_number(chars: &Vec<char>, from: usize, to: usize) -> (r: Option<u32>)
    requires
        from <= to <= chars.len(),
    ensures
        r == number(chars@.subrange(from as int, to as int)),
{
    let ghost text = chars@.subrange(from as int, to as int);
    let mut i: usize = from;
    if i < to && chars[i] == '+' {
        i += 1;
    }
    let first: usize = i;
    let ghost digits = unsigned_part(text);
    proof {
        assert(digits =~= chars@.subrange(first as int, to as int));
    }
    if first == to {
        return None;
    }
    let mut value: u32 = 0;
    while i < to
        invariant
            from <= first <= i <= to <= chars.len(),
            first < to,
            digits == chars@.subrange(first as int, to as int),
            digits == unsigned_part(chars@.subrange(from as int, to as int)),
            all_digits(digits.take(i - first)),
            digits_value(digits.take(i - first)) == value,
        decreases to - i,
    {
        let c = chars[i];
        proof {
            assert(digits[i - first] == c);
            assert(digits.take(i - first + 1).drop_last() =~= digits.take(i - first));
            lemma_digits_value_prefix(digits, i - first + 1);
        }
        if !('0' <= c && c <= '9') {
            proof {
                assert(!is_digit(digits[i - first]));
            }
            return None;
        }
        let digit: u32 = c as u32 - 48;
        proof {
            assert(digits_value(digits.take(i - first + 1)) == value * 10 + digit);
        }
        if value > 429496729 || (value == 429496729 && digit > 5) {
            return None;
        }
        value = value * 10 + digit;
        i += 1;
    }
    proof {
        assert(digits.take(i - first) =~= digits);
    }
    Some(value)
}

/// The range that the text names.
pub fn parse_range(text: &str) -> (r: Result<CodePointRange, RequestError>)
    ensures
        match r {
            Ok(range) => range_of(text@) == Some(range) && range.wf(),
            Err(e) => range_of(text@) is None && e == RequestError::InvalidRange,
        },
{
    let chars = chars_of(text);
    let n = chars.len();
    let mut dash: usize = 0;
    while dash < n && chars[dash] != '-'
        invariant
            dash <= n == chars.len(),
            forall|k: int| 0 <= k < dash ==> chars@[k] != '-',
        decreases n - dash,
    {
        dash += 1;
    }
    proof {
        lemma_dash_index(chars@, dash as int);
    }
    if dash == n {
        return Err(RequestError::InvalidRange);
    }
    let mut next: usize = dash + 1;
    let ghost rest = chars@.skip(dash + 1);
    while next < n && chars[next] != '-'
        invariant
            dash < next <= n == chars.len(),
            rest == chars@.skip(dash + 1),
            forall|k: int| 0 <= k < next - dash - 1 ==> rest[k] != '-',
        decreases n - next,
    {
        next += 1;
    }
    proof {
        lemma_dash_index(rest, next - dash - 1);
    }
    if next < n {
        return Err(RequestError::InvalidRange);
    }
    proof {
        assert(chars@.subrange(0, dash as int) =~= chars@.take(dash as int));
        assert(chars@.subrange(dash + 1, n as int) =~= rest);
    }
    match (parse_number(&chars, 0, dash), parse_number(&chars, dash + 1, n)) {
        (Some(start), Some(end)) => if start <= end {
            Ok(CodePointRange { start, end })
        } else {
            Err(RequestError::InvalidRange)
        },
        _ => Err(RequestError::InvalidRange),
    }
}

} // verus!

//! Decimal text, as numbers appear in canonical messages, in error messages
//! and on the command line.

use vstd::prelude::*;
use vstd::string::StringExecFns;

verus! {

/// The character of a decimal digit.
pub open spec fn digit_char(digit: nat) -> char {
    seq!['0', '1', '2', '3', '4', '5', '6', '7', '8', '9'][digit as int]
}

/// The decimal numeral of a number: no sign, no leading zero but for zero
/// itself.
pub open spec fn decimal_text(n: nat) -> Seq<char>
    decreases n,
{
    if n < 10 {
        seq![digit_char(n)]
    } else {
        decimal_text(n / 10).push(digit_char(n % 10))
    }
}

fn digit_str(digit: u64) -> (text: &'static str)
    requires
        digit < 10,
    ensures
        text@ == seq![digit_char(digit as nat)],
{
    let text = match digit {
        0 => "0",
        1 => "1",
        2 => "2",
        3 => "3",
        4 => "4",
        5 => "5",
        6 => "6",
        7 => "7",
        8 => "8",
        _ => "9",
    };
    proof {
        reveal_strlit("0");
        reveal_strlit("1");
        reveal_strlit("2");
        reveal_strlit("3");
        reveal_strlit("4");
        reveal_strlit("5");
        reveal_strlit("6");
        reveal_strlit("7");
        reveal_strlit("8");
        reveal_strlit("9");
        assert(text@ =~= seq![digit_char(digit as nat)]);
    }
    text
}

/// Appends the decimal numeral of `n` to `out`.
pub fn push_decimal(out: &mut String, n: u64)
    ensures
        final(out)@ == old(out)@ + decimal_text(n as nat),
    decreases n,
{
    if n >= 10 {
        push_decimal(out, n / 10);
    }
    out.append(digit_str(n % 10));
    proof {
        if n >= 10 {
            assert(old(out)@ + decimal_text(n as nat / 10) + seq![digit_char(n as nat % 10)]
                =~= old(out)@ + decimal_text(n as nat));
        } else {
            assert(old(out)@ + seq![digit_char(n as nat % 10)] =~= old(out)@ + decimal_text(
                n as nat,
            ));
        }
    }
}

/// The characters of a string, in order.
pub fn chars_of(text: &str) -> (chars: Vec<char>)
    ensures
        chars@ == text@,
{
    let mut chars: Vec<char> = Vec::new();
    for c in it: text.chars()
        invariant
            chars@ == it.seq().take(it.index() as int),
            it.seq() == text@,
    {
        chars.push(c);
        assert(it.seq().take(it.index() + 1) =~= it.seq().take(it.index() as int).push(c));
    }
    assert(text@.take(text@.len() as int) =~= text@);
    chars
}

/// The value of a decimal digit.
pub open spec fn digit_value(c: char) -> Option<nat> {
    if 48 <= c as u32 <= 57 {
        Some((c as u32 - 48) as nat)
    } else {
        None
    }
}

/// Whether every character is a decimal digit.
pub open spec fn all_digits(s: Seq<char>) -> bool {
    forall|i: int| 0 <= i < s.len() ==> digit_value(#[trigger] s[i]) is Some
}

/// The number that a string of decimal digits denotes.
pub open spec fn digits_value(s: Seq<char>) -> nat
    decreases s.len(),
{
    if s.len() == 0 {
        0
    } else {
        digits_value(s.drop_last()) * 10 + digit_value(s.last())->0
    }
}

/// Why a string is not a number within its limits.
#[derive(Debug, Clone, Copy, PartialEq, Eq, Structural)]
pub enum NumberFault {
    /// The string is empty.
    Empty,
    /// The string is not a numeral.
    InvalidDigit,
    /// The numeral denotes a number above the upper limit.
    TooLarge,
    /// The numeral denotes a number below the lower limit.
    TooSmall,
}

/// What reading `body` as a string of digits that denotes at most `limit`
/// gives.  There must be at least one digit and nothing else.
pub open spec fn digits_outcome(body: Seq<char>, limit: nat) -> Result<u64, NumberFault> {
    if body.len() == 0 || !all_digits(body) {
        Err(NumberFault::InvalidDigit)
    } else if digits_value(body) <= limit {
        Ok(digits_value(body) as u64)
    } else {
        Err(NumberFault::TooLarge)
    }
}

/// What reading `s` as an unsigned number of at most `limit` gives: an
/// optional plus sign, then digits.
pub open spec fn unsigned_outcome(s: Seq<char>, limit: nat) -> Result<u64, NumberFault> {
    if s.len() == 0 {
        Err(NumberFault::Empty)
    } else if s[0] == '+' {
        digits_outcome(s.skip(1), limit)
    } else {
        digits_outcome(s, limit)
    }
}

/// What reading `s` as a number from `lowest` to `highest` gives: an
/// optional sign, then digits.  A minus sign is a sign only where numbers
/// below zero are within the limits.
pub open spec fn integer_outcome(s: Seq<char>, lowest: int, highest: int) -> Result<
    int,
    NumberFault,
> {
    if s.len() > 0 && s[0] == '-' && lowest < 0 {
        match digits_outcome(s.skip(1), (-lowest) as nat) {
            Ok(magnitude) => Ok(-(magnitude as int)),
            Err(NumberFault::TooLarge) => Err(NumberFault::TooSmall),
            Err(fault) => Err(fault),
        }
    } else {
        match unsigned_outcome(s, highest as nat) {
            Ok(magnitude) => Ok(magnitude as int),
            Err(fault) => Err(fault),
        }
    }
}

/// The number with the given sign and magnitude.
pub open spec fn signed(negative: bool, magnitude: u64) -> int {
    if negative {
        -(magnitude as int)
    } else {
        magnitude as int
    }
}

/// The words for a fault.
pub open spec fn fault_text(fault: NumberFault) -> Seq<char> {
    match fault {
        NumberFault::Empty => "cannot parse integer from empty string"@,
        NumberFault::InvalidDigit => "invalid digit found in string"@,
        NumberFault::TooLarge => "number too large to fit in target type"@,
        NumberFault::TooSmall => "number too small to fit in target type"@,
    }
}

impl NumberFault {
    /// The words for the fault.
    pub fn text(&self) -> (words: &'static str)
        ensures
            words@ == fault_text(*self),
    {
        match self {
            NumberFault::Empty => "cannot parse integer from empty string",
            NumberFault::InvalidDigit => "invalid digit found in string",
            NumberFault::TooLarge => "number too large to fit in target type",
            NumberFault::TooSmall => "number too small to fit in target type",
        }
    }
}

/// A numeral denotes at least what any of its prefixes denotes.
pub proof fn lemma_digits_value_prefix(s: Seq<char>, n: int)
    requires
        0 <= n <= s.len(),
    ensures
        digits_value(s.take(n)) <= digits_value(s),
    decreases s.len(),
{
    if n == s.len() {
        assert(s.take(n) =~= s);
    } else {
        lemma_digits_value_prefix(s.drop_last(), n);
        assert(s.drop_last().take(n) =~= s.take(n));
    }
}

/// Reads the characters from `from` up to `end` as digits that denote at
/// most `limit`.
pub fn parse_digits(chars: &Vec<char>, from: usize, end: usize, limit: u64) -> (r: Result<
    u64,
    NumberFault,
>)
    requires
        from <= end <= chars@.len(),
    ensures
        r == digits_outcome(chars@.subrange(from as int, end as int), limit as nat),
{
    let ghost body = chars@.subrange(from as int, end as int);
    if from == end {
        return Err(NumberFault::InvalidDigit);
    }
    let mut i: usize = from;
    while i < end
        invariant
            from <= i <= end <= chars@.len(),
            from < end,
            body == chars@.subrange(from as int, end as int),
            forall|k: int| 0 <= k < i - from ==> digit_value(#[trigger] body[k]) is Some,
        decreases end - i,
    {
        let code = chars[i] as u32;
        if code < 48 || code > 57 {
            assert(digit_value(body[i - from]) is None);
            return Err(NumberFault::InvalidDigit);
        }
        i += 1;
    }
    let mut value: u64 = 0;
    let mut i: usize = from;
    proof {
        assert(body.take(0) =~= Seq::<char>::empty());
    }
    while i < end
        invariant
            from <= i <= end <= chars@.len(),
            from < end,
            body == chars@.subrange(from as int, end as int),
            all_digits(body),
            value == digits_value(body.take(i - from)),
            value <= limit,
        decreases end - i,
    {
        let digit = (chars[i] as u32 - 48) as u64;
        proof {
            assert(body.take(i - from + 1).drop_last() =~= body.take(i - from));
            assert(body.take(i - from + 1).last() == body[i - from]);
            assert(digit_value(body[i - from]) is Some);
            lemma_digits_value_prefix(body, i - from + 1);
        }
        let next: u128 = value as u128 * 10 + digit as u128;
        if next > limit as u128 {
            return Err(NumberFault::TooLarge);
        }
        value = next as u64;
        i += 1;
    }
    proof {
        assert(body.take(end - from) =~= body);
    }
    Ok(value)
}

/// Reads the characters from `start` up to `end` as an unsigned number of at
/// most `limit`.
pub fn parse_unsigned(chars: &Vec<char>, start: usize, end: usize, limit: u64) -> (r: Result<
    u64,
    NumberFault,
>)
    requires
        start <= end <= chars@.len(),
    ensures
        r == unsigned_outcome(chars@.subrange(start as int, end as int), limit as nat),
{
    let ghost s = chars@.subrange(start as int, end as int);
    if start == end {
        return Err(NumberFault::Empty);
    }
    assert(s[0] == chars@[start as int]);
    if chars[start] == '+' {
        assert(s.skip(1) =~= chars@.subrange(start + 1, end as int));
        parse_digits(chars, start + 1, end, limit)
    } else {
        parse_digits(chars, start, end, limit)
    }
}

/// Reads the characters from `start` up to `end` as a number of magnitude at
/// most `below` under zero and at most `above` over it, and hands back its
/// sign and magnitude.
pub fn parse_integer(chars: &Vec<char>, start: usize, end: usize, below: u64, above: u64) -> (r:
    Result<(bool, u64), NumberFault>)
    requires
        start <= end <= chars@.len(),
    ensures
        match integer_outcome(
            chars@.subrange(start as int, end as int),
            -(below as int),
            above as int,
        ) {
            Ok(n) => r matches Ok(parts) && signed(parts.0, parts.1) == n,
            Err(fault) => r == Result::<(bool, u64), NumberFault>::Err(fault),
        },
{
    let ghost s = chars@.subrange(start as int, end as int);
    if start < end && below > 0 && chars[start] == '-' {
        assert(s[0] == chars@[start as int]);
        assert(s.skip(1) =~= chars@.subrange(start + 1, end as int));
        match parse_digits(chars, start + 1, end, below) {
            Ok(magnitude) => Ok((true, magnitude)),
            Err(NumberFault::TooLarge) => Err(NumberFault::TooSmall),
            Err(fault) => Err(fault),
        }
    } else {
        if start < end {
            assert(s[0] == chars@[start as int]);
        }
        match parse_unsigned(chars, start, end, above) {
            Ok(magnitude) => Ok((false, magnitude)),
            Err(fault) => Err(fault),
        }
    }
}

} // verus!

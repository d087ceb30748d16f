//! Decimal numbers as text: reading the numbers of the command line and
//! writing port numbers into report entries.

use vstd::prelude::*;
use vstd::std_specs::iter::IteratorSpec;
use vstd::string::StringExecFns;

verus! {

/// The characters of an optional string.
pub open spec fn text_of(value: Option<String>) -> Option<Seq<char>> {
    match value {
        Some(text) => Some(text@),
        None => None,
    }
}

/// The character that stands for the digit `d`, for `d` below ten.
pub open spec fn digit_char(d: nat) -> char {
    if d == 0 {
        '0'
    } else if d == 1 {
        '1'
    } else if d == 2 {
        '2'
    } else if d == 3 {
        '3'
    } else if d == 4 {
        '4'
    } else if d == 5 {
        '5'
    } else if d == 6 {
        '6'
    } else if d == 7 {
        '7'
    } else if d == 8 {
        '8'
    } else {
        '9'
    }
}

/// The decimal digits of `n`, most significant first, without leading zeros.
pub open spec fn decimal(n: nat) -> Seq<char>
    decreases n,
{
    if n < 10 {
        seq![digit_char(n)]
    } else {
        decimal(n / 10).push(digit_char(n % 10))
    }
}

/// Whether `c` is one of the ten ASCII digits.
pub open spec fn is_digit(c: char) -> bool {
    '0' <= c && c <= '9'
}

/// The number that the digit `c` stands for.
pub open spec fn digit_value(c: char) -> nat {
    (c as u32 - '0' as u32) as nat
}

/// Whether every character of `s` is an ASCII digit.
pub open spec fn all_digits(s: Seq<char>) -> bool {
    forall|i: int| 0 <= i < s.len() ==> is_digit(#[trigger] s[i])
}

/// The number written by the digits `s`, read most significant first.
pub open spec fn digits_value(s: Seq<char>) -> nat
    decreases s.len(),
{
    if s.len() == 0 {
        0
    } else {
        digits_value(s.drop_last()) * 10 + digit_value(s.last())
    }
}

/// How many characters of `s` its sign takes: one for a leading plus sign.
pub open spec fn sign_len(s: Seq<char>) -> int {
    if s.len() > 0 && s[0] == '+' {
        1
    } else {
        0
    }
}

/// `s` without one leading plus sign, if it has one.
pub open spec fn without_sign(s: Seq<char>) -> Seq<char> {
    s.subrange(sign_len(s), s.len() as int)
}

/// What `s` means as an unsigned decimal number no greater than `max`: an
/// optional plus sign, then at least one digit and nothing but digits.
/// Leading zeros are allowed.
pub open spec fn decimal_number(s: Seq<char>, max: nat) -> Option<nat> {
    let digits = without_sign(s);
    if digits.len() > 0 && all_digits(digits) && digits_value(digits) <= max {
        Some(digits_value(digits))
    } else {
        None
    }
}

/// Adding digits never makes the number that a digit string writes smaller.
proof fn lemma_value_grows(s: Seq<char>, k: int)
    requires
        0 <= k <= s.len(),
    ensures
        digits_value(s.subrange(0, k)) <= digits_value(s),
    decreases s.len() - k,
{
    if k == s.len() {
        assert(s.subrange(0, k) == s);
    } else {
        let longer = s.subrange(0, k + 1);
        assert(longer.drop_last() == s.subrange(0, k));
        lemma_value_grows(s, k + 1);
    }
}

/// One more digit at the end multiplies the number by ten and adds the digit.
proof fn lemma_next_digit(s: Seq<char>, from: int, at: int)
    requires
        0 <= from <= at < s.len(),
        all_digits(s.subrange(from, at)),
        is_digit(s[at]),
    ensures
        all_digits(s.subrange(from, at + 1)),
        digits_value(s.subrange(from, at + 1)) == digits_value(s.subrange(from, at)) * 10
            + digit_value(s[at]),
{
    let shorter = s.subrange(from, at);
    let longer = s.subrange(from, at + 1);
    assert(longer.drop_last() == shorter);
    assert(longer.last() == s[at]);
    assert forall|i: int| 0 <= i < longer.len() implies is_digit(#[trigger] longer[i]) by {
        if i < shorter.len() {
            assert(longer[i] == shorter[i]);
        }
    }
}

/// A number whose leading digits already exceed `max` is itself beyond `max`.
proof fn lemma_prefix_too_large(s: Seq<char>, from: int, at: int, max: nat)
    requires
        0 <= from <= at <= s.len(),
        digits_value(s.subrange(from, at)) > max,
    ensures
        digits_value(s.subrange(from, s.len() as int)) > max,
{
    let digits = s.subrange(from, s.len() as int);
    assert(digits.subrange(0, at - from) == s.subrange(from, at));
    lemma_value_grows(digits, at - from);
}

/// The decimal digits of a number are digits, as many as the number needs,
/// and they write that number.
proof fn lemma_decimal_digits(n: nat)
    ensures
        decimal(n).len() > 0,
        all_digits(decimal(n)),
        decimal(n)[0] != '+',
        digits_value(decimal(n)) == n,
    decreases n,
{
    if n < 10 {
        let text = decimal(n);
        assert(text.drop_last() =~= Seq::<char>::empty());
        assert(digits_value(text.drop_last()) == 0);
        assert(digit_value(text.last()) == n);
    } else {
        lemma_decimal_digits(n / 10);
        let head = decimal(n / 10);
        let text = decimal(n);
        assert(text.drop_last() =~= head);
        assert(digit_value(text.last()) == n % 10);
        assert(text[0] == head[0]);
        assert forall|i: int| 0 <= i < text.len() implies is_digit(#[trigger] text[i]) by {
            if i < head.len() {
                assert(text[i] == head[i]);
            }
        }
    }
}

/// Reading what was written gives the number back: the decimal digits of a
/// number no greater than `max` are read as that number.
pub proof fn lemma_read_what_was_written(n: nat, max: nat)
    requires
        n <= max,
    ensures
        decimal_number(decimal(n), max) == Some(n),
{
    lemma_decimal_digits(n);
    assert(without_sign(decimal(n)) =~= decimal(n));
}

/// The one-character text of a digit.
pub fn digit_text(d: u64) -> (text: &'static str)
    requires
        d < 10,
    ensures
        text@ == seq![digit_char(d as nat)],
{
    proof {
        reveal_strlit("0");
        reveal_strlit("1");
        reveal_strlit("2");
        reveal_strlit("3");
        reveal_strlit("4");
        reveal_strlit("5");
        reveal_strlit("6");
        reveal_strlit("7");
        reveal_strlit("8");
        reveal_strlit("9");
    }
    let text = if d == 0 {
        "0"
    } else if d == 1 {
        "1"
    } else if d == 2 {
        "2"
    } else if d == 3 {
        "3"
    } else if d == 4 {
        "4"
    } else if d == 5 {
        "5"
    } else if d == 6 {
        "6"
    } else if d == 7 {
        "7"
    } else if d == 8 {
        "8"
    } else {
        "9"
    };
    assert(text@ =~= seq![digit_char(d as nat)]);
    text
}

/// Writes `n` in decimal.
pub fn render_decimal(n: u64) -> (text: String)
    ensures
        text@ == decimal(n as nat),
    decreases n,
{
    if n < 10 {
        String::from_str(digit_text(n))
    } else {
        let mut text = render_decimal(n / 10);
        text.append(digit_text(n % 10));
        assert(text@ =~= decimal(n as nat));
        text
    }
}

/// Reads `text` as an unsigned decimal number no greater than `max`.
pub fn parse_decimal(text: &str, max: u64) -> (number: Option<u64>)
    ensures
        number is Some <==> decimal_number(text@, max as nat) is Some,
        number matches Some(n) ==> decimal_number(text@, max as nat) == Some(n as nat),
{
    let mut value: u64 = 0;
    let mut first: bool = true;
    let mut any: bool = false;
    let ghost whole = text@;
    let ghost from = sign_len(whole);
    let ghost mut at: int = 0;
    for c in it: text.chars()
        invariant
            it.seq() == whole,
            whole == text@,
            from == sign_len(whole),
            at == it.index(),
            first <==> at == 0,
            any <==> at > from,
            !any ==> value == 0,
            any ==> all_digits(whole.subrange(from, at)),
            any ==> value == digits_value(whole.subrange(from, at)),
            value <= max,
    {
        assert(whole[at] == c);
        if first && c == '+' {
            first = false;
        } else {
            first = false;
            if !(c >= '0' && c <= '9') {
                proof {
                    assert(without_sign(whole)[at - from] == c);
                }
                return None;
            }
            let d: u64 = (c as u32 - '0' as u32) as u64;
            proof {
                if !any {
                    assert(whole.subrange(from, at) =~= Seq::<char>::empty());
                }
                lemma_next_digit(whole, from, at);
            }
            if max < d || value > (max - d) / 10 {
                proof {
                    lemma_prefix_too_large(whole, from, at + 1, max as nat);
                }
                return None;
            }
            value = value * 10 + d;
            any = true;
        }
        proof {
            at = at + 1;
        }
    }
    proof {
        assert(at == whole.len());
    }
    if any {
        Some(value)
    } else {
        None
    }
}

} // verus!

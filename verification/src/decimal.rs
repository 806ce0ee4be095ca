//! Decimal notation of integers.

use vstd::prelude::*;

verus! {

/// The character of a decimal digit.
pub open spec fn digit_char(d: nat) -> char
    recommends
        d < 10,
{
    if d == 0 {
        '0'
    } else if d == 1 {
        '1'
    } else if d == 2 {
        '2'
    } else if d == 3 {
        '3'
    } else if d == 4 {
        '4'
    } else if d == 5 {
        '5'
    } else if d == 6 {
        '6'
    } else if d == 7 {
        '7'
    } else if d == 8 {
        '8'
    } else {
        '9'
    }
}

/// The decimal digits of `n`, most significant first, without leading zeros.
pub open spec fn digits(n: nat) -> Seq<char>
    decreases n,
{
    if n < 10 {
        seq![digit_char(n)]
    } else {
        digits(n / 10).push(digit_char(n % 10))
    }
}

/// The decimal notation of `n`: a minus sign where it is negative, then the
/// digits of its magnitude.
pub open spec fn decimal(n: int) -> Seq<char> {
    if n < 0 {
        seq!['-'] + digits((-n) as nat)
    } else {
        digits(n as nat)
    }
}

/// The one-character string of a decimal digit.
fn digit_str(d: u64) -> (text: &'static str)
    requires
        d < 10,
    ensures
        text@ == seq![digit_char(d as nat)],
{
    proof {
        reveal_strlit("0");
        reveal_strlit("1");
        reveal_strlit("2");
        reveal_strlit("3");
        reveal_strlit("4");
        reveal_strlit("5");
        reveal_strlit("6");
        reveal_strlit("7");
        reveal_strlit("8");
        reveal_strlit("9");
    }
    let text = if d == 0 {
        "0"
    } else if d == 1 {
        "1"
    } else if d == 2 {
        "2"
    } else if d == 3 {
        "3"
    } else if d == 4 {
        "4"
    } else if d == 5 {
        "5"
    } else if d == 6 {
        "6"
    } else if d == 7 {
        "7"
    } else if d == 8 {
        "8"
    } else {
        "9"
    };
    assert(text@ =~= seq![digit_char(d as nat)]);
    text
}

/// Writes `n` in decimal notation.
pub fn unsigned_to_string(n: u64) -> (text: String)
    ensures
        text@ == digits(n as nat),
    decreases n,
{
    if n < 10 {
        String::from_str(digit_str(n))
    } else {
        let mut text = unsigned_to_string(n / 10);
        let last = digit_str(n % 10);
        text.append(last);
        assert(text@ =~= digits((n / 10) as nat).push(digit_char((n % 10) as nat)));
        text
    }
}

/// Writes `n` in decimal notation, with a minus sign where it is negative.
pub fn signed_to_string(n: i64) -> (text: String)
    ensures
        text@ == decimal(n as int),
{
    if n < 0 {
        let magnitude: u64 = if n == i64::MIN {
            9223372036854775808u64
        } else {
            (-n) as u64
        };
        proof {
            reveal_strlit("-");
        }
        let mut text = String::from_str("-");
        let rest = unsigned_to_string(magnitude);
        text.append(rest.as_str());
        assert(text@ =~= seq!['-'] + digits((-n) as nat));
        text
    } else {
        unsigned_to_string(n as u64)
    }
}

/// The value of a decimal digit; `None` for every other character.
pub open spec fn digit_value(c: char) -> Option<nat> {
    if c == '0' {
        Some(0)
    } else if c == '1' {
        Some(1)
    } else if c == '2' {
        Some(2)
    } else if c == '3' {
        Some(3)
    } else if c == '4' {
        Some(4)
    } else if c == '5' {
        Some(5)
    } else if c == '6' {
        Some(6)
    } else if c == '7' {
        Some(7)
    } else if c == '8' {
        Some(8)
    } else if c == '9' {
        Some(9)
    } else {
        None
    }
}

/// The number that a text of decimal digits writes; `None` where the text
/// is empty or holds another character.
pub open spec fn digits_value(text: Seq<char>) -> Option<nat>
    decreases text.len(),
{
    if text.len() == 0 {
        None
    } else if text.len() == 1 {
        digit_value(text[0])
    } else {
        match (digits_value(text.drop_last()), digit_value(text.last())) {
            (Some(front), Some(last)) => Some(front * 10 + last),
            _ => None,
        }
    }
}

/// The number that a text writes: decimal digits, with a plus or minus sign
/// before them or none. `None` for every other text.
pub open spec fn integer_value(text: Seq<char>) -> Option<int> {
    if text.len() > 0 && text[0] == '-' {
        match digits_value(text.skip(1)) {
            Some(magnitude) => Some(-(magnitude as int)),
            None => None,
        }
    } else if text.len() > 0 && text[0] == '+' {
        match digits_value(text.skip(1)) {
            Some(magnitude) => Some(magnitude as int),
            None => None,
        }
    } else {
        match digits_value(text) {
            Some(magnitude) => Some(magnitude as int),
            None => None,
        }
    }
}

/// The number that a text writes, where it fits in 32 bits with a sign.
pub open spec fn i32_value(text: Seq<char>) -> Option<int> {
    match integer_value(text) {
        Some(n) => if -0x8000_0000 <= n <= 0x7fff_ffff {
            Some(n)
        } else {
            None
        },
        None => None,
    }
}

/// A text of digits writes at least what its beginning writes, and both
/// are numbers.
proof fn lemma_digits_value_prefix(text: Seq<char>, k: int)
    requires
        1 <= k <= text.len(),
        digits_value(text) is Some,
    ensures
        digits_value(text.take(k)) is Some,
        digits_value(text.take(k))->0 <= digits_value(text)->0,
    decreases text.len(),
{
    if k == text.len() {
        assert(text.take(k) =~= text);
    } else {
        lemma_digits_value_prefix(text.drop_last(), k);
        assert(text.drop_last().take(k) =~= text.take(k));
    }
}

/// A text that holds a character that is no digit writes no number.
proof fn lemma_digits_value_rejects(text: Seq<char>, at: int)
    requires
        0 <= at < text.len(),
        digit_value(text[at]) is None,
    ensures
        digits_value(text) is None,
    decreases text.len(),
{
    if text.len() > 1 && at < text.len() - 1 {
        lemma_digits_value_rejects(text.drop_last(), at);
    }
}

/// The digits of a number write that number.
pub proof fn lemma_digits_round_trip(n: nat)
    ensures
        digits_value(digits(n)) == Some(n),
    decreases n,
{
    if n >= 10 {
        lemma_digits_round_trip(n / 10);
        let text = digits(n);
        assert(text.drop_last() =~= digits(n / 10));
        lemma_digits_nonempty(n / 10);
    }
}

/// The digits of a number are at least one, and the first is no sign.
proof fn lemma_digits_nonempty(n: nat)
    ensures
        digits(n).len() >= 1,
        digits(n)[0] != '-',
        digits(n)[0] != '+',
    decreases n,
{
    if n >= 10 {
        lemma_digits_nonempty(n / 10);
    }
}

/// Reading the decimal notation of a number gives the number back.
pub proof fn lemma_decimal_round_trip(n: int)
    ensures
        integer_value(decimal(n)) == Some(n),
{
    if n < 0 {
        lemma_digits_round_trip((-n) as nat);
        assert(decimal(n).skip(1) =~= digits((-n) as nat));
    } else {
        lemma_digits_round_trip(n as nat);
        lemma_digits_nonempty(n as nat);
    }
}

/// The value of a character as a decimal digit.
fn digit_of(c: char) -> (value: Option<i64>)
    ensures
        match value {
            Some(d) => digit_value(c) == Some(d as nat) && 0 <= d <= 9,
            None => digit_value(c) is None,
        },
{
    if c == '0' {
        Some(0)
    } else if c == '1' {
        Some(1)
    } else if c == '2' {
        Some(2)
    } else if c == '3' {
        Some(3)
    } else if c == '4' {
        Some(4)
    } else if c == '5' {
        Some(5)
    } else if c == '6' {
        Some(6)
    } else if c == '7' {
        Some(7)
    } else if c == '8' {
        Some(8)
    } else if c == '9' {
        Some(9)
    } else {
        None
    }
}

/// Reads a number that fits in 32 bits with a sign; `None` for a text that
/// writes no such number.
pub fn parse_i32(text: &str) -> (value: Option<i32>)
    ensures
        match value {
            Some(n) => i32_value(text@) == Some(n as int),
            None => i32_value(text@) is None,
        },
{
    let len = text.unicode_len();
    if len == 0 {
        return None;
    }
    let first = text.get_char(0);
    let negative = first == '-';
    let start: usize = if first == '-' || first == '+' {
        1
    } else {
        0
    };
    let ghost body = text@.skip(start as int);
    proof {
        if start == 0 {
            assert(body =~= text@);
        }
    }
    proof {
        assert(integer_value(text@) == match digits_value(body) {
            Some(m) => Some(
                if negative {
                    -(m as int)
                } else {
                    m as int
                },
            ),
            None => None::<int>,
        });
    }
    if start == len {
        return None;
    }
    let mut magnitude: i64 = 0;
    let mut i: usize = start;
    while i < len
        invariant
            start <= i <= len,
            len == text@.len(),
            body == text@.skip(start as int),
            integer_value(text@) == match digits_value(body) {
                Some(m) => Some(
                    if negative {
                        -(m as int)
                    } else {
                        m as int
                    },
                ),
                None => None::<int>,
            },
            0 <= magnitude <= 0x8000_0000,
            i > start ==> digits_value(body.take(i - start)) == Some(magnitude as nat),
            i == start ==> magnitude == 0,
        decreases len - i,
    {
        let c = text.get_char(i);
        proof {
            assert(body[i - start] == c);
            assert(body.take(i - start + 1).drop_last() =~= body.take(i - start));
        }
        match digit_of(c) {
            None => {
                proof {
                    lemma_digits_value_rejects(body, i - start);
                }
                return None;
            },
            Some(d) => {
                let next = magnitude * 10 + d;
                proof {
                    assert(body.take(i - start + 1).last() == c);
                    assert(digits_value(body.take(i - start + 1)) == Some(next as nat));
                }
                if next > 0x8000_0000 {
                    proof {
                        if digits_value(body) is Some {
                            lemma_digits_value_prefix(body, i - start + 1);
                        }
                    }
                    return None;
                }
                magnitude = next;
            },
        }
        i += 1;
    }
    proof {
        assert(body.take(len - start) =~= body);
    }
    if negative {
        Some((-magnitude) as i32)
    } else if magnitude > 0x7fff_ffff {
        None
    } else {
        Some(magnitude as i32)
    }
}

} // verus!

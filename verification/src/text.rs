//! Numbers as text: the decimal form of a number, and the number that a
//! decimal text stands for.

use vstd::prelude::*;
use vstd::std_specs::iter::IteratorSpec;
use vstd::string::StringExecFns;

verus! {

/// The character of a decimal digit.
pub open spec fn digit_char(d: int) -> char {
    if d == 0 {
        '0'
    } else if d == 1 {
        '1'
    } else if d == 2 {
        '2'
    } else if d == 3 {
        '3'
    } else if d == 4 {
        '4'
    } else if d == 5 {
        '5'
    } else if d == 6 {
        '6'
    } else if d == 7 {
        '7'
    } else if d == 8 {
        '8'
    } else {
        '9'
    }
}

/// The decimal digits of a natural number, most significant first, without
/// leading zeros.
pub open spec fn digits(n: nat) -> Seq<char>
    decreases n,
{
    if n < 10 {
        seq![digit_char(n as int)]
    } else {
        digits(n / 10).push(digit_char((n % 10) as int))
    }
}

/// The decimal form of an integer: a minus sign where it is negative, then
/// the digits of its size.
pub open spec fn decimal(n: int) -> Seq<char> {
    if n < 0 {
        seq!['-'] + digits((-n) as nat)
    } else {
        digits(n as nat)
    }
}

/// The text of one decimal digit.
fn digit_text(d: u64) -> (text: &'static str)
    requires
        d < 10,
    ensures
        text@ == seq![digit_char(d as int)],
{
    if d == 0 {
        proof {
            reveal_strlit("0");
        }
        "0"
    } else if d == 1 {
        proof {
            reveal_strlit("1");
        }
        "1"
    } else if d == 2 {
        proof {
            reveal_strlit("2");
        }
        "2"
    } else if d == 3 {
        proof {
            reveal_strlit("3");
        }
        "3"
    } else if d == 4 {
        proof {
            reveal_strlit("4");
        }
        "4"
    } else if d == 5 {
        proof {
            reveal_strlit("5");
        }
        "5"
    } else if d == 6 {
        proof {
            reveal_strlit("6");
        }
        "6"
    } else if d == 7 {
        proof {
            reveal_strlit("7");
        }
        "7"
    } else if d == 8 {
        proof {
            reveal_strlit("8");
        }
        "8"
    } else {
        proof {
            reveal_strlit("9");
        }
        "9"
    }
}

/// Appends the digits of `n` to `out`.
pub fn push_digits(out: &mut String, n: u64)
    ensures
        final(out)@ == old(out)@ + digits(n as nat),
    decreases n,
{
    if n >= 10 {
        push_digits(out, n / 10);
    }
    out.append(digit_text(n % 10));
}

/// Appends the decimal form of `n` to `out`.
pub fn push_decimal(out: &mut String, n: i32)
    ensures
        final(out)@ == old(out)@ + decimal(n as int),
{
    let wide: i64 = n as i64;
    if wide < 0 {
        proof {
            reveal_strlit("-");
        }
        out.append("-");
        push_digits(out, (-wide) as u64);
    } else {
        push_digits(out, wide as u64);
    }
}

/// The value of a decimal digit, `None` for any other character.
pub open spec fn digit_of(c: char) -> Option<int> {
    if c == '0' {
        Some(0)
    } else if c == '1' {
        Some(1)
    } else if c == '2' {
        Some(2)
    } else if c == '3' {
        Some(3)
    } else if c == '4' {
        Some(4)
    } else if c == '5' {
        Some(5)
    } else if c == '6' {
        Some(6)
    } else if c == '7' {
        Some(7)
    } else if c == '8' {
        Some(8)
    } else if c == '9' {
        Some(9)
    } else {
        None
    }
}

/// Whether every character is a decimal digit.
pub open spec fn all_digits(s: Seq<char>) -> bool {
    forall|i: int| 0 <= i < s.len() ==> digit_of(#[trigger] s[i]) is Some
}

/// The number that a run of digits stands for; the empty run stands for
/// zero.
pub open spec fn digits_value(s: Seq<char>) -> nat
    decreases s.len(),
{
    if s.len() == 0 {
        0
    } else {
        (10 * digits_value(s.drop_last()) + digit_of(s.last()).unwrap_or(0)) as nat
    }
}

/// The number that a text stands for, if it is the decimal form of a number
/// that fits a 32-bit word: one optional sign, `+` or `-`, and then at
/// least one digit and nothing but digits. Leading zeros are accepted;
/// blanks and other characters are not.
pub open spec fn parse_i32(s: Seq<char>) -> Option<i32> {
    if s.len() == 0 {
        None
    } else {
        let signed = s[0] == '-' || s[0] == '+';
        let body = if signed {
            s.skip(1)
        } else {
            s
        };
        let value = if s[0] == '-' {
            -(digits_value(body) as int)
        } else {
            digits_value(body) as int
        };
        if body.len() > 0 && all_digits(body) && i32::MIN <= value <= i32::MAX {
            Some(value as i32)
        } else {
            None
        }
    }
}

/// The executable form of [`digit_of`].
fn digit(c: char) -> (d: Option<i64>)
    ensures
        match d {
            Some(v) => digit_of(c) == Some(v as int) && 0 <= v <= 9,
            None => digit_of(c) is None,
        },
{
    if c == '0' {
        Some(0)
    } else if c == '1' {
        Some(1)
    } else if c == '2' {
        Some(2)
    } else if c == '3' {
        Some(3)
    } else if c == '4' {
        Some(4)
    } else if c == '5' {
        Some(5)
    } else if c == '6' {
        Some(6)
    } else if c == '7' {
        Some(7)
    } else if c == '8' {
        Some(8)
    } else if c == '9' {
        Some(9)
    } else {
        None
    }
}

/// The value of a run of digits, cut off above 2^31: every number beyond
/// that is one that no word holds, with either sign.
spec fn capped(value: nat) -> int {
    if value > 0x8000_0000 {
        0x8000_0001
    } else {
        value as int
    }
}

/// Reads a text as a 32-bit number.
pub fn parse_number(text: &str) -> (r: Option<i32>)
    ensures
        r == parse_i32(text@),
{
    broadcast use vstd::string::group_string_axioms;

    let mut chars = text.chars();
    let first = match chars.next() {
        Some(c) => c,
        None => {
            return None;
        },
    };
    let negative = first == '-';
    let signed = negative || first == '+';
    let ghost body = if signed {
        text@.skip(1)
    } else {
        text@
    };
    let ghost mut seen: int = 0;
    let mut acc: i64 = 0;
    let mut pending: Option<char> = if signed {
        None
    } else {
        Some(first)
    };
    let mut any = false;
    loop
        invariant
            0 <= seen <= body.len(),
            match pending {
                Some(c) => !signed && seen == 0 && c == text@[0] && chars.remaining()
                    == text@.skip(1),
                None => chars.remaining() == body.skip(seen),
            },
            all_digits(body.take(seen)),
            acc == capped(digits_value(body.take(seen))),
            any == (seen > 0),
            text@.len() > 0,
            signed == (text@[0] == '-' || text@[0] == '+'),
            body == if signed {
                text@.skip(1)
            } else {
                text@
            },
        ensures
            seen == body.len(),
        decreases body.len() - seen + if pending is Some { 1int } else { 0int },
    {
        let next = match pending {
            Some(c) => {
                pending = None;
                Some(c)
            },
            None => {
                let c = chars.next();
                c
            },
        };
        match next {
            None => {
                break;
            },
            Some(c) => {
                assert(c == body[seen]);
                match digit(c) {
                    None => {
                        return None;
                    },
                    Some(d) => {
                        proof {
                            let before = body.take(seen);
                            let now = body.take(seen + 1);
                            assert(now.drop_last() == before);
                            assert(now.last() == c);
                            assert(all_digits(now)) by {
                                assert forall|i: int| 0 <= i < now.len() implies digit_of(
                                    #[trigger] now[i],
                                ) is Some by {
                                    if i < seen {
                                        assert(now[i] == before[i]);
                                    }
                                }
                            }
                            seen = seen + 1;
                        }
                        acc = if acc > 0x8000_0000 {
                            0x8000_0001
                        } else {
                            let grown: i64 = acc * 10 + d;
                            if grown > 0x8000_0000 {
                                0x8000_0001
                            } else {
                                grown
                            }
                        };
                        any = true;
                    },
                }
            },
        }
    }
    assert(body.take(seen) == body);
    if !any {
        None
    } else if negative {
        if acc <= 0x8000_0000 {
            Some((-acc) as i32)
        } else {
            None
        }
    } else {
        if acc <= 0x7fff_ffff {
            Some(acc as i32)
        } else {
            None
        }
    }
}

/// The digits of a number are digits, and they stand for the number.
pub proof fn lemma_digits_stand_for(n: nat)
    ensures
        digits(n).len() > 0,
        all_digits(digits(n)),
        digits_value(digits(n)) == n,
    decreases n,
{
    let text = digits(n);
    if n < 10 {
        assert(text.drop_last() == Seq::<char>::empty());
        assert(digits_value(text.drop_last()) == 0);
        assert(digit_of(text.last()) == Some(n as int));
    } else {
        lemma_digits_stand_for(n / 10);
        assert(text.drop_last() == digits(n / 10));
        assert(digit_of(text.last()) == Some((n % 10) as int));
    }
}

/// The decimal form of a 32-bit number is read back as that number.
pub proof fn lemma_decimal_parses_back(n: i32)
    ensures
        parse_i32(decimal(n as int)) == Some(n),
{
    let text = decimal(n as int);
    if n < 0 {
        lemma_digits_stand_for((-n) as nat);
        assert(text.skip(1) == digits((-n) as nat));
    } else {
        lemma_digits_stand_for(n as nat);
        assert(digit_of(text[0]) is Some);
    }
}

} // verus!

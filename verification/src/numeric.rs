//! Decimal parsing and formatting of unsigned integers, used for the
//! upstream status codes, timetable periods, grades and date strings.

use vstd::prelude::*;
use vstd::string::{StrSliceExecFns, StringExecFns};

verus! {

/// The numeric value of a decimal digit character, or -1 for any other
/// character.
pub open spec fn digit_value(c: char) -> int {
    match c {
        '0' => 0,
        '1' => 1,
        '2' => 2,
        '3' => 3,
        '4' => 4,
        '5' => 5,
        '6' => 6,
        '7' => 7,
        '8' => 8,
        '9' => 9,
        _ => -1,
    }
}

pub open spec fn is_digit(c: char) -> bool {
    digit_value(c) >= 0
}

pub open spec fn all_digits(s: Seq<char>) -> bool {
    forall|i: int| 0 <= i < s.len() ==> is_digit(#[trigger] s[i])
}

/// The value of a sequence of decimal digits, most significant first.
pub open spec fn digits_value(s: Seq<char>) -> int
    decreases s.len(),
{
    if s.len() == 0 {
        0
    } else {
        digits_value(s.drop_last()) * 10 + digit_value(s.last())
    }
}

/// The digits of a number once an optional leading plus sign is stripped,
/// mirroring how the standard library reads unsigned integers.
pub open spec fn digit_body(s: Seq<char>) -> Seq<char> {
    if s.len() >= 1 && s[0] == '+' {
        s.drop_first()
    } else {
        s
    }
}

pub open spec fn parses_as_number(s: Seq<char>) -> bool {
    digit_body(s).len() >= 1 && all_digits(digit_body(s))
}

/// What `s` denotes as a `u32`: an optional plus sign, one or more digits,
/// and a value within range; anything else is `None`.
pub open spec fn parsed_u32(s: Seq<char>) -> Option<u32> {
    if parses_as_number(s) && digits_value(digit_body(s)) <= u32::MAX {
        Some(digits_value(digit_body(s)) as u32)
    } else {
        None
    }
}

/// What `s` denotes as a `u8`, under the same grammar as [`parsed_u32`].
pub open spec fn parsed_u8(s: Seq<char>) -> Option<u8> {
    if parses_as_number(s) && digits_value(digit_body(s)) <= u8::MAX {
        Some(digits_value(digit_body(s)) as u8)
    } else {
        None
    }
}

pub proof fn lemma_digits_value_nonneg(s: Seq<char>)
    requires
        all_digits(s),
    ensures
        digits_value(s) >= 0,
    decreases s.len(),
{
    if s.len() > 0 {
        assert(all_digits(s.drop_last())) by {
            assert(forall|i: int| 0 <= i < s.len() - 1 ==> s.drop_last()[i] == #[trigger] s[i]);
        }
        lemma_digits_value_nonneg(s.drop_last());
        assert(is_digit(s.last()));
    }
}

/// Appending further digits never decreases the denoted value.
pub proof fn lemma_digits_value_prefix(s: Seq<char>, n: int)
    requires
        all_digits(s),
        0 <= n <= s.len(),
    ensures
        digits_value(s.take(n)) <= digits_value(s),
    decreases s.len() - n,
{
    if n < s.len() {
        let t = s.take(n + 1);
        assert(t.drop_last() =~= s.take(n));
        assert(all_digits(t)) by {
            assert(forall|i: int| 0 <= i < t.len() ==> t[i] == #[trigger] s[i]);
        }
        assert(digits_value(t) == digits_value(s.take(n)) * 10 + digit_value(s[n]));
        assert(all_digits(s.take(n))) by {
            assert(forall|i: int| 0 <= i < n ==> s.take(n)[i] == #[trigger] s[i]);
        }
        lemma_digits_value_nonneg(s.take(n));
        assert(digits_value(s.take(n)) <= digits_value(t));
        lemma_digits_value_prefix(s, n + 1);
    } else {
        assert(s.take(n) =~= s);
    }
}

/// The digit denoted by `c`, or `None` for any other character.
pub fn digit_of(c: char) -> (r: Option<u8>)
    ensures
        r matches Some(d) ==> d == digit_value(c) && is_digit(c),
        r is None ==> !is_digit(c),
{
    match c {
        '0' => Some(0),
        '1' => Some(1),
        '2' => Some(2),
        '3' => Some(3),
        '4' => Some(4),
        '5' => Some(5),
        '6' => Some(6),
        '7' => Some(7),
        '8' => Some(8),
        '9' => Some(9),
        _ => None,
    }
}

/// The digit character denoting `d`, for `0 <= d <= 9`.
pub open spec fn digit_char(d: int) -> char {
    if d == 0 {
        '0'
    } else if d == 1 {
        '1'
    } else if d == 2 {
        '2'
    } else if d == 3 {
        '3'
    } else if d == 4 {
        '4'
    } else if d == 5 {
        '5'
    } else if d == 6 {
        '6'
    } else if d == 7 {
        '7'
    } else if d == 8 {
        '8'
    } else {
        '9'
    }
}

/// The one-character string denoting the digit `d`.
pub fn digit_str(d: u32) -> (r: &'static str)
    requires
        d < 10,
    ensures
        r@ =~= seq![digit_char(d as int)],
{
    match d {
        0 => {
            proof {
                reveal_strlit("0");
            }
            "0"
        },
        1 => {
            proof {
                reveal_strlit("1");
            }
            "1"
        },
        2 => {
            proof {
                reveal_strlit("2");
            }
            "2"
        },
        3 => {
            proof {
                reveal_strlit("3");
            }
            "3"
        },
        4 => {
            proof {
                reveal_strlit("4");
            }
            "4"
        },
        5 => {
            proof {
                reveal_strlit("5");
            }
            "5"
        },
        6 => {
            proof {
                reveal_strlit("6");
            }
            "6"
        },
        7 => {
            proof {
                reveal_strlit("7");
            }
            "7"
        },
        8 => {
            proof {
                reveal_strlit("8");
            }
            "8"
        },
        _ => {
            proof {
                reveal_strlit("9");
            }
            "9"
        },
    }
}

/// Reads `s` as a `u32`, exactly as [`parsed_u32`] describes.
pub fn parse_u32(s: &str) -> (r: Option<u32>)
    ensures
        r == parsed_u32(s@),
{
    let len = s.unicode_len();
    let ghost body = digit_body(s@);
    let mut i: usize = 0;
    if len >= 1 && s.get_char(0) == '+' {
        i = 1;
    }
    let ghost start = i as int;
    if i >= len {
        assert(body.len() == 0);
        return None;
    }
    assert(body =~= s@.subrange(start, len as int));
    let mut v: u32 = 0;
    while i < len
        invariant
            start <= i <= len,
            0 <= start <= 1,
            len == s@.len(),
            body == digit_body(s@),
            body =~= s@.subrange(start, len as int),
            all_digits(body.take(i - start)),
            v == digits_value(body.take(i - start)),
        decreases len - i,
    {
        let c = s.get_char(i);
        proof {
            assert(s@.subrange(start, len as int)[i - start] == s@[i as int]);
            assert(body[i - start] == c);
        }
        let d = match digit_of(c) {
            Some(d) => d,
            None => {
                assert(!all_digits(body));
                return None;
            },
        };
        let w: u64 = v as u64 * 10 + d as u64;
        assert(body.take(i - start + 1).drop_last() =~= body.take(i - start));
        assert(digits_value(body.take(i - start + 1)) == w);
        if w > u32::MAX as u64 {
            proof {
                if all_digits(body) {
                    lemma_digits_value_prefix(body, i - start + 1);
                }
            }
            return None;
        }
        v = w as u32;
        i = i + 1;
    }
    assert(body.take(len - start) =~= body);
    Some(v)
}

/// Reads `s` as a `u8`, exactly as [`parsed_u8`] describes.
pub fn parse_u8(s: &str) -> (r: Option<u8>)
    ensures
        r == parsed_u8(s@),
{
    match parse_u32(s) {
        Some(v) => {
            proof {
                lemma_digits_value_nonneg(digit_body(s@));
            }
            if v <= u8::MAX as u32 {
                Some(v as u8)
            } else {
                None
            }
        },
        None => {
            proof {
                if parses_as_number(s@) {
                    lemma_digits_value_nonneg(digit_body(s@));
                }
            }
            None
        },
    }
}

/// The decimal digits of `n`, most significant first and without leading
/// zeros (a single zero for `n == 0`).
pub open spec fn decimal_digits(n: int) -> Seq<char>
    decreases n,
{
    if n < 10 {
        seq![digit_char(n)]
    } else {
        decimal_digits(n / 10) + seq![digit_char(n % 10)]
    }
}

/// Writes `n` in decimal, exactly as [`decimal_digits`] describes.
pub fn u32_to_string(n: u32) -> (r: String)
    ensures
        r@ =~= decimal_digits(n as int),
    decreases n,
{
    if n < 10 {
        String::from_str(digit_str(n))
    } else {
        let mut s = u32_to_string(n / 10);
        s.append(digit_str(n % 10));
        s
    }
}

} // verus!

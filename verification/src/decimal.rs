//! Signed decimal numerals: the text of a 32-bit integer and its reading back.
//!
//! A numeral is an optional `+` or `-` followed by one or more ASCII digits.
//! Anything else, and any numeral whose value does not fit in 32 bits, is
//! not a numeral of this module.

use vstd::prelude::*;

verus! {

/// `c` is one of the ASCII digits.
pub open spec fn is_digit(c: char) -> bool {
    '0' <= c && c <= '9'
}

/// The value of the ASCII digit `c`.
pub open spec fn digit_value(c: char) -> int {
    c as int - '0' as int
}

/// The ASCII digit whose value is `d`.
pub open spec fn digit_char(d: int) -> char {
    ('0' as int + d) as char
}

/// Every character of `s` is an ASCII digit.
pub open spec fn all_digits(s: Seq<char>) -> bool {
    forall|i: int| 0 <= i < s.len() ==> is_digit(#[trigger] s[i])
}

/// The number that a string of digits writes in base ten.
pub open spec fn digits_value(s: Seq<char>) -> nat
    decreases s.len(),
{
    if s.len() == 0 {
        0
    } else {
        (digits_value(s.drop_last()) * 10 + digit_value(s.last())) as nat
    }
}

/// The digits of `n` in base ten, without leading zeros.
pub open spec fn digits_of(n: nat) -> Seq<char>
    decreases n,
{
    if n < 10 {
        seq![digit_char(n as int)]
    } else {
        digits_of(n / 10).push(digit_char((n % 10) as int))
    }
}

/// The numeral of `v`: a `-` for a negative number, then its digits.
pub open spec fn numeral(v: int) -> Seq<char> {
    if v < 0 {
        seq!['-'] + digits_of((-v) as nat)
    } else {
        digits_of(v as nat)
    }
}

/// The integer that `s` writes, if `s` is a numeral.
pub open spec fn numeral_value(s: Seq<char>) -> Option<int> {
    let negative = s.len() > 0 && s[0] == '-';
    let signed = s.len() > 0 && (s[0] == '-' || s[0] == '+');
    let digits = if signed {
        s.skip(1)
    } else {
        s
    };
    if digits.len() == 0 || !all_digits(digits) {
        None
    } else if negative {
        Some(-(digits_value(digits) as int))
    } else {
        Some(digits_value(digits) as int)
    }
}

/// The 32-bit integer that `s` writes, if `s` is a numeral within range.
pub open spec fn parse_spec(s: Seq<char>) -> Option<i32> {
    match numeral_value(s) {
        Some(v) => if i32::MIN <= v <= i32::MAX {
            Some(v as i32)
        } else {
            None
        },
        None => None,
    }
}

/// Appending a digit multiplies the value by ten and adds the digit.
pub proof fn lemma_digits_value_push(s: Seq<char>, c: char)
    requires
        is_digit(c),
    ensures
        digits_value(s.push(c)) == digits_value(s) * 10 + digit_value(c),
{
    assert(s.push(c).drop_last() =~= s);
    assert(s.push(c).last() == c);
}

/// The digits of a number are digits, at least one, and write that number.
pub proof fn lemma_digits_of(n: nat)
    ensures
        digits_of(n).len() >= 1,
        all_digits(digits_of(n)),
        digits_value(digits_of(n)) == n,
    decreases n,
{
    if n < 10 {
        let s = digits_of(n);
        assert(s.len() == 1);
        assert(s[0] == digit_char(n as int));
        assert(s.drop_last() =~= Seq::<char>::empty());
        assert(digits_value(s.drop_last()) == 0);
    } else {
        lemma_digits_of(n / 10);
        let init = digits_of(n / 10);
        let c = digit_char((n % 10) as int);
        lemma_digits_value_push(init, c);
        assert forall|i: int| 0 <= i < init.push(c).len() implies is_digit(
            #[trigger] init.push(c)[i],
        ) by {
            if i < init.len() {
                assert(init.push(c)[i] == init[i]);
            }
        }
    }
}

/// Reading back the numeral of an integer gives that integer.
pub proof fn lemma_numeral_round_trip(v: int)
    ensures
        numeral_value(numeral(v)) == Some(v),
{
    if v < 0 {
        let d = digits_of((-v) as nat);
        lemma_digits_of((-v) as nat);
        assert(numeral(v).skip(1) =~= d);
        assert(numeral(v)[0] == '-');
    } else {
        let d = digits_of(v as nat);
        lemma_digits_of(v as nat);
        assert(is_digit(d[0]));
    }
}

/// Reading back the numeral of a 32-bit integer gives that integer.
pub proof fn lemma_parse_numeral(v: i32)
    ensures
        parse_spec(numeral(v as int)) == Some(v),
{
    lemma_numeral_round_trip(v as int);
}

/// The value of the ASCII digit `c`, or `None` for any other character.
pub fn digit_of(c: char) -> (r: Option<u8>)
    ensures
        match r {
            Some(d) => is_digit(c) && d as int == digit_value(c),
            None => !is_digit(c),
        },
{
    match c {
        '0' => Some(0),
        '1' => Some(1),
        '2' => Some(2),
        '3' => Some(3),
        '4' => Some(4),
        '5' => Some(5),
        '6' => Some(6),
        '7' => Some(7),
        '8' => Some(8),
        '9' => Some(9),
        _ => None,
    }
}

/// The one-character text of the digit `d`.
fn digit_text(d: u8) -> (r: &'static str)
    requires
        d < 10,
    ensures
        r@ == seq![digit_char(d as int)],
{
    proof {
        reveal_strlit("0");
        reveal_strlit("1");
        reveal_strlit("2");
        reveal_strlit("3");
        reveal_strlit("4");
        reveal_strlit("5");
        reveal_strlit("6");
        reveal_strlit("7");
        reveal_strlit("8");
        reveal_strlit("9");
    }
    let r = match d {
        0 => "0",
        1 => "1",
        2 => "2",
        3 => "3",
        4 => "4",
        5 => "5",
        6 => "6",
        7 => "7",
        8 => "8",
        _ => "9",
    };
    assert(r@ =~= seq![digit_char(d as int)]);
    r
}

/// A string of digits is worth at least as much as any of its beginnings.
pub proof fn lemma_digits_value_grows(s: Seq<char>, k: int)
    requires
        all_digits(s),
        0 <= k <= s.len(),
    ensures
        digits_value(s.subrange(0, k)) <= digits_value(s),
    decreases s.len() - k,
{
    if k == s.len() {
        assert(s.subrange(0, k) =~= s);
    } else {
        lemma_digits_value_grows(s, k + 1);
        let next = s.subrange(0, k + 1);
        assert(next.drop_last() =~= s.subrange(0, k));
        assert(next.last() == s[k]);
        assert(is_digit(s[k]));
    }
}

/// Reads a 32-bit integer from its numeral.
pub fn parse(s: &str) -> (r: Option<i32>)
    ensures
        r == parse_spec(s@),
{
    let n = s.unicode_len();
    if n == 0 {
        return None;
    }
    let first = s.get_char(0);
    let negative = first == '-';
    let start: usize = if first == '-' || first == '+' {
        1
    } else {
        0
    };
    if start == n {
        assert(s@.skip(1).len() == 0);
        return None;
    }
    let ghost digits = if start == 1 {
        s@.skip(1)
    } else {
        s@
    };
    let mut acc: u64 = 0;
    let mut i: usize = start;
    while i < n
        invariant
            start <= i <= n,
            n == s@.len(),
            n > 0,
            start <= 1,
            start == 1 <==> (s@[0] == '-' || s@[0] == '+'),
            digits == (if start == 1 {
                s@.skip(1)
            } else {
                s@
            }),
            digits.len() == n - start,
            forall|j: int| 0 <= j < digits.len() ==> digits[j] == s@[start + j],
            all_digits(digits.subrange(0, i - start)),
            acc == digits_value(digits.subrange(0, i - start)),
            acc <= 0x8000_0000,
        decreases n - i,
    {
        let c = s.get_char(i);
        let ghost seen = digits.subrange(0, i - start);
        match digit_of(c) {
            None => {
                assert(!is_digit(digits[i - start]));
                return None;
            },
            Some(d) => {
                proof {
                    lemma_digits_value_push(seen, c);
                    assert(digits.subrange(0, i + 1 - start) =~= seen.push(c));
                    assert forall|j: int| 0 <= j < seen.push(c).len() implies is_digit(
                        #[trigger] seen.push(c)[j],
                    ) by {
                        if j < seen.len() {
                            assert(seen.push(c)[j] == seen[j]);
                        }
                    }
                }
                acc = acc * 10 + d as u64;
                if acc > 0x8000_0000 {
                    proof {
                        if all_digits(digits) {
                            lemma_digits_value_grows(digits, i + 1 - start);
                        }
                    }
                    return None;
                }
            },
        }
        i += 1;
    }
    assert(digits.subrange(0, n - start) =~= digits);
    if negative {
        if acc == 0x8000_0000 {
            Some(i32::MIN)
        } else {
            Some(-(acc as i32))
        }
    } else if acc > 0x7fff_ffff {
        None
    } else {
        Some(acc as i32)
    }
}

/// Writes the numeral of a 32-bit integer.
pub fn render(v: i32) -> (r: String)
    ensures
        r@ == numeral(v as int),
{
    let magnitude: u32 = if v < 0 {
        (-(v as i64)) as u32
    } else {
        v as u32
    };
    let mut out: String = digit_text((magnitude % 10) as u8).to_owned();
    let mut rest: u32 = magnitude / 10;
    while rest > 0
        invariant
            digits_of(magnitude as nat) == if rest == 0 {
                out@
            } else {
                digits_of(rest as nat) + out@
            },
        decreases rest,
    {
        let mut longer: String = digit_text((rest % 10) as u8).to_owned();
        proof {
            let d = digit_char((rest % 10) as int);
            if rest >= 10 {
                assert(digits_of((rest / 10) as nat).push(d) + out@ =~= digits_of(
                    (rest / 10) as nat,
                ) + (seq![d] + out@));
            } else {
                assert(digits_of(rest as nat) + out@ =~= seq![d] + out@);
            }
        }
        longer.append(out.as_str());
        out = longer;
        rest = rest / 10;
    }
    if v < 0 {
        let mut signed: String = "-".to_owned();
        proof {
            reveal_strlit("-");
            assert("-"@ =~= seq!['-']);
        }
        signed.append(out.as_str());
        signed
    } else {
        out
    }
}

} // verus!

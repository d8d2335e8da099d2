//! Decimal numerals: rendering an unsigned number as its digit string
//! and parsing a signed 32-bit number, together with the squaring
//! helper built on the parser.

use vstd::prelude::*;

use crate::errors::MyError;

verus! {

/// The digit character for a value in `0..=9`.
pub open spec fn digit_char(d: int) -> char {
    if d == 0 {
        '0'
    } else if d == 1 {
        '1'
    } else if d == 2 {
        '2'
    } else if d == 3 {
        '3'
    } else if d == 4 {
        '4'
    } else if d == 5 {
        '5'
    } else if d == 6 {
        '6'
    } else if d == 7 {
        '7'
    } else if d == 8 {
        '8'
    } else {
        '9'
    }
}

/// Whether `c` is a decimal digit.
pub open spec fn is_digit(c: char) -> bool {
    48 <= c as u32 <= 57
}

/// The value of a digit character.
pub open spec fn digit_val(c: char) -> int {
    c as u32 - 48
}

/// The decimal rendering of `n`, most significant digit first, with no
/// leading zero except for `n == 0` itself.
pub open spec fn dec_digits(n: nat) -> Seq<char>
    decreases n,
{
    if n < 10 {
        seq![digit_char(n as int)]
    } else {
        dec_digits(n / 10).push(digit_char((n % 10) as int))
    }
}

/// The one-character string for a digit value.
fn digit_str(d: u64) -> (s: &'static str)
    requires
        d < 10,
    ensures
        s@ == seq![digit_char(d as int)],
{
    proof {
        reveal_strlit("0");
        reveal_strlit("1");
        reveal_strlit("2");
        reveal_strlit("3");
        reveal_strlit("4");
        reveal_strlit("5");
        reveal_strlit("6");
        reveal_strlit("7");
        reveal_strlit("8");
        reveal_strlit("9");
    }
    if d == 0 {
        proof {
            assert("0"@ =~= seq![digit_char(0)]);
        }
        "0"
    } else if d == 1 {
        proof {
            assert("1"@ =~= seq![digit_char(1)]);
        }
        "1"
    } else if d == 2 {
        proof {
            assert("2"@ =~= seq![digit_char(2)]);
        }
        "2"
    } else if d == 3 {
        proof {
            assert("3"@ =~= seq![digit_char(3)]);
        }
        "3"
    } else if d == 4 {
        proof {
            assert("4"@ =~= seq![digit_char(4)]);
        }
        "4"
    } else if d == 5 {
        proof {
            assert("5"@ =~= seq![digit_char(5)]);
        }
        "5"
    } else if d == 6 {
        proof {
            assert("6"@ =~= seq![digit_char(6)]);
        }
        "6"
    } else if d == 7 {
        proof {
            assert("7"@ =~= seq![digit_char(7)]);
        }
        "7"
    } else if d == 8 {
        proof {
            assert("8"@ =~= seq![digit_char(8)]);
        }
        "8"
    } else {
        proof {
            assert("9"@ =~= seq![digit_char(9)]);
        }
        "9"
    }
}

/// Renders `n` in decimal.
pub fn u64_to_string(n: u64) -> (s: String)
    ensures
        s@ == dec_digits(n as nat),
    decreases n,
{
    if n < 10 {
        digit_str(n).to_owned()
    } else {
        let mut s = u64_to_string(n / 10);
        let d = digit_str(n % 10);
        s.append(d);
        proof {
            assert(s@ =~= dec_digits((n / 10) as nat).push(digit_char((n % 10) as int)));
        }
        s
    }
}

/// Whether every character of `s` is a digit, and there is at least
/// one.
pub open spec fn is_digits(s: Seq<char>) -> bool {
    s.len() > 0 && forall|i: int| 0 <= i < s.len() ==> is_digit(#[trigger] s[i])
}

/// The value of a digit string.
pub open spec fn digits_val(s: Seq<char>) -> int
    decreases s.len(),
{
    if s.len() == 0 {
        0
    } else {
        digits_val(s.drop_last()) * 10 + digit_val(s.last())
    }
}

/// Whether `s` is a decimal numeral that a 32-bit signed number can
/// hold: an optional sign followed by digits, within range.
pub open spec fn is_i32_numeral(s: Seq<char>) -> bool {
    if s.len() > 0 && (s[0] == '-' || s[0] == '+') {
        let digits = s.skip(1);
        &&& is_digits(digits)
        &&& if s[0] == '-' {
            digits_val(digits) <= 0x8000_0000
        } else {
            digits_val(digits) <= i32::MAX
        }
    } else {
        is_digits(s) && digits_val(s) <= i32::MAX
    }
}

/// The value of a 32-bit numeral.
pub open spec fn i32_numeral_val(s: Seq<char>) -> int {
    if s.len() > 0 && s[0] == '-' {
        -digits_val(s.skip(1))
    } else if s.len() > 0 && s[0] == '+' {
        digits_val(s.skip(1))
    } else {
        digits_val(s)
    }
}

/// The value of a digit string is never negative.
proof fn lemma_digits_val_nonneg(s: Seq<char>)
    requires
        forall|i: int| 0 <= i < s.len() ==> is_digit(#[trigger] s[i]),
    ensures
        digits_val(s) >= 0,
    decreases s.len(),
{
    if s.len() > 0 {
        lemma_digits_val_nonneg(s.drop_last());
    }
}

/// Extending a digit string never shrinks its value.
proof fn lemma_digits_val_prefix(s: Seq<char>, k: int)
    requires
        0 <= k <= s.len(),
        forall|i: int| 0 <= i < s.len() ==> is_digit(#[trigger] s[i]),
    ensures
        digits_val(s) >= digits_val(s.take(k)),
    decreases s.len() - k,
{
    if k == s.len() {
        assert(s.take(k) =~= s);
    } else {
        assert(s.take(k + 1).drop_last() =~= s.take(k));
        assert(forall|i: int| 0 <= i < s.take(k) .len() ==> is_digit(#[trigger] s.take(k)[i]));
        lemma_digits_val_nonneg(s.take(k));
        lemma_digits_val_prefix(s, k + 1);
    }
}

/// Parses a decimal numeral with optional sign, exactly the numerals
/// a 32-bit signed number can hold. Anything else is rejected.
pub fn parse_i32(val: &str) -> (result: Result<i32, ()>)
    ensures
        match result {
            Ok(v) => is_i32_numeral(val@) && v == i32_numeral_val(val@),
            Err(_) => !is_i32_numeral(val@),
        },
{
    let n = val.unicode_len();
    if n == 0 {
        return Err(());
    }
    let first = val.get_char(0);
    let negative = first == '-';
    let has_sign = negative || first == '+';
    let start: usize = if has_sign {
        1
    } else {
        0
    };
    if start >= n {
        // a bare sign has no digits
        return Err(());
    }
    let ghost digits = if has_sign {
        val@.skip(1)
    } else {
        val@
    };
    let mut acc: i64 = 0;
    let mut i: usize = start;
    proof {
        assert(digits.take(0) =~= Seq::<char>::empty());
    }
    while i < n
        invariant
            n == val@.len(),
            1 <= n,
            start <= i <= n,
            has_sign == (val@[0] == '-' || val@[0] == '+'),
            negative == (val@[0] == '-'),
            start == if has_sign {
                1int
            } else {
                0int
            },
            digits == (if has_sign {
                val@.skip(1)
            } else {
                val@
            }),
            digits.len() == n - start,
            0 <= acc <= 0x8000_0000,
            acc == digits_val(digits.take(i - start)),
            forall|j: int| 0 <= j < i - start ==> is_digit(#[trigger] digits[j]),
        decreases n - i,
    {
        let c = val.get_char(i);
        let cv = c as u32;
        if cv < 48 || cv > 57 {
            proof {
                assert(digits[i - start] == c);
                assert(!is_digits(digits));
            }
            return Err(());
        }
        proof {
            assert(digits[i - start] == c);
        }
        proof {
            assert(digits.take(i - start + 1).drop_last() =~= digits.take(i - start));
            assert(digits.take(i - start + 1).last() == c);
        }
        acc = acc * 10 + ((cv - 48) as i64);
        i = i + 1;
        if acc > 0x8000_0000 {
            proof {
                let k = i - start;
                if is_digits(digits) {
                    lemma_digits_val_prefix(digits, k as int);
                    assert(digits_val(digits) > 0x8000_0000);
                }
            }
            return Err(());
        }
    }
    proof {
        assert(digits.take((n - start) as int) =~= digits);
    }
    if negative {
        Ok((-acc) as i32)
    } else if acc <= 0x7fff_ffff {
        Ok(acc as i32)
    } else {
        // an unsigned numeral equal to 2^31 overflows
        Err(())
    }
}

/// Parses `val` and squares it, rejecting what is not a numeral; the
/// caller keeps the value small enough for the square to fit.
pub fn square(val: &str) -> (result: Result<i32, MyError>)
    requires
        is_i32_numeral(val@) ==> -46340 <= i32_numeral_val(val@) <= 46340,
    ensures
        match result {
            Ok(sq) => is_i32_numeral(val@) && sq == i32_numeral_val(val@) * i32_numeral_val(
                val@,
            ),
            Err(e) => !is_i32_numeral(val@) && e is ParseError,
        },
{
    match parse_i32(val) {
        Ok(num) => {
            proof {
                assert(0 <= num * num <= 46340 * 46340) by (nonlinear_arith)
                    requires
                        -46340 <= num <= 46340,
                ;
            }
            Ok(num * num)
        },
        Err(_) => Err(MyError::ParseError),
    }
}

} // verus!

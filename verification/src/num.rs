//! Decimal text: reading an operand value from a token and writing one back
//! out.  Integer tokens carry their value as their name, so both engines
//! lean on these conversions.

use vstd::prelude::*;
use vstd::string::*;

verus! {

/// `c` is an ASCII decimal digit.
pub open spec fn is_digit(c: char) -> bool {
    '0' as u32 <= c as u32 <= '9' as u32
}

/// Numeric value of a digit character.
pub open spec fn digit_val(c: char) -> int {
    c as u32 - '0' as u32
}

/// Every character of `v` is a decimal digit.
pub open spec fn all_digits(v: Seq<char>) -> bool {
    forall|i: int| 0 <= i < v.len() ==> is_digit(#[trigger] v[i])
}

/// Value of a digit string read most-significant first.
pub open spec fn digits_val(v: Seq<char>) -> int
    decreases v.len(),
{
    if v.len() == 0 {
        0
    } else {
        digits_val(v.drop_last()) * 10 + digit_val(v.last())
    }
}

/// The value named by a token, exactly where the token is an optional sign
/// followed by at least one digit and the value fits a 64-bit signed word.
pub open spec fn parse_int_spec(v: Seq<char>) -> Option<i64> {
    let has_sign = v.len() > 0 && (v[0] == '-' || v[0] == '+');
    let digs = if has_sign {
        v.subrange(1, v.len() as int)
    } else {
        v
    };
    if digs.len() == 0 || !all_digits(digs) {
        None
    } else {
        let m = digits_val(digs);
        if v.len() > 0 && v[0] == '-' {
            if m <= 0x8000000000000000 {
                Some((-m) as i64)
            } else {
                None
            }
        } else {
            if m <= i64::MAX {
                Some(m as i64)
            } else {
                None
            }
        }
    }
}

proof fn lemma_digits_val_bounds(v: Seq<char>)
    requires
        all_digits(v),
    ensures
        digits_val(v) >= 0,
        forall|k: int| 0 <= k <= v.len() ==> digits_val(v) >= digits_val(#[trigger] v.take(k)),
    decreases v.len(),
{
    if v.len() == 0 {
        assert forall|k: int| 0 <= k <= v.len() implies digits_val(v) >= digits_val(
            #[trigger] v.take(k),
        ) by {
            assert(v.take(k) =~= v);
        }
    } else {
        let w = v.drop_last();
        assert(all_digits(w));
        lemma_digits_val_bounds(w);
        assert(digit_val(v.last()) >= 0);
        assert forall|k: int| 0 <= k <= v.len() implies digits_val(v) >= digits_val(
            #[trigger] v.take(k),
        ) by {
            if k == v.len() {
                assert(v.take(k) =~= v);
            } else {
                assert(v.take(k) =~= w.take(k));
            }
        }
    }
}

/// Reads a signed decimal integer from a token: an optional `+` or `-`
/// followed by at least one digit.  Returns `None` on any other shape and on
/// values outside the 64-bit signed range.
pub fn parse_int(s: &String) -> (r: Option<i64>)
    ensures
        r == parse_int_spec(s@),
{
    let len = s.as_str().unicode_len();
    if len == 0 {
        return None;
    }
    let c0 = s.as_str().get_char(0);
    let neg = c0 == '-';
    let start: usize = if c0 == '-' || c0 == '+' {
        1
    } else {
        0
    };
    let ghost digs = if start == 1 {
        s@.subrange(1, s@.len() as int)
    } else {
        s@
    };
    if start == len {
        proof {
            assert(digs.len() == 0);
        }
        return None;
    }
    let mut acc: i64 = 0;
    let mut i: usize = start;
    while i < len
        invariant
            start <= i <= len,
            len == s@.len(),
            start == 0 || start == 1,
            start == 1 ==> s@.len() > 0 && (s@[0] == '-' || s@[0] == '+'),
            start == 0 ==> s@.len() > 0 && !(s@[0] == '-' || s@[0] == '+'),
            digs == if start == 1 {
                s@.subrange(1, s@.len() as int)
            } else {
                s@
            },
            all_digits(s@.subrange(start as int, i as int)),
            acc == -digits_val(s@.subrange(start as int, i as int)),
        decreases len - i,
    {
        let c = s.as_str().get_char(i);
        let u = c as u32;
        proof {
            assert(s@.subrange(start as int, i as int) =~= digs.take(i - start));
        }
        if u < 48 || u > 57 {
            proof {
                assert(digs[i - start] == s@[i as int]);
                assert(!is_digit(digs[i - start]));
            }
            return None;
        }
        let d = (u - 48) as i64;
        proof {
            assert(digit_val(s@[i as int]) == d);
        }
        let ghost next = s@.subrange(start as int, i as int + 1);
        proof {
            assert(next.drop_last() =~= s@.subrange(start as int, i as int));
            assert(next.last() == s@[i as int]);
            assert(next =~= digs.take(i + 1 - start));
            lemma_digits_val_bounds(s@.subrange(start as int, i as int));
            lemma_digits_val_bounds(next);
            assert(digs.take(digs.len() as int) =~= digs);
        }
        let step = match acc.checked_mul(10) {
            Some(a) => a,
            None => {
                proof {
                    if all_digits(digs) {
                        lemma_digits_val_bounds(digs);
                        assert(digs.take(i + 1 - start).take(i - start) =~= digs.take(i - start));
                        lemma_digits_val_bounds(digs.take(i + 1 - start));
                        assert(digits_val(digs) >= digits_val(next));
                    }
                }
                return None;
            },
        };
        acc = match step.checked_sub(d) {
            Some(b) => b,
            None => {
                proof {
                    if all_digits(digs) {
                        lemma_digits_val_bounds(digs);
                        assert(digits_val(digs) >= digits_val(next));
                    }
                }
                return None;
            },
        };
        proof {
            assert(forall|j: int|
                start <= j < i + 1 ==> is_digit(#[trigger] s@.subrange(start as int, i as int + 1)[j
                    - start]));
        }
        i = i + 1;
    }
    proof {
        assert(s@.subrange(start as int, i as int) =~= digs);
    }
    if neg {
        Some(acc)
    } else {
        if acc == i64::MIN {
            None
        } else {
            Some(-acc)
        }
    }
}

/// The digit character for `d`, read modulo the decimal digits.
pub open spec fn digit_char(d: int) -> char {
    if d == 0 {
        '0'
    } else if d == 1 {
        '1'
    } else if d == 2 {
        '2'
    } else if d == 3 {
        '3'
    } else if d == 4 {
        '4'
    } else if d == 5 {
        '5'
    } else if d == 6 {
        '6'
    } else if d == 7 {
        '7'
    } else if d == 8 {
        '8'
    } else {
        '9'
    }
}

/// Decimal digits of a non-negative value, most significant first.
pub open spec fn dec_digits(n: int) -> Seq<char>
    decreases n,
{
    if n <= 9 {
        seq![digit_char(n)]
    } else {
        dec_digits(n / 10) + seq![digit_char(n % 10)]
    }
}

/// Decimal text of a signed value: a minus sign for negatives, then digits.
pub open spec fn dec_str(n: int) -> Seq<char> {
    if n < 0 {
        seq!['-'] + dec_digits(-n)
    } else {
        dec_digits(n)
    }
}

fn digit_str(d: u64) -> (r: &'static str)
    requires
        d <= 9,
    ensures
        r@ == seq![digit_char(d as int)],
{
    proof {
        reveal_strlit("0");
        reveal_strlit("1");
        reveal_strlit("2");
        reveal_strlit("3");
        reveal_strlit("4");
        reveal_strlit("5");
        reveal_strlit("6");
        reveal_strlit("7");
        reveal_strlit("8");
        reveal_strlit("9");
    }
    let r = match d {
        0 => "0",
        1 => "1",
        2 => "2",
        3 => "3",
        4 => "4",
        5 => "5",
        6 => "6",
        7 => "7",
        8 => "8",
        _ => "9",
    };
    proof {
        assert(r@ =~= seq![digit_char(d as int)]);
    }
    r
}

/// Appends the decimal digits of `m` to `out`.
pub fn push_dec_digits(out: &mut String, m: u64)
    ensures
        final(out)@ == old(out)@ + dec_digits(m as int),
    decreases m,
{
    if m <= 9 {
        out.append(digit_str(m));
    } else {
        push_dec_digits(out, m / 10);
        out.append(digit_str(m % 10));
        proof {
            assert(out@ =~= old(out)@ + dec_digits(m as int));
        }
    }
}

/// Decimal text of a 64-bit signed value, exactly as the interpreter and the
/// emitter print it.
pub fn int_to_string(n: i64) -> (r: String)
    ensures
        r@ == dec_str(n as int),
{
    let mut out = String::new();
    if n < 0 {
        proof {
            reveal_strlit("-");
        }
        out.append("-");
        let m: u64 = if n == i64::MIN {
            9223372036854775808u64
        } else {
            (-n) as u64
        };
        push_dec_digits(&mut out, m);
        proof {
            assert("-"@ =~= seq!['-']);
            assert(out@ =~= dec_str(n as int));
        }
    } else {
        push_dec_digits(&mut out, n as u64);
    }
    out
}

} // verus!

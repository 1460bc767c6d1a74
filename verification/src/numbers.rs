//! Decimal identifiers. Provider track and album ids are decimal numbers
//! carried in URLs and in the data model as text, so the library parses and
//! prints them with an exact grammar: a non-empty run of digits whose value
//! fits in a `u64`.

use vstd::prelude::*;
use vstd::arithmetic::div_mod::lemma_fundamental_div_mod;

use crate::text::string_from_chars;

verus! {

/// A decimal digit character.
pub open spec fn is_digit(c: char) -> bool {
    48 <= (c as u32) && (c as u32) <= 57
}

/// The numeric value of one digit character.
pub open spec fn digit_val(c: char) -> int {
    (c as u32) - 48
}

/// Whether every character of `s` is a decimal digit.
pub open spec fn all_digits(s: Seq<char>) -> bool {
    forall|i: int| 0 <= i < s.len() ==> is_digit(#[trigger] s[i])
}

/// The numeric value of a digit string, most significant digit first.
pub open spec fn digits_val(s: Seq<char>) -> int
    decreases s.len(),
{
    if s.len() == 0 {
        0
    } else {
        digits_val(s.drop_last()) * 10 + digit_val(s.last())
    }
}

/// The value of a digit string is never negative.
pub proof fn lemma_digits_val_nonneg(s: Seq<char>)
    requires
        all_digits(s),
    ensures
        digits_val(s) >= 0,
    decreases s.len(),
{
    if s.len() > 0 {
        assert forall|i: int| 0 <= i < s.drop_last().len() implies is_digit(
            #[trigger] s.drop_last()[i],
        ) by {
            assert(s.drop_last()[i] == s[i]);
        }
        lemma_digits_val_nonneg(s.drop_last());
    }
}

/// Reading more digits never lowers the value: the value of a prefix is at
/// most the value of the whole digit string.
pub proof fn lemma_digits_val_prefix_mono(s: Seq<char>, j: int)
    requires
        all_digits(s),
        0 <= j <= s.len(),
    ensures
        digits_val(s.subrange(0, j)) <= digits_val(s),
    decreases s.len() - j,
{
    if j < s.len() {
        lemma_digits_val_prefix_mono(s, j + 1);
        let p = s.subrange(0, j);
        let q = s.subrange(0, j + 1);
        assert forall|i: int| 0 <= i < p.len() implies is_digit(#[trigger] p[i]) by {
            assert(p[i] == s[i]);
        }
        lemma_digits_val_nonneg(p);
        assert(q.drop_last() =~= p);
        assert(q.last() == s[j]);
        assert(digits_val(q) == digits_val(p) * 10 + digit_val(s[j]));
    } else {
        assert(s.subrange(0, j) =~= s);
    }
}

/// Parses a non-empty run of decimal digits as a `u64`. Returns `None` when
/// the characters are empty, hold a non-digit, or name a value above
/// `u64::MAX`.
pub fn parse_u64_chars(v: &Vec<char>) -> (r: Option<u64>)
    ensures
        match r {
            Some(n) => v@.len() > 0 && all_digits(v@) && digits_val(v@) <= u64::MAX && n
                == digits_val(v@),
            None => v@.len() == 0 || !all_digits(v@) || digits_val(v@) > u64::MAX,
        },
{
    if v.len() == 0 {
        return None;
    }
    let mut acc: u64 = 0;
    let mut i: usize = 0;
    while i < v.len()
        invariant
            i <= v@.len(),
            v@.len() > 0,
            all_digits(v@.subrange(0, i as int)),
            acc as int == digits_val(v@.subrange(0, i as int)),
        decreases v@.len() - i,
    {
        proof {
            assert(v@.subrange(0, i + 1 as int).drop_last() =~= v@.subrange(0, i as int));
            assert(v@.subrange(0, i + 1 as int).last() == v@[i as int]);
        }
        let c = v[i];
        let u = c as u32;
        if !(48 <= u && u <= 57) {
            return None;
        }
        let d = (u - 48) as u64;
        let overflowed: bool = match acc.checked_mul(10) {
            Some(acc10) => {
                match acc10.checked_add(d) {
                    Some(next) => {
                        acc = next;
                        false
                    },
                    None => true,
                }
            },
            None => true,
        };
        if overflowed {
            proof {
                assert(digits_val(v@.subrange(0, i + 1 as int)) > u64::MAX);
                if all_digits(v@) {
                    lemma_digits_val_prefix_mono(v@, i + 1);
                }
            }
            return None;
        }
        i = i + 1;
    }
    proof {
        assert(v@.subrange(0, v@.len() as int) =~= v@);
    }
    Some(acc)
}

/// The character that prints one digit value.
pub open spec fn digit_char(d: int) -> char {
    if d == 0 {
        '0'
    } else if d == 1 {
        '1'
    } else if d == 2 {
        '2'
    } else if d == 3 {
        '3'
    } else if d == 4 {
        '4'
    } else if d == 5 {
        '5'
    } else if d == 6 {
        '6'
    } else if d == 7 {
        '7'
    } else if d == 8 {
        '8'
    } else {
        '9'
    }
}

/// The decimal digits of a non-negative number, most significant first,
/// without leading zeros (`0` prints as one digit).
pub open spec fn dec_digits(n: int) -> Seq<char>
    decreases n,
{
    if n <= 9 {
        seq![digit_char(n)]
    } else {
        dec_digits(n / 10).push(digit_char(n % 10))
    }
}

/// Reverses a character vector.
fn reverse_chars(v: &Vec<char>) -> (r: Vec<char>)
    ensures
        r@ == v@.reverse(),
{
    let mut r: Vec<char> = Vec::new();
    let mut i: usize = v.len();
    while i > 0
        invariant
            i <= v@.len(),
            r@.len() == v@.len() - i,
            forall|j: int| 0 <= j < r@.len() ==> r@[j] == v@[v@.len() - 1 - j],
        decreases i,
    {
        r.push(v[i - 1]);
        i = i - 1;
    }
    proof {
        assert(r@ =~= v@.reverse());
    }
    r
}

/// Prints a number as decimal text.
pub fn u64_to_string(n: u64) -> (s: String)
    ensures
        s@ == dec_digits(n as int),
{
    let mut rev: Vec<char> = Vec::new();
    let mut m: u64 = n;
    proof {
        assert(dec_digits(n as int) =~= dec_digits(n as int) + rev@.reverse());
    }
    loop
        invariant
            m > 0 ==> dec_digits(n as int) == dec_digits(m as int) + rev@.reverse(),
            m == 0 && rev@.len() > 0 ==> dec_digits(n as int) == rev@.reverse(),
            m == 0 && rev@.len() == 0 ==> n == 0,
        ensures
            dec_digits(n as int) == rev@.reverse(),
        decreases m, (if rev@.len() == 0 {
            1int
        } else {
            0int
        }),
    {
        if m == 0 && rev.len() > 0 {
            break;
        }
        let ghost m0 = m as int;
        let ghost rev0 = rev@;
        let d = m % 10;
        let dc = digit_to_char(d);
        rev.push(dc);
        m = m / 10;
        proof {
            lemma_fundamental_div_mod(m0, 10);
            assert(rev@.reverse() =~= seq![digit_char(d as int)] + rev0.reverse());
            if m0 == 0 {
                assert(rev0.len() == 0 && n == 0);
                assert(rev@.reverse() =~= seq![digit_char(0)]);
                assert(dec_digits(n as int) == seq![digit_char(0)]);
            } else if m0 <= 9 {
                assert(m0 / 10 == 0 && m0 % 10 == m0);
                assert(dec_digits(m0) == seq![digit_char(m0)]);
                assert(dec_digits(n as int) =~= rev@.reverse()) by {
                    assert(dec_digits(n as int) == dec_digits(m0) + rev0.reverse());
                    assert(seq![digit_char(m0)] + rev0.reverse() =~= rev@.reverse());
                }
            } else {
                assert(dec_digits(m0) == dec_digits(m0 / 10).push(digit_char(m0 % 10)));
                assert(dec_digits(n as int) =~= dec_digits(m as int) + rev@.reverse()) by {
                    assert(dec_digits(n as int) == dec_digits(m0) + rev0.reverse());
                    assert(dec_digits(m0 / 10).push(digit_char(m0 % 10)) + rev0.reverse()
                        =~= dec_digits(m0 / 10) + (seq![digit_char(m0 % 10)] + rev0.reverse()));
                }
            }
        }
    }
    let digits = reverse_chars(&rev);
    string_from_chars(&digits)
}

/// The digit character for a digit value.
fn digit_to_char(d: u64) -> (c: char)
    requires
        d <= 9,
    ensures
        c == digit_char(d as int),
{
    if d == 0 {
        '0'
    } else if d == 1 {
        '1'
    } else if d == 2 {
        '2'
    } else if d == 3 {
        '3'
    } else if d == 4 {
        '4'
    } else if d == 5 {
        '5'
    } else if d == 6 {
        '6'
    } else if d == 7 {
        '7'
    } else if d == 8 {
        '8'
    } else {
        '9'
    }
}

} // verus!

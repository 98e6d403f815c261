//! Character-level helpers: building strings, rendering integers in decimal,
//! and parsing decimal integers the way `str::parse` does.

use vstd::prelude::*;
use vstd::string::StrSliceExecFns;

verus! {

/// Relies on std's `String::push`: appends one character at the end.
#[verifier::external_body]
pub(crate) fn push_char(s: &mut String, c: char)
    ensures
        final(s)@ == old(s)@.push(c),
{
    s.push(c);
}

/// The characters of a string slice, in order, as a vector.
pub(crate) fn str_chars(s: &str) -> (r: Vec<char>)
    ensures
        r@ == s@,
{
    let n = s.unicode_len();
    let mut r: Vec<char> = Vec::new();
    let mut i: usize = 0;
    while i < n
        invariant
            n == s@.len(),
            i <= n,
            r@ == s@.take(i as int),
        decreases n - i,
    {
        let c = s.get_char(i);
        r.push(c);
        proof {
            assert(s@.take(i + 1) =~= s@.take(i as int).push(s@[i as int]));
        }
        i = i + 1;
    }
    proof {
        assert(s@.take(n as int) =~= s@);
    }
    r
}

pub open spec fn is_dec_digit(c: char) -> bool {
    '0' <= c && c <= '9'
}

pub open spec fn digit_val(c: char) -> int {
    c as int - '0' as int
}

pub open spec fn digit_char(d: int) -> char {
    if d == 0 { '0' }
    else if d == 1 { '1' }
    else if d == 2 { '2' }
    else if d == 3 { '3' }
    else if d == 4 { '4' }
    else if d == 5 { '5' }
    else if d == 6 { '6' }
    else if d == 7 { '7' }
    else if d == 8 { '8' }
    else { '9' }
}

/// The decimal digits of a non-negative integer, most significant first.
pub open spec fn dec_str(n: int) -> Seq<char>
    recommends
        n >= 0,
    decreases n,
{
    if n < 10 {
        seq![digit_char(n)]
    } else {
        dec_str(n / 10).push(digit_char(n % 10))
    }
}

/// The decimal rendering of a possibly negative integer.
pub open spec fn dec_str_signed(n: int) -> Seq<char> {
    if n < 0 {
        seq!['-'] + dec_str(-n)
    } else {
        dec_str(n)
    }
}

pub fn u64_to_string(n: u64) -> (r: String)
    ensures
        r@ == dec_str(n as int),
    decreases n,
{
    if n < 10 {
        let mut r = String::new();
        push_char(&mut r, digit_of(n));
        proof {
            assert(r@ =~= seq![digit_char(n as int)]);
        }
        r
    } else {
        let mut r = u64_to_string(n / 10);
        push_char(&mut r, digit_of(n % 10));
        r
    }
}

pub fn i64_to_string(n: i64) -> (r: String)
    ensures
        r@ == dec_str_signed(n as int),
{
    if n >= 0 {
        u64_to_string(n as u64)
    } else {
        let mag: u64 = if n == i64::MIN {
            9223372036854775808u64
        } else {
            (-n) as u64
        };
        let digits = u64_to_string(mag);
        let mut r = String::new();
        push_char(&mut r, '-');
        let mut i: usize = 0;
        let dv = str_chars(digits.as_str());
        while i < dv.len()
            invariant
                dv@ == dec_str(mag as int),
                i <= dv@.len(),
                r@ == seq!['-'] + dv@.take(i as int),
            decreases dv@.len() - i,
        {
            push_char(&mut r, dv[i]);
            proof {
                assert(seq!['-'] + dv@.take(i + 1) =~= (seq!['-'] + dv@.take(i as int)).push(
                    dv@[i as int],
                ));
            }
            i = i + 1;
        }
        proof {
            assert(dv@.take(dv@.len() as int) =~= dv@);
        }
        r
    }
}

/// The digit character for a value below ten.
fn digit_of(d: u64) -> (c: char)
    requires
        d < 10,
    ensures
        c == digit_char(d as int),
{
    match d {
        0 => '0',
        1 => '1',
        2 => '2',
        3 => '3',
        4 => '4',
        5 => '5',
        6 => '6',
        7 => '7',
        8 => '8',
        _ => '9',
    }
}

/// The value of a digit string, most significant digit first.
pub open spec fn digits_val(s: Seq<char>) -> int
    decreases s.len(),
{
    if s.len() == 0 {
        0
    } else {
        digits_val(s.drop_last()) * 10 + digit_val(s.last())
    }
}

pub open spec fn all_dec_digits(s: Seq<char>) -> bool {
    forall|i: int| 0 <= i < s.len() ==> is_dec_digit(#[trigger] s[i])
}

/// What `str::parse::<u64>` accepts: an optional leading plus sign, then at
/// least one decimal digit, with the value fitting in the type.
pub open spec fn spec_parse_u64(s: Seq<char>) -> Option<u64> {
    let body = if s.len() > 0 && s[0] == '+' {
        s.drop_first()
    } else {
        s
    };
    if body.len() == 0 || !all_dec_digits(body) {
        None
    } else if digits_val(body) > u64::MAX {
        None
    } else {
        Some(digits_val(body) as u64)
    }
}

/// What `str::parse::<i64>` accepts: an optional sign, then at least one
/// decimal digit, with the value fitting in the type.
pub open spec fn spec_parse_i64(s: Seq<char>) -> Option<i64> {
    let body = if s.len() > 0 && (s[0] == '+' || s[0] == '-') {
        s.drop_first()
    } else {
        s
    };
    let negative = s.len() > 0 && s[0] == '-';
    if body.len() == 0 || !all_dec_digits(body) {
        None
    } else if negative && -digits_val(body) < i64::MIN {
        None
    } else if !negative && digits_val(body) > i64::MAX {
        None
    } else if negative {
        Some((-digits_val(body)) as i64)
    } else {
        Some(digits_val(body) as i64)
    }
}

proof fn lemma_digits_val_nonneg(s: Seq<char>)
    requires
        all_dec_digits(s),
    ensures
        digits_val(s) >= 0,
    decreases s.len(),
{
    if s.len() > 0 {
        assert(all_dec_digits(s.drop_last())) by {
            assert(forall|i: int|
                0 <= i < s.len() - 1 ==> s.drop_last()[i] == #[trigger] s[i]);
        }
        lemma_digits_val_nonneg(s.drop_last());
    }
}

proof fn lemma_digits_val_step(s: Seq<char>, i: int)
    requires
        0 <= i < s.len(),
    ensures
        digits_val(s.take(i + 1)) == digits_val(s.take(i)) * 10 + digit_val(s[i]),
{
    assert(s.take(i + 1).drop_last() =~= s.take(i));
    assert(s.take(i + 1).last() == s[i]);
}

proof fn lemma_digits_val_grows(s: Seq<char>, i: int)
    requires
        all_dec_digits(s),
        0 <= i <= s.len(),
    ensures
        digits_val(s) >= digits_val(s.take(i)),
    decreases s.len() - i,
{
    assert(all_dec_digits(s.take(i))) by {
        assert(forall|j: int| 0 <= j < i ==> s.take(i)[j] == #[trigger] s[j]);
    }
    if i == s.len() {
        assert(s.take(i) =~= s);
    } else {
        lemma_digits_val_step(s, i);
        lemma_digits_val_nonneg(s.take(i));
        assert(digits_val(s.take(i + 1)) >= digits_val(s.take(i))) by (nonlinear_arith)
            requires
                digits_val(s.take(i + 1)) == digits_val(s.take(i)) * 10 + digit_val(s[i]),
                digits_val(s.take(i)) >= 0,
                digit_val(s[i]) >= 0,
        {}
        lemma_digits_val_grows(s, i + 1);
    }
}

/// Parses an unsigned decimal integer exactly as `str::parse::<u64>` does.
pub fn parse_u64(s: &str) -> (r: Option<u64>)
    ensures
        r == spec_parse_u64(s@),
{
    let v = str_chars(s);
    let start: usize = if v.len() > 0 && v[0] == '+' {
        1
    } else {
        0
    };
    proof {
        if start == 1 {
            assert(v@.skip(1) =~= v@.drop_first());
        } else {
            assert(v@.skip(0) =~= v@);
        }
    }
    parse_digits_u64(&v, start)
}

/// Parses the digits of `v` from `start` on; `None` where a non-digit stands
/// or the value does not fit.
fn parse_digits_u64(v: &Vec<char>, start: usize) -> (r: Option<u64>)
    requires
        start <= v@.len(),
    ensures
        ({
            let body = v@.skip(start as int);
            if body.len() == 0 || !all_dec_digits(body) {
                r is None
            } else if digits_val(body) > u64::MAX {
                r is None
            } else {
                r == Some(digits_val(body) as u64)
            }
        }),
{
    let ghost body = v@.skip(start as int);
    if start == v.len() {
        return None;
    }
    let mut acc: u64 = 0;
    let mut i: usize = start;
    while i < v.len()
        invariant
            start <= i <= v@.len(),
            body == v@.skip(start as int),
            all_dec_digits(body.take(i - start)),
            acc == digits_val(body.take(i - start)),
        decreases v@.len() - i,
    {
        let c = v[i];
        if !(c >= '0' && c <= '9') {
            proof {
                assert(body[i - start] == v@[i as int]);
                assert(!all_dec_digits(body));
            }
            return None;
        }
        let d: u64 = (c as u32 - '0' as u32) as u64;
        proof {
            assert(body[i - start] == v@[i as int]);
            assert(d == digit_val(body[i - start]));
            lemma_digits_val_step(body, i - start);
        }
        let step = match acc.checked_mul(10) {
            Some(m10) => m10.checked_add(d),
            None => None,
        };
        proof {
            assert(acc * 10 + d == digits_val(body.take(i + 1 - start)));
            lemma_digits_val_nonneg(body.take(i - start));
        }
        match step {
            Some(next) => {
                acc = next;
                proof {
                    assert(all_dec_digits(body.take(i + 1 - start))) by {
                        assert(forall|j: int|
                            0 <= j < i + 1 - start ==> body.take(i + 1 - start)[j]
                                == #[trigger] body[j]);
                    }
                }
                i = i + 1;
            },
            None => {
                proof {
                    assert(digits_val(body.take(i + 1 - start)) > u64::MAX);
                    if all_dec_digits(body) {
                        lemma_digits_val_grows(body, i + 1 - start);
                    }
                }
                return None;
            },
        }
    }
    proof {
        assert(body.take(v@.len() - start) =~= body);
    }
    Some(acc)
}

/// Parses a signed decimal integer exactly as `str::parse::<i64>` does.
pub fn parse_i64(s: &str) -> (r: Option<i64>)
    ensures
        r == spec_parse_i64(s@),
{
    let v = str_chars(s);
    let negative = v.len() > 0 && v[0] == '-';
    let start: usize = if v.len() > 0 && (v[0] == '+' || v[0] == '-') {
        1
    } else {
        0
    };
    proof {
        if start == 1 {
            assert(v@.skip(1) =~= v@.drop_first());
        } else {
            assert(v@.skip(0) =~= v@);
        }
    }
    let mag = parse_digits_u64(&v, start);
    proof {
        let body = if v@.len() > 0 && (v@[0] == '+' || v@[0] == '-') {
            v@.drop_first()
        } else {
            v@
        };
        if body.len() > 0 && all_dec_digits(body) {
            lemma_digits_val_nonneg(body);
        }
    }
    match mag {
        None => None,
        Some(m) => {
            if negative {
                if m <= 9223372036854775808u64 {
                    if m == 9223372036854775808u64 {
                        Some(i64::MIN)
                    } else {
                        Some(-(m as i64))
                    }
                } else {
                    None
                }
            } else {
                if m <= i64::MAX as u64 {
                    Some(m as i64)
                } else {
                    None
                }
            }
        },
    }
}

} // verus!

//! Decimal text for the numeric values: canonical formatting of a number,
//! and parsing of a signed decimal numeral.

use vstd::prelude::*;
use vstd::string::StrSliceExecFns;
use crate::text::is_digit;

verus! {

/// The digit character for a value in 0..=9.
pub open spec fn digit_to_char(d: int) -> char {
    if d == 0 { '0' }
    else if d == 1 { '1' }
    else if d == 2 { '2' }
    else if d == 3 { '3' }
    else if d == 4 { '4' }
    else if d == 5 { '5' }
    else if d == 6 { '6' }
    else if d == 7 { '7' }
    else if d == 8 { '8' }
    else { '9' }
}

/// The numeric value of a digit character.
pub open spec fn char_to_digit(c: char) -> int {
    c as u32 - 48
}

/// The decimal digits of a non-negative number, most significant first.
pub open spec fn spec_nat_text(n: int) -> Seq<char>
    decreases n,
{
    if n < 10 {
        seq![digit_to_char(n)]
    } else {
        spec_nat_text(n / 10) + seq![digit_to_char(n % 10)]
    }
}

/// The canonical decimal text of a number: a minus sign for negatives,
/// then the digits with no leading zero.
pub open spec fn spec_num_text(v: int) -> Seq<char> {
    if v < 0 {
        seq!['-'] + spec_nat_text(-v)
    } else {
        spec_nat_text(v)
    }
}

/// The value of a digit sequence read most significant first.
pub open spec fn digits_value(s: Seq<char>) -> int
    decreases s.len(),
{
    if s.len() == 0 {
        0
    } else {
        digits_value(s.drop_last()) * 10 + char_to_digit(s.last())
    }
}

pub open spec fn all_digits(s: Seq<char>) -> bool {
    forall|i: int| 0 <= i < s.len() ==> is_digit(#[trigger] s[i])
}

/// What a text denotes as a number, if anything: an optional single sign,
/// then one or more decimal digits, with the value in the range of `i64`.
pub open spec fn spec_parse_num(s: Seq<char>) -> Option<int> {
    let body = if s.len() >= 1 && (s[0] == '-' || s[0] == '+') {
        s.drop_first()
    } else {
        s
    };
    let negative = s.len() >= 1 && s[0] == '-';
    if body.len() >= 1 && all_digits(body) {
        let v = if negative {
            -digits_value(body)
        } else {
            digits_value(body)
        };
        if i64::MIN <= v <= i64::MAX {
            Some(v)
        } else {
            None
        }
    } else {
        None
    }
}

pub proof fn lemma_digits_value_nonneg(s: Seq<char>)
    requires
        all_digits(s),
    ensures
        digits_value(s) >= 0,
    decreases s.len(),
{
    if s.len() > 0 {
        assert(all_digits(s.drop_last())) by {
            assert(forall|i: int| 0 <= i < s.len() - 1 ==> s.drop_last()[i] == s[i]);
        }
        lemma_digits_value_nonneg(s.drop_last());
    }
}

/// Appending a digit multiplies the value by ten and adds the digit.
pub proof fn lemma_digits_value_push(s: Seq<char>, c: char)
    ensures
        digits_value(s.push(c)) == digits_value(s) * 10 + char_to_digit(c),
{
    assert(s.push(c).drop_last() =~= s);
    assert(s.push(c).last() == c);
}

fn exec_digit_to_char(d: u64) -> (c: char)
    requires
        d < 10,
    ensures
        c == digit_to_char(d as int),
{
    if d == 0 { '0' }
    else if d == 1 { '1' }
    else if d == 2 { '2' }
    else if d == 3 { '3' }
    else if d == 4 { '4' }
    else if d == 5 { '5' }
    else if d == 6 { '6' }
    else if d == 7 { '7' }
    else if d == 8 { '8' }
    else { '9' }
}

fn nat_text_chars(n: u64) -> (r: Vec<char>)
    ensures
        r@ == spec_nat_text(n as int),
    decreases n,
{
    if n < 10 {
        let mut v: Vec<char> = Vec::new();
        v.push(exec_digit_to_char(n));
        assert(v@ =~= spec_nat_text(n as int));
        v
    } else {
        let mut v = nat_text_chars(n / 10);
        v.push(exec_digit_to_char(n % 10));
        assert(v@ =~= spec_nat_text(n as int));
        v
    }
}

/// The canonical decimal text of `v`.
pub fn num_to_text(v: i64) -> (r: Vec<char>)
    ensures
        r@ == spec_num_text(v as int),
{
    if v >= 0 {
        nat_text_chars(v as u64)
    } else {
        let magnitude: u64 = if v == i64::MIN {
            9223372036854775808u64
        } else {
            (-v) as u64
        };
        let mut r: Vec<char> = Vec::new();
        r.push('-');
        let mut digits = nat_text_chars(magnitude);
        r.append(&mut digits);
        assert(r@ =~= spec_num_text(v as int));
        r
    }
}

/// Parses a signed decimal numeral, exactly as `spec_parse_num` reads it.
pub fn parse_num(s: &str) -> (r: Option<i64>)
    ensures
        r matches Some(v) ==> spec_parse_num(s@) == Some(v as int),
        r is None ==> spec_parse_num(s@) is None,
{
    let n = s.unicode_len();
    let mut start: usize = 0;
    let ghost sv: Seq<char> = s@;
    let mut negative: bool = false;
    if n >= 1 {
        let c0 = s.get_char(0);
        if c0 == '-' {
            negative = true;
            start = 1;
        } else if c0 == '+' {
            start = 1;
        }
    }
    let ghost body: Seq<char> = if sv.len() >= 1 && (sv[0] == '-' || sv[0] == '+') {
        sv.drop_first()
    } else {
        sv
    };
    proof {
        assert(body =~= sv.skip(start as int));
    }
    if n == start {
        return None;
    }
    // The magnitude of the digits read so far; `None` once it has outgrown
    // u64, in which case it can never fit an i64 again.
    let mut magnitude: Option<u64> = Some(0);
    let mut i: usize = start;
    while i < n
        invariant
            start <= i <= n,
            n == sv.len(),
            sv == s@,
            start <= 1,
            body == sv.skip(start as int),
            body == (if sv.len() >= 1 && (sv[0] == '-' || sv[0] == '+') {
                sv.drop_first()
            } else {
                sv
            }),
            negative == (sv.len() >= 1 && sv[0] == '-'),
            all_digits(sv.subrange(start as int, i as int)),
            magnitude matches Some(m) ==> m == digits_value(sv.subrange(start as int, i as int)),
            magnitude is None ==> digits_value(sv.subrange(start as int, i as int)) > u64::MAX,
        decreases n - i,
    {
        let c = s.get_char(i);
        let u = c as u32;
        if !(48 <= u && u <= 57) {
            proof {
                let j: int = i - start;
                assert(body[j] == sv[i as int]);
                assert(!is_digit(body[j]));
                assert(!all_digits(body));
            }
            return None;
        }
        let d: u64 = (u - 48) as u64;
        let ghost prefix: Seq<char> = sv.subrange(start as int, i as int);
        proof {
            assert(sv.subrange(start as int, i + 1) =~= prefix.push(sv[i as int]));
            lemma_digits_value_push(prefix, sv[i as int]);
            lemma_digits_value_nonneg(prefix);
        }
        magnitude = match magnitude {
            Some(m) => {
                match m.checked_mul(10) {
                    Some(m10) => m10.checked_add(d),
                    None => None,
                }
            },
            None => None,
        };
        i = i + 1;
    }
    proof {
        assert(sv.subrange(start as int, n as int) =~= body);
    }
    match magnitude {
        None => None,
        Some(m) => {
            if negative {
                if m <= 9223372036854775807u64 {
                    Some(-(m as i64))
                } else if m == 9223372036854775808u64 {
                    Some(i64::MIN)
                } else {
                    None
                }
            } else {
                if m <= 9223372036854775807u64 {
                    Some(m as i64)
                } else {
                    None
                }
            }
        },
    }
}

} // verus!

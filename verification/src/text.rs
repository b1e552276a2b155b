//! Character classification and string helpers shared by the lexer, the
//! value coercions and the symbol tables.

use vstd::prelude::*;
use vstd::string::StrSliceExecFns;

verus! {

/// Names the result of `char::is_alphabetic` on characters outside ASCII.
pub uninterp spec fn unicode_letter(c: char) -> bool;

/// Names the result of `char::is_alphanumeric` on characters outside ASCII.
pub uninterp spec fn unicode_word_char(c: char) -> bool;

/// A character that opens a word token: a letter.
pub open spec fn is_letter(c: char) -> bool {
    (97 <= c as u32 && c as u32 <= 122)  // 'a' ..= 'z'
    || (65 <= c as u32 && c as u32 <= 90)  // 'A' ..= 'Z'
    || (c as u32 >= 128 && unicode_letter(c))
}

/// An ASCII decimal digit.
pub open spec fn is_digit(c: char) -> bool {
    48 <= c as u32 && c as u32 <= 57
}

/// A character that may continue a word token: a letter or a digit.
pub open spec fn is_word_char(c: char) -> bool {
    is_digit(c) || (97 <= c as u32 && c as u32 <= 122) || (65 <= c as u32 && c as u32 <= 90)
    || (c as u32 >= 128 && unicode_word_char(c))
}

/// Relies on `char::is_alphabetic`: within ASCII it holds exactly of
/// 'a'..='z' and 'A'..='Z'; outside ASCII its result is recorded by the
/// name `unicode_letter`.
#[verifier::external_body]
pub(crate) fn letter_char(c: char) -> (r: bool)
    ensures
        r == is_letter(c),
        c as u32 >= 128 ==> r == unicode_letter(c),
{
    c.is_alphabetic()
}

/// Relies on `char::is_alphanumeric`: within ASCII it holds exactly of the
/// letters and the decimal digits; outside ASCII its result is recorded by
/// the name `unicode_word_char`.
#[verifier::external_body]
pub(crate) fn word_char(c: char) -> (r: bool)
    ensures
        r == is_word_char(c),
        c as u32 >= 128 ==> r == unicode_word_char(c),
{
    c.is_alphanumeric()
}

pub fn digit_char(c: char) -> (r: bool)
    ensures
        r == is_digit(c),
{
    let u = c as u32;
    48 <= u && u <= 57
}

/// Relies on `String: FromIterator<char>`: collecting yields exactly the
/// characters of the vector, in order.
#[verifier::external_body]
pub(crate) fn string_from_chars(cs: &Vec<char>) -> (r: String)
    ensures
        r@ == cs@,
{
    cs.iter().collect()
}

/// Character-by-character string equality.
pub fn str_eq(a: &str, b: &str) -> (r: bool)
    ensures
        r == (a@ == b@),
{
    let na = a.unicode_len();
    let nb = b.unicode_len();
    if na != nb {
        return false;
    }
    for i in 0..na
        invariant
            na == a@.len(),
            na == b@.len(),
            forall|j: int| 0 <= j < i ==> a@[j] == b@[j],
    {
        if a.get_char(i) != b.get_char(i) {
            return false;
        }
    }
    proof {
        assert(a@ =~= b@);
    }
    true
}

/// The line with its trailing line terminators removed.
pub open spec fn trim_newlines(s: Seq<char>) -> Seq<char>
    decreases s.len(),
{
    if s.len() > 0 && (s.last() == '\n' || s.last() == '\r') {
        trim_newlines(s.drop_last())
    } else {
        s
    }
}

proof fn lemma_trim_prefix(s: Seq<char>, end: int)
    requires
        0 <= end <= s.len(),
        forall|j: int| end <= j < s.len() ==> (s[j] == '\n' || s[j] == '\r'),
        end > 0 ==> !(s[end - 1] == '\n' || s[end - 1] == '\r'),
    ensures
        trim_newlines(s) == s.subrange(0, end),
    decreases s.len(),
{
    if s.len() > end {
        lemma_trim_prefix(s.drop_last(), end);
        assert(s.drop_last().subrange(0, end) =~= s.subrange(0, end));
    } else {
        assert(s.subrange(0, end) =~= s);
    }
}

/// Removes the trailing line terminators of a line.
pub fn trim_line_end(s: &str) -> (r: &str)
    ensures
        r@ == trim_newlines(s@),
{
    let n = s.unicode_len();
    let mut end: usize = n;
    let mut done: bool = false;
    while !done && end > 0
        invariant
            end <= n,
            n == s@.len(),
            forall|j: int| end <= j < n ==> (s@[j] == '\n' || s@[j] == '\r'),
            done ==> (end > 0 && !(s@[end - 1] == '\n' || s@[end - 1] == '\r')),
        decreases end, (if done { 0int } else { 1int }),
    {
        let c = s.get_char(end - 1);
        if c == '\n' || c == '\r' {
            end = end - 1;
        } else {
            done = true;
        }
    }
    proof {
        lemma_trim_prefix(s@, end as int);
    }
    s.substring_char(0, end)
}

/// Strict lexicographic order on character sequences, by code point; this
/// is the order `str` comparison gives, since UTF-8 preserves it.
pub open spec fn chars_lt(a: Seq<char>, b: Seq<char>) -> bool
    decreases a.len(),
{
    if b.len() == 0 {
        false
    } else if a.len() == 0 {
        true
    } else if (a[0] as u32) < (b[0] as u32) {
        true
    } else if a[0] != b[0] {
        false
    } else {
        chars_lt(a.drop_first(), b.drop_first())
    }
}

proof fn lemma_chars_lt_step(a: Seq<char>, b: Seq<char>, i: int)
    requires
        0 <= i,
        i < a.len(),
        i < b.len(),
        a[i] == b[i],
    ensures
        chars_lt(a.skip(i), b.skip(i)) == chars_lt(a.skip(i + 1), b.skip(i + 1)),
{
    assert(a.skip(i).drop_first() =~= a.skip(i + 1));
    assert(b.skip(i).drop_first() =~= b.skip(i + 1));
    assert(a.skip(i)[0] == a[i]);
    assert(b.skip(i)[0] == b[i]);
}

/// Character-by-character lexicographic comparison.
pub fn str_lt(a: &str, b: &str) -> (r: bool)
    ensures
        r == chars_lt(a@, b@),
{
    let na = a.unicode_len();
    let nb = b.unicode_len();
    let mut i: usize = 0;
    proof {
        assert(a@.skip(0) =~= a@);
        assert(b@.skip(0) =~= b@);
    }
    loop
        invariant
            na == a@.len(),
            nb == b@.len(),
            i <= na,
            i <= nb,
            chars_lt(a@, b@) == chars_lt(a@.skip(i as int), b@.skip(i as int)),
        decreases na - i,
    {
        if i == nb {
            return false;
        }
        if i == na {
            return true;
        }
        let ca = a.get_char(i);
        let cb = b.get_char(i);
        if (ca as u32) < (cb as u32) {
            return true;
        }
        if ca != cb {
            return false;
        }
        proof {
            lemma_chars_lt_step(a@, b@, i as int);
        }
        i = i + 1;
    }
}

} // verus!

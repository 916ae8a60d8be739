//! Regular-expression matching and reading of the digit groups it captures.

use vstd::prelude::*;

verus! {

#[verifier::external_type_specification]
#[verifier::external_body]
pub struct ExRegexError(regex::Error);

/// Capture groups of the leftmost-first match of `pattern` in `text`: group 0
/// is the whole match, group `i` the text of the `i`-th group (`None` where it
/// took no part). `None` when nothing in `text` matches.
pub uninterp spec fn regex_captures(pattern: Seq<char>, text: Seq<char>) -> Option<
    Seq<Option<Seq<char>>>,
>;

/// `pattern` is accepted by the regex engine.
pub uninterp spec fn regex_compiles(pattern: Seq<char>) -> bool;

/// Relies on regex::Regex::new to compile `pattern`, which fails on the
/// pattern alone, and on regex::Regex::captures for its leftmost-first match
/// in `text`, which depends on the two strings alone; group 0 of a match is
/// always present.
#[verifier::external_body]
pub(crate) fn captures(pattern: &str, text: &str) -> (r: Result<
    Option<Vec<Option<String>>>,
    regex::Error,
>)
    ensures
        r is Ok <==> regex_compiles(pattern@),
        r matches Ok(c) ==> c.deep_view() == regex_captures(pattern@, text@),
        r matches Ok(Some(g)) ==> g@.len() >= 1 && g@[0] is Some,
{
    let re = regex::Regex::new(pattern)?;
    Ok(re.captures(text).map(|c| c.iter().map(|m| m.map(|m| m.as_str().to_owned())).collect()))
}

pub open spec fn is_digit(c: char) -> bool {
    '0' <= c <= '9'
}

pub open spec fn all_digits(s: Seq<char>) -> bool {
    forall|i: int| 0 <= i < s.len() ==> is_digit(#[trigger] s[i])
}

/// Decimal value of a string of ASCII digits.
pub open spec fn decimal(s: Seq<char>) -> int
    decreases s.len(),
{
    if s.len() == 0 {
        0
    } else {
        decimal(s.drop_last()) * 10 + (s.last() as int - '0' as int)
    }
}

/// The byte that a digit group denotes: a non-empty run of ASCII digits whose
/// value is at most 255.
pub open spec fn small_number(s: Seq<char>) -> Option<int> {
    if s.len() > 0 && all_digits(s) && decimal(s) <= 255 {
        Some(decimal(s))
    } else {
        None
    }
}

proof fn lemma_decimal_grows(s: Seq<char>, i: int)
    requires
        all_digits(s),
        0 <= i <= s.len(),
    ensures
        0 <= decimal(s.subrange(0, i)) <= decimal(s),
    decreases s.len() - i,
{
    if i < s.len() {
        lemma_decimal_grows(s, i + 1);
        let p = s.subrange(0, i + 1);
        assert(p.drop_last() =~= s.subrange(0, i));
        lemma_decimal_nonneg(s.subrange(0, i));
    } else {
        assert(s.subrange(0, i) =~= s);
        lemma_decimal_nonneg(s);
    }
}

proof fn lemma_decimal_nonneg(s: Seq<char>)
    requires
        all_digits(s),
    ensures
        decimal(s) >= 0,
    decreases s.len(),
{
    if s.len() > 0 {
        assert(all_digits(s.drop_last()));
        lemma_decimal_nonneg(s.drop_last());
    }
}

/// Reads a digit group as a byte: `None` unless `s` is a non-empty run of
/// ASCII digits of value at most 255.
pub fn read_small_number(s: &str) -> (r: Option<u8>)
    ensures
        r matches Some(v) ==> small_number(s@) == Some(v as int),
        r is None ==> small_number(s@) is None,
{
    let n = s.unicode_len();
    if n == 0 {
        return None;
    }
    let mut v: u32 = 0;
    let mut i: usize = 0;
    while i < n
        invariant
            n == s@.len(),
            i <= n,
            all_digits(s@.subrange(0, i as int)),
            v as int == decimal(s@.subrange(0, i as int)),
            v <= 255,
        decreases n - i,
    {
        let c = s.get_char(i);
        if !('0' <= c && c <= '9') {
            return None;
        }
        let ghost p = s@.subrange(0, i as int + 1);
        assert(p.drop_last() =~= s@.subrange(0, i as int));
        let d = (c as u32) - ('0' as u32);
        v = v * 10 + d;
        i = i + 1;
        assert(all_digits(s@.subrange(0, i as int)));
        if v > 255 {
            proof {
                if all_digits(s@) {
                    lemma_decimal_grows(s@, i as int);
                }
            }
            return None;
        }
    }
    assert(s@.subrange(0, n as int) =~= s@);
    Some(v as u8)
}

} // verus!

//! Character classes shared by the normalizer, the Luhn validator and the
//! detector engine, together with the digit-extraction function that both
//! detectors rely on.

use vstd::prelude::*;

verus! {

/// An ASCII decimal digit.
pub open spec fn is_digit_char(c: char) -> bool {
    '0' as u32 <= c as u32 && c as u32 <= '9' as u32
}

/// The numeric value of an ASCII decimal digit.
pub open spec fn digit_val(c: char) -> int {
    c as u32 - '0' as u32
}

/// A separator character permitted inside a credit-card candidate run.
pub open spec fn is_sep(c: char) -> bool {
    c == '-' || c == ' ' || c == '.'
}

/// The subsequence of ASCII digit characters of `s`, in order.
pub open spec fn digits_of(s: Seq<char>) -> Seq<char>
    decreases s.len(),
{
    if s.len() == 0 {
        Seq::empty()
    } else {
        let rest = digits_of(s.drop_last());
        if is_digit_char(s.last()) {
            rest.push(s.last())
        } else {
            rest
        }
    }
}

/// Every character of `digits_of(s)` is an ASCII digit.
pub proof fn lemma_digits_of_all_digits(s: Seq<char>)
    ensures
        forall|i: int| 0 <= i < digits_of(s).len() ==> is_digit_char(#[trigger] digits_of(s)[i]),
    decreases s.len(),
{
    if s.len() > 0 {
        lemma_digits_of_all_digits(s.drop_last());
        let rest = digits_of(s.drop_last());
        assert forall|i: int| 0 <= i < digits_of(s).len() implies is_digit_char(
            #[trigger] digits_of(s)[i],
        ) by {
            if i < rest.len() {
                assert(digits_of(s)[i] == rest[i]);
            }
        }
    }
}

/// Extending a sequence by one character extends its digit subsequence
/// by that character exactly when the character is a digit.
pub proof fn lemma_digits_of_push(s: Seq<char>, c: char)
    ensures
        digits_of(s.push(c)) == if is_digit_char(c) {
            digits_of(s).push(c)
        } else {
            digits_of(s)
        },
{
    assert(s.push(c).drop_last() =~= s);
    assert(s.push(c).last() == c);
}

/// Inserting a non-digit character anywhere leaves the digit subsequence
/// unchanged.
pub proof fn lemma_digits_of_insert_non_digit(s: Seq<char>, i: int, c: char)
    requires
        0 <= i <= s.len(),
        !is_digit_char(c),
    ensures
        digits_of(s.insert(i, c)) == digits_of(s),
    decreases s.len(),
{
    let t = s.insert(i, c);
    if i == s.len() {
        assert(t =~= s.push(c));
        lemma_digits_of_push(s, c);
    } else {
        assert(t.last() == s.last());
        assert(t.drop_last() =~= s.drop_last().insert(i, c));
        lemma_digits_of_insert_non_digit(s.drop_last(), i, c);
    }
}

/// A sequence made of digits only is its own digit subsequence.
pub proof fn lemma_digits_of_identity(s: Seq<char>)
    requires
        forall|i: int| 0 <= i < s.len() ==> is_digit_char(#[trigger] s[i]),
    ensures
        digits_of(s) == s,
    decreases s.len(),
{
    if s.len() > 0 {
        lemma_digits_of_identity(s.drop_last());
        assert(digits_of(s.drop_last()).push(s.last()) =~= s);
    }
}

/// Relies on String::push: appends the given character at the end.
#[verifier::external_body]
pub(crate) fn push_char(s: &mut String, c: char)
    ensures
        final(s)@ == old(s)@.push(c),
{
    s.push(c);
}

/// Relies on String::push_str: appends the given string slice at the end.
#[verifier::external_body]
pub(crate) fn push_str_onto(s: &mut String, t: &str)
    ensures
        final(s)@ == old(s)@ + t@,
{
    s.push_str(t);
}

} // verus!

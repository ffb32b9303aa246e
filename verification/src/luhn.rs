//! Luhn checksum validator used to confirm credit-card candidates.
//!
//! A digit sequence is accepted when its length lies in the common card
//! range of 13 through 19 and the Luhn sum is divisible by ten.

use crate::text::digit_val;
use crate::text::digits_of;
use crate::text::is_digit_char;
use crate::text::is_sep;
use crate::text::lemma_digits_of_all_digits;
use crate::text::lemma_digits_of_insert_non_digit;
use crate::text::lemma_digits_of_push;
use vstd::prelude::*;

verus! {

/// The Luhn contribution of one digit: doubled when it sits at an odd
/// position counted from the right, with nine subtracted when doubling
/// exceeds nine.
pub open spec fn luhn_digit(d: int, doubled: bool) -> int {
    if doubled {
        if 2 * d > 9 {
            2 * d - 9
        } else {
            2 * d
        }
    } else {
        d
    }
}

/// The Luhn sum of a digit-character sequence. The digit at index `k`
/// sits at position `len - 1 - k` from the right and is doubled when
/// that position is odd.
pub open spec fn luhn_sum(ds: Seq<char>) -> int
    decreases ds.len(),
{
    if ds.len() == 0 {
        0
    } else {
        luhn_digit(digit_val(ds.first()), (ds.len() - 1) % 2 == 1) + luhn_sum(ds.drop_first())
    }
}

/// A digit sequence passes the Luhn validator: its length lies in
/// [13, 19] and its Luhn sum is divisible by ten.
pub open spec fn luhn_valid(ds: Seq<char>) -> bool {
    13 <= ds.len() && ds.len() <= 19 && luhn_sum(ds) % 10 == 0
}

/// The Luhn sum of an all-digit sequence is at least zero and at most
/// nine per digit.
pub proof fn lemma_luhn_sum_bounds(ds: Seq<char>)
    requires
        forall|i: int| 0 <= i < ds.len() ==> is_digit_char(#[trigger] ds[i]),
    ensures
        0 <= luhn_sum(ds) <= 9 * ds.len(),
    decreases ds.len(),
{
    if ds.len() > 0 {
        assert(forall|i: int|
            0 <= i < ds.drop_first().len() ==> is_digit_char(#[trigger] ds.drop_first()[i]));
        lemma_luhn_sum_bounds(ds.drop_first());
    }
}

/// Sequences shorter than 13 or longer than 19 digits never pass the
/// Luhn validator, whatever their checksum.
pub proof fn lemma_luhn_length_bounds(ds: Seq<char>)
    ensures
        ds.len() < 13 || ds.len() > 19 ==> !luhn_valid(ds),
{
}

/// Inserting a separator character (`-`, space, `.`) anywhere in a
/// character sequence does not change whether its digits pass the Luhn
/// validator: validation sees the digit subsequence alone.
pub proof fn lemma_luhn_separator_insensitive(s: Seq<char>, i: int, c: char)
    requires
        0 <= i <= s.len(),
        is_sep(c),
    ensures
        luhn_valid(digits_of(s.insert(i, c))) == luhn_valid(digits_of(s)),
{
    lemma_digits_of_insert_non_digit(s, i, c);
}

/// Runs the Luhn validator over the ASCII digits of the input, ignoring
/// every non-digit character. Returns true exactly when the digit
/// subsequence has a length in [13, 19] and a Luhn sum divisible by ten.
pub fn luhn_check(cc_number: &str) -> (r: bool)
    ensures
        r == luhn_valid(digits_of(cc_number@)),
{
    let n = cc_number.unicode_len();
    let mut digits: Vec<char> = Vec::new();
    let mut i: usize = 0;
    while i < n
        invariant
            n == cc_number@.len(),
            i <= n,
            digits@ == digits_of(cc_number@.subrange(0, i as int)),
        decreases n - i,
    {
        let c = cc_number.get_char(i);
        let u = c as u32;
        if '0' as u32 <= u && u <= '9' as u32 {
            digits.push(c);
        }
        proof {
            assert(cc_number@.subrange(0, i + 1 as int) =~= cc_number@.subrange(0, i as int).push(
                cc_number@[i as int],
            ));
            lemma_digits_of_push(cc_number@.subrange(0, i as int), cc_number@[i as int]);
        }
        i = i + 1;
    }
    proof {
        assert(cc_number@.subrange(0, n as int) =~= cc_number@);
    }
    let len = digits.len();
    if len < 13 || len > 19 {
        return false;
    }
    let ghost ds = digits@;
    proof {
        lemma_digits_of_all_digits(cc_number@);
    }
    let mut sum: u32 = 0;
    let mut k = len;
    while k > 0
        invariant
            k <= len,
            len == ds.len(),
            ds == digits@,
            ds == digits_of(cc_number@),
            13 <= len <= 19,
            forall|t: int| 0 <= t < ds.len() ==> is_digit_char(#[trigger] ds[t]),
            sum == luhn_sum(ds.subrange(k as int, len as int)),
        decreases k,
    {
        k = k - 1;
        let c = digits[k];
        let d = (c as u32) - ('0' as u32);
        let pos = len - 1 - k;
        let addend: u32 = if pos % 2 == 1 {
            let dd = 2 * d;
            if dd > 9 {
                dd - 9
            } else {
                dd
            }
        } else {
            d
        };
        proof {
            let sub = ds.subrange(k as int, len as int);
            assert(sub.drop_first() =~= ds.subrange(k + 1 as int, len as int));
            assert(sub.first() == ds[k as int]);
            assert(addend == luhn_digit(digit_val(ds[k as int]), (sub.len() - 1) % 2 == 1));
            assert(forall|t: int| 0 <= t < sub.len() ==> is_digit_char(#[trigger] sub[t]));
            lemma_luhn_sum_bounds(sub);
        }
        sum = sum + addend;
    }
    proof {
        assert(ds.subrange(0, len as int) =~= ds);
    }
    sum % 10 == 0
}

} // verus!

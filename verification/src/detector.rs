//! Detector engine: runs the SSN heuristic and the credit-card scan over
//! normalized text and returns the findings in detection order, all
//! SSN-heuristic findings first, then credit-card findings.

use crate::luhn::luhn_valid;
use crate::normalize::normalize_spec;
use crate::normalize::normalize_text;
use crate::text::digits_of;
use crate::text::is_digit_char;
use crate::text::is_sep;
use crate::text::lemma_digits_of_all_digits;
use crate::text::lemma_digits_of_identity;
use crate::text::lemma_digits_of_push;
use crate::text::push_char;
use vstd::prelude::*;

verus! {

/// The kind of one detected sensitive-data instance.
#[derive(Clone, Copy, PartialEq, Eq, Structural, Debug)]
pub enum FindingKind {
    SsnHeuristic,
    CreditCard,
}

/// One detected sensitive-data instance, immutable once produced.
#[derive(Clone, Copy, PartialEq, Eq, Structural, Debug)]
pub struct Finding {
    pub kind: FindingKind,
}

/// The single finding the SSN heuristic can emit.
pub open spec fn ssn_finding() -> Finding {
    Finding { kind: FindingKind::SsnHeuristic }
}

/// The finding emitted for one accepted credit-card run.
pub open spec fn cc_finding() -> Finding {
    Finding { kind: FindingKind::CreditCard }
}

/// A character that extends a credit-card candidate run: an ASCII digit
/// or one of the permitted separators.
pub open spec fn is_run_char(c: char) -> bool {
    is_digit_char(c) || is_sep(c)
}

/// The first index at or after `i` that does not extend a candidate run
/// (or the end of the text).
pub open spec fn run_end(t: Seq<char>, i: int) -> int
    recommends
        0 <= i <= t.len(),
    decreases t.len() - i,
        when i <= t.len()
{
    if i < 0 || i >= t.len() || !is_run_char(t[i]) {
        i
    } else {
        run_end(t, i + 1)
    }
}

/// `run_end` lands between `i` and the end of the text, every character
/// before it extends the run, and the character at it (if any) does not.
pub proof fn lemma_run_end(t: Seq<char>, i: int)
    requires
        0 <= i <= t.len(),
    ensures
        i <= run_end(t, i) <= t.len(),
        forall|j: int| i <= j < run_end(t, i) ==> is_run_char(#[trigger] t[j]),
        run_end(t, i) < t.len() ==> !is_run_char(t[run_end(t, i)]),
    decreases t.len() - i,
{
    if i < t.len() && is_run_char(t[i]) {
        lemma_run_end(t, i + 1);
    }
}

/// Any index with run characters strictly before it and a non-run
/// character (or the text's end) at it is `run_end`.
pub proof fn lemma_run_end_is(t: Seq<char>, i: int, e: int)
    requires
        0 <= i <= e <= t.len(),
        forall|j: int| i <= j < e ==> is_run_char(#[trigger] t[j]),
        e < t.len() ==> !is_run_char(t[e]),
    ensures
        run_end(t, i) == e,
    decreases e - i,
{
    if i < e {
        lemma_run_end_is(t, i + 1, e);
    }
}

/// How many credit-card findings the left-to-right scan of normalized
/// text `t` emits from position `i` on: at a digit the whole
/// digit-and-separator run is taken as a candidate; an accepted
/// candidate moves the cursor past the run, a rejected one moves it by
/// one position.
pub open spec fn cc_count(t: Seq<char>, i: int) -> nat
    recommends
        0 <= i,
    decreases t.len() - i,
        when 0 <= i <= t.len()
{
    if i >= t.len() {
        0
    } else if is_digit_char(t[i]) {
        proof {
            lemma_run_end(t, i + 1);
        }
        let e = run_end(t, i);
        if luhn_valid(digits_of(t.subrange(i, e))) {
            1 + cc_count(t, e)
        } else {
            cc_count(t, i + 1)
        }
    } else {
        cc_count(t, i + 1)
    }
}

/// The SSN heuristic fires when the normalized text holds at least nine
/// ASCII digits in total, wherever they stand.
pub open spec fn ssn_flagged(t: Seq<char>) -> bool {
    digits_of(t).len() >= 9
}

/// The findings for already-normalized text: at most one SSN-heuristic
/// finding, then one credit-card finding per accepted run.
pub open spec fn findings_of_normalized(t: Seq<char>) -> Seq<Finding> {
    (if ssn_flagged(t) {
        seq![ssn_finding()]
    } else {
        Seq::empty()
    }) + Seq::new(cc_count(t, 0), |k: int| cc_finding())
}

/// The findings for raw input text: normalization first, then both
/// detection passes.
pub open spec fn scan_findings(s: Seq<char>) -> Seq<Finding> {
    findings_of_normalized(normalize_spec(s))
}

/// Scans raw text for sensitive identifiers and returns the findings in
/// detection order. The input is never mutated and never rejected; text
/// that matches nothing yields an empty result. The SSN-heuristic
/// finding is emitted exactly once when the normalized text holds nine
/// or more digits, and never otherwise; every other finding reports a
/// credit-card run.
pub fn scan_pii(raw_text: &str) -> (r: Vec<Finding>)
    ensures
        r@ == scan_findings(raw_text@),
        ssn_flagged(normalize_spec(raw_text@)) ==> r@.len() >= 1 && r@[0] == ssn_finding()
            && (forall|i: int| 1 <= i < r@.len() ==> #[trigger] r@[i] == cc_finding()),
        !ssn_flagged(normalize_spec(raw_text@)) ==> (forall|i: int|
            0 <= i < r@.len() ==> #[trigger] r@[i] == cc_finding()),
{
    let normalized = normalize_text(raw_text);
    let ghost tv = normalized@;
    let n = normalized.as_str().unicode_len();
    let mut findings: Vec<Finding> = Vec::new();

    // SSN heuristic: count every digit of the normalized text.
    let mut digit_count: usize = 0;
    let mut i: usize = 0;
    while i < n
        invariant
            n == tv.len(),
            tv == normalized@,
            i <= n,
            digit_count <= i,
            digit_count == digits_of(tv.subrange(0, i as int)).len(),
        decreases n - i,
    {
        let c = normalized.as_str().get_char(i);
        let u = c as u32;
        proof {
            assert(tv.subrange(0, i + 1 as int) =~= tv.subrange(0, i as int).push(tv[i as int]));
            lemma_digits_of_push(tv.subrange(0, i as int), tv[i as int]);
        }
        if '0' as u32 <= u && u <= '9' as u32 {
            digit_count = digit_count + 1;
        }
        i = i + 1;
    }
    proof {
        assert(tv.subrange(0, n as int) =~= tv);
    }
    if digit_count >= 9 {
        findings.push(Finding { kind: FindingKind::SsnHeuristic });
    }
    let ghost ssn_part = if ssn_flagged(tv) {
        seq![ssn_finding()]
    } else {
        Seq::<Finding>::empty()
    };
    proof {
        assert(findings@ =~= ssn_part);
    }

    // Credit-card scan: greedy digit-and-separator runs, Luhn-checked.
    let ghost mut ncc: nat = 0;
    i = 0;
    while i < n
        invariant
            n == tv.len(),
            tv == normalized@,
            i <= n,
            ncc + cc_count(tv, i as int) == cc_count(tv, 0),
            findings@ == ssn_part + Seq::new(ncc, |k: int| cc_finding()),
            ssn_part == (if ssn_flagged(tv) {
                seq![ssn_finding()]
            } else {
                Seq::<Finding>::empty()
            }),
        decreases n - i,
    {
        let c = normalized.as_str().get_char(i);
        let u = c as u32;
        if '0' as u32 <= u && u <= '9' as u32 {
            let mut j: usize = i;
            let mut raw = String::new();
            let mut stopped = false;
            while !stopped && j < n
                invariant
                    n == tv.len(),
                    tv == normalized@,
                    i <= j <= n,
                    raw@ == digits_of(tv.subrange(i as int, j as int)),
                    forall|q: int| i <= q < j ==> is_run_char(#[trigger] tv[q]),
                    stopped ==> j < n && !is_run_char(tv[j as int]),
                decreases n - j, (if stopped { 0int } else { 1int }),
            {
                let cj = normalized.as_str().get_char(j);
                let uj = cj as u32;
                let dig = '0' as u32 <= uj && uj <= '9' as u32;
                if dig || cj == '-' || cj == ' ' || cj == '.' {
                    proof {
                        assert(tv.subrange(i as int, j + 1 as int) =~= tv.subrange(
                            i as int,
                            j as int,
                        ).push(tv[j as int]));
                        lemma_digits_of_push(tv.subrange(i as int, j as int), tv[j as int]);
                    }
                    if dig {
                        push_char(&mut raw, cj);
                    }
                    j = j + 1;
                } else {
                    stopped = true;
                }
            }
            proof {
                lemma_run_end_is(tv, i as int, j as int);
                lemma_digits_of_all_digits(tv.subrange(i as int, j as int));
                lemma_digits_of_identity(raw@);
            }
            if crate::luhn::luhn_check(raw.as_str()) {
                findings.push(Finding { kind: FindingKind::CreditCard });
                proof {
                    assert(cc_count(tv, i as int) == 1 + cc_count(tv, j as int));
                    assert((ssn_part + Seq::new(ncc, |k: int| cc_finding())).push(cc_finding())
                        =~= ssn_part + Seq::new(ncc + 1, |k: int| cc_finding()));
                    ncc = ncc + 1;
                }
                i = j;
            } else {
                proof {
                    assert(cc_count(tv, i as int) == cc_count(tv, i + 1 as int));
                }
                i = i + 1;
            }
        } else {
            proof {
                assert(cc_count(tv, i as int) == cc_count(tv, i + 1 as int));
            }
            i = i + 1;
        }
    }
    proof {
        assert(cc_count(tv, n as int) == 0);
        assert(findings@ == findings_of_normalized(tv));
        assert(findings@ == scan_findings(raw_text@));
        let fs = findings@;
        assert forall|q: int| ssn_part.len() <= q < fs.len() implies #[trigger] fs[q]
            == cc_finding() by {
            assert(fs[q] == Seq::new(ncc, |k: int| cc_finding())[q - ssn_part.len()]);
        }
        if ssn_flagged(tv) {
            assert(fs[0] == ssn_part[0]);
        }
    }
    findings
}

} // verus!

//! Text normalizer: strips zero-width obfuscation characters and case-folds
//! ASCII letters to lowercase before any detection pass runs.

use vstd::prelude::*;

verus! {

/// A character removed by normalization: the zero-width range
/// U+200B through U+200F, or the byte-order mark U+FEFF.
pub open spec fn is_zero_width(c: char) -> bool {
    (0x200B <= c as u32 && c as u32 <= 0x200F) || c as u32 == 0xFEFF
}

/// ASCII case folding of one character: uppercase ASCII letters map to
/// their lowercase form, every other character is unchanged.
pub open spec fn lower_char(c: char) -> char {
    if 'A' as u32 <= c as u32 && c as u32 <= 'Z' as u32 {
        ((c as u32 + 32) as u8) as char
    } else {
        c
    }
}

/// The normalized form of a character sequence: zero-width characters
/// removed, the rest case-folded to lowercase.
pub open spec fn normalize_spec(s: Seq<char>) -> Seq<char>
    decreases s.len(),
{
    if s.len() == 0 {
        Seq::empty()
    } else {
        let rest = normalize_spec(s.drop_last());
        if is_zero_width(s.last()) {
            rest
        } else {
            rest.push(lower_char(s.last()))
        }
    }
}

/// Case folding never produces a zero-width character and is idempotent.
pub proof fn lemma_lower_char_stable(c: char)
    ensures
        !is_zero_width(c) ==> !is_zero_width(lower_char(c)),
        lower_char(lower_char(c)) == lower_char(c),
{
}

/// Normalizing one more character extends the normalized form as the
/// definition says, stated for the `push` shape that loops produce.
pub proof fn lemma_normalize_spec_push(s: Seq<char>, c: char)
    ensures
        normalize_spec(s.push(c)) == if is_zero_width(c) {
            normalize_spec(s)
        } else {
            normalize_spec(s).push(lower_char(c))
        },
{
    assert(s.push(c).drop_last() =~= s);
    assert(s.push(c).last() == c);
}

/// Normalization is idempotent: normalizing an already normalized
/// sequence changes nothing.
pub proof fn lemma_normalize_idempotent(s: Seq<char>)
    ensures
        normalize_spec(normalize_spec(s)) == normalize_spec(s),
    decreases s.len(),
{
    if s.len() > 0 {
        lemma_normalize_idempotent(s.drop_last());
        let rest = normalize_spec(s.drop_last());
        let c = s.last();
        if !is_zero_width(c) {
            lemma_lower_char_stable(c);
            lemma_normalize_spec_push(rest, lower_char(c));
        }
    }
}

/// Returns the normalized copy of the input: zero-width characters
/// stripped, ASCII letters folded to lowercase. Always succeeds; an
/// empty input yields an empty output.
pub fn normalize_text(input: &str) -> (r: String)
    ensures
        r@ == normalize_spec(input@),
{
    let n = input.unicode_len();
    let mut out = String::new();
    let mut i: usize = 0;
    while i < n
        invariant
            n == input@.len(),
            i <= n,
            out@ == normalize_spec(input@.subrange(0, i as int)),
        decreases n - i,
    {
        let c = input.get_char(i);
        let u = c as u32;
        if !((0x200B <= u && u <= 0x200F) || u == 0xFEFF) {
            let lc: char = if 'A' as u32 <= u && u <= 'Z' as u32 {
                ((u + 32) as u8) as char
            } else {
                c
            };
            assert(lc == lower_char(c));
            crate::text::push_char(&mut out, lc);
        }
        proof {
            assert(input@.subrange(0, i + 1 as int) =~= input@.subrange(0, i as int).push(
                input@[i as int],
            ));
            lemma_normalize_spec_push(input@.subrange(0, i as int), input@[i as int]);
        }
        i = i + 1;
    }
    proof {
        assert(input@.subrange(0, n as int) =~= input@);
    }
    out
}

} // verus!

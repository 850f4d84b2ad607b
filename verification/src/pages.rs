//! The page splitter: raw extracted text is cut into an ordered sequence of
//! pages on the form-feed marker, and each page into lines on the line feed.
//! Splitting never fails; text with `n` markers yields exactly `n + 1` parts,
//! empty parts included, and a text without markers yields one part equal to
//! the whole input.

use vstd::prelude::*;

use crate::LINE_BREAK;
use crate::PAGE_BREAK;

verus! {

/// How many times byte `b` occurs in `text`.
pub open spec fn count_byte(text: Seq<u8>, b: u8) -> nat
    decreases text.len(),
{
    if text.len() == 0 {
        0
    } else {
        (if text[0] == b {
            1nat
        } else {
            0nat
        }) + count_byte(text.drop_first(), b)
    }
}

/// The parts of `text` between occurrences of the separator byte, in order:
/// the separator is consumed, empty parts are preserved, and there is always
/// one part more than there are separators.
pub open spec fn spec_split(text: Seq<u8>, sep: u8) -> Seq<Seq<u8>>
    decreases text.len(),
{
    if text.len() == 0 {
        seq![Seq::empty()]
    } else if text[0] == sep {
        seq![Seq::empty()] + spec_split(text.drop_first(), sep)
    } else {
        let rest = spec_split(text.drop_first(), sep);
        seq![seq![text[0]] + rest[0]] + rest.drop_first()
    }
}

/// Law: splitting yields one part more than there are separators; in
/// particular the result is never empty.
pub proof fn lemma_split_count(text: Seq<u8>, sep: u8)
    ensures
        spec_split(text, sep).len() == count_byte(text, sep) + 1,
    decreases text.len(),
{
    if text.len() != 0 {
        lemma_split_count(text.drop_first(), sep);
    }
}

/// Law: a text without the separator splits into exactly one part, the text
/// itself.
pub proof fn lemma_split_no_marker(text: Seq<u8>, sep: u8)
    requires
        forall|i: int| 0 <= i < text.len() ==> text[i] != sep,
    ensures
        spec_split(text, sep) == seq![text],
    decreases text.len(),
{
    if text.len() == 0 {
        assert(text =~= Seq::empty());
    } else {
        assert(forall|i: int|
            0 <= i < text.drop_first().len() ==> #[trigger] text.drop_first()[i] != sep);
        lemma_split_no_marker(text.drop_first(), sep);
        assert(seq![text[0]] + text.drop_first() =~= text);
        assert((seq![text.drop_first()]).drop_first() =~= Seq::<Seq<u8>>::empty());
        assert(seq![seq![text[0]] + text.drop_first()] + (seq![text.drop_first()]).drop_first()
            =~= seq![text]);
    }
}

/// The combined length of all parts.
pub open spec fn parts_total_len(parts: Seq<Seq<u8>>) -> nat
    decreases parts.len(),
{
    if parts.len() == 0 {
        0
    } else {
        parts[0].len() + parts_total_len(parts.drop_first())
    }
}

/// Counting the separator never exceeds the text's length.
pub proof fn lemma_count_byte_le_len(text: Seq<u8>, b: u8)
    ensures
        count_byte(text, b) <= text.len(),
    decreases text.len(),
{
    if text.len() != 0 {
        lemma_count_byte_le_len(text.drop_first(), b);
    }
}

/// Splitting loses exactly the separators: the parts together hold the
/// text's length minus the separator count.
pub proof fn lemma_split_total_len(text: Seq<u8>, sep: u8)
    ensures
        parts_total_len(spec_split(text, sep)) + count_byte(text, sep) == text.len(),
    decreases text.len(),
{
    if text.len() == 0 {
        assert((seq![Seq::<u8>::empty()]).drop_first() =~= Seq::<Seq<u8>>::empty());
        assert(parts_total_len(Seq::<Seq<u8>>::empty()) == 0);
    } else {
        lemma_split_total_len(text.drop_first(), sep);
        lemma_split_count(text.drop_first(), sep);
        let rest = spec_split(text.drop_first(), sep);
        if text[0] == sep {
            assert((seq![Seq::<u8>::empty()] + rest).drop_first() =~= rest);
            assert(parts_total_len(seq![Seq::<u8>::empty()] + rest) == 0 + parts_total_len(rest));
        } else {
            let first = seq![text[0]] + rest[0];
            assert((seq![first] + rest.drop_first()).drop_first() =~= rest.drop_first());
            assert(parts_total_len(seq![first] + rest.drop_first()) == first.len()
                + parts_total_len(rest.drop_first()));
            assert(parts_total_len(rest) == rest[0].len() + parts_total_len(rest.drop_first()));
        }
    }
}

/// `parts` with `prefix` prepended to its first part.
pub open spec fn prepend_first(prefix: Seq<u8>, parts: Seq<Seq<u8>>) -> Seq<Seq<u8>>
    recommends
        parts.len() >= 1,
{
    seq![prefix + parts[0]] + parts.drop_first()
}

/// Split `text` on the separator byte `sep`, preserving empty parts.
pub fn split_on(text: &[u8], sep: u8) -> (r: Vec<Vec<u8>>)
    ensures
        r.deep_view() == spec_split(text@, sep),
{
    let mut out: Vec<Vec<u8>> = Vec::new();
    let mut cur: Vec<u8> = Vec::new();
    let n = text.len();
    proof {
        lemma_split_count(text@, sep);
        assert(text@.skip(0) =~= text@);
        assert(Seq::<u8>::empty() + spec_split(text@, sep)[0] =~= spec_split(text@, sep)[0]);
        assert(out.deep_view() + prepend_first(cur@, spec_split(text@.skip(0), sep)) =~= seq![
            spec_split(text@, sep)[0],
        ] + spec_split(text@, sep).drop_first());
        assert(seq![spec_split(text@, sep)[0]] + spec_split(text@, sep).drop_first() =~= spec_split(
            text@,
            sep,
        ));
    }
    let mut i: usize = 0;
    while i < n
        invariant
            n == text@.len(),
            i <= n,
            spec_split(text@.skip(i as int), sep).len() >= 1,
            spec_split(text@, sep) == out.deep_view() + prepend_first(
                cur@,
                spec_split(text@.skip(i as int), sep),
            ),
        decreases n - i,
    {
        let b = text[i];
        let ghost rest = text@.skip(i as int);
        let ghost rest1 = text@.skip(i + 1);
        proof {
            assert(rest.len() > 0);
            assert(rest[0] == text@[i as int]);
            assert(rest.drop_first() =~= rest1);
            lemma_split_count(rest1, sep);
        }
        if b == sep {
            let ghost prev_out = out.deep_view();
            let ghost prev_cur = cur@;
            let finished_part = cur;
            cur = Vec::new();
            out.push(finished_part);
            proof {
                assert(out.deep_view() =~~= prev_out.push(prev_cur));
                assert(spec_split(rest, sep) == seq![Seq::<u8>::empty()] + spec_split(rest1, sep));
                assert(prepend_first(prev_cur, spec_split(rest, sep))[0] =~= prev_cur);
                assert(prepend_first(prev_cur, spec_split(rest, sep)).drop_first() =~= spec_split(
                    rest1,
                    sep,
                ));
                assert(prepend_first(prev_cur, spec_split(rest, sep)) =~= seq![prev_cur]
                    + spec_split(rest1, sep));
                assert(Seq::<u8>::empty() + spec_split(rest1, sep)[0] =~= spec_split(
                    rest1,
                    sep,
                )[0]);
                assert(prepend_first(Seq::<u8>::empty(), spec_split(rest1, sep)) =~= spec_split(
                    rest1,
                    sep,
                ));
                assert(prev_out + (seq![prev_cur] + spec_split(rest1, sep)) =~= prev_out.push(
                    prev_cur,
                ) + spec_split(rest1, sep));
            }
        } else {
            let ghost prev_cur = cur@;
            cur.push(b);
            proof {
                let srest = spec_split(rest, sep);
                let srest1 = spec_split(rest1, sep);
                assert(srest == seq![seq![rest[0]] + srest1[0]] + srest1.drop_first());
                assert(srest[0] == seq![rest[0]] + srest1[0]);
                assert(srest.drop_first() =~= srest1.drop_first());
                assert(prev_cur + srest[0] =~= cur@ + srest1[0]);
                assert(prepend_first(prev_cur, srest) =~= prepend_first(cur@, srest1));
            }
        }
        i = i + 1;
    }
    proof {
        assert(text@.skip(n as int) =~= Seq::empty());
        assert(spec_split(text@.skip(n as int), sep) == seq![Seq::<u8>::empty()]);
        let ghost prev_out = out.deep_view();
        assert(prepend_first(cur@, seq![Seq::<u8>::empty()])[0] =~= cur@);
        assert(prepend_first(cur@, seq![Seq::<u8>::empty()]).drop_first()
            =~= Seq::<Seq<u8>>::empty());
        assert(prepend_first(cur@, seq![Seq::<u8>::empty()]) =~= seq![cur@]);
        assert(prev_out + seq![cur@] =~= prev_out.push(cur@));
    }
    let ghost final_out = out.deep_view().push(cur@);
    out.push(cur);
    proof {
        assert(out.deep_view() =~~= final_out);
    }
    out
}

/// Split raw extracted text into pages on the form-feed page-break marker.
pub fn split_pages(text: &[u8]) -> (r: Vec<Vec<u8>>)
    ensures
        r.deep_view() == spec_split(text@, PAGE_BREAK),
{
    split_on(text, PAGE_BREAK)
}

/// Split one page into its lines on the line-feed separator.
pub fn split_lines(page: &[u8]) -> (r: Vec<Vec<u8>>)
    ensures
        r.deep_view() == spec_split(page@, LINE_BREAK),
{
    split_on(page, LINE_BREAK)
}

} // verus!

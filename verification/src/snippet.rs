//! A random snippet of extracted text: a page is drawn at random, a start
//! position drawn within it, and the cut widened to whitespace on both sides
//! by the line trimmer's boundary rules.  Only the two draws come from the
//! random number generator; everything done with them is verified for every
//! value they can take.

use vstd::prelude::*;
use vstd::slice::slice_to_vec;

use crate::pages::spec_split;
use crate::pages::split_pages;
use crate::utils::get_left_index_trim;
use crate::utils::get_right_index_trim;
use crate::utils::spec_left_trim;
use crate::utils::spec_right_trim;
use crate::PAGE_BREAK;

verus! {

/// Relies on `rand::random_range` over `0..n`: a value below `n` from the
/// thread-local generator; it panics only on an empty range, which the
/// precondition rules out.
#[verifier::external_body]
fn random_below(n: usize) -> (r: usize)
    requires
        n > 0,
    ensures
        r < n,
{
    rand::random_range(0..n)
}

/// A snippet cut from extracted text: where it came from and the bytes kept.
pub struct Snippet {
    /// The 0-based index of the drawn page, or `None` when the whole input
    /// was shorter than the requested length and is returned as it is.
    pub page_index: Option<usize>,
    /// The drawn start position within the page.
    pub start: usize,
    /// The whitespace-snapped left edge of the cut.
    pub left: usize,
    /// The whitespace-snapped right edge of the cut.
    pub right: usize,
    /// The snippet's bytes.
    pub text: Vec<u8>,
}

/// Cut a snippet of roughly `snippet_length` bytes from a randomly drawn
/// page of `text`, widened to whitespace on both sides.  Input shorter than
/// the requested length is returned whole, as is a drawn page too short to
/// cut from.
pub fn get_random_text(text: &[u8], snippet_length: usize) -> (r: Snippet)
    ensures
        match r.page_index {
            None => r.text@ == text@ && r.left == 0 && r.right == r.text@.len() && r.start == 0,
            Some(pi) => {
                let pages = spec_split(text@, PAGE_BREAK);
                &&& pi < pages.len()
                &&& {
                    let page = pages[pi as int];
                    if page.len() <= snippet_length + 1 {
                        r.text@ == page && r.left == 0 && r.right == page.len() && r.start == 0
                    } else {
                        &&& r.start + snippet_length + 1 < page.len()
                        &&& r.left == spec_left_trim(page, r.start as int, 1)
                        &&& r.right == spec_right_trim(
                            page,
                            r.start + snippet_length as int,
                            1,
                        )
                        &&& r.left <= r.right
                        &&& r.text@ == page.subrange(r.left as int, r.right as int)
                    }
                }
            },
        },
{
    if text.len() < snippet_length {
        return Snippet {
            page_index: None,
            start: 0,
            left: 0,
            right: text.len(),
            text: slice_to_vec(text),
        };
    }
    let pages = split_pages(text);
    proof {
        crate::pages::lemma_split_count(text@, PAGE_BREAK);
    }
    let pi = random_below(pages.len());
    let page = &pages[pi];
    proof {
        assert(page@ =~= spec_split(text@, PAGE_BREAK)[pi as int]);
    }
    if snippet_length >= page.len() || page.len() - snippet_length <= 1 {
        return Snippet {
            page_index: Some(pi),
            start: 0,
            left: 0,
            right: page.len(),
            text: slice_to_vec(page.as_slice()),
        };
    }
    let start = random_below(page.len() - snippet_length - 1);
    let left = get_left_index_trim(page.as_slice(), start, 1);
    let right = get_right_index_trim(page.as_slice(), start + snippet_length, 1);
    let text_out = slice_to_vec(&page.as_slice()[left..right]);
    Snippet { page_index: Some(pi), start, left, right, text: text_out }
}

} // verus!

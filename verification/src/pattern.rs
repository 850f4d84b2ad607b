//! The pattern matcher: a compiled, case-insensitive regular expression over
//! bytes, together with the specification-level names for what the regex
//! engine computes.
//!
//! The search is always case-insensitive: the user's pattern is wrapped in
//! the `(?i)` modifier before compilation, whatever its literal casing.
//! Matching itself is delegated to the `regex` crate; everything around the
//! two trusted calls — iterating the non-overlapping match list, error
//! shaping — is verified.

use vstd::prelude::*;
use vstd::string::StringExecFns;

verus! {

#[verifier::external_type_specification]
#[verifier::external_body]
pub struct ExRegex(regex::bytes::Regex);

/// Whether the regex engine accepts `pattern` (wrapped in `(?i)`) as valid
/// syntax.  Compilation is a pure function of the pattern text.
pub uninterp spec fn spec_pattern_valid(pattern: Seq<char>) -> bool;

/// The match that the compiled case-insensitive regex for `pattern` reports
/// on `haystack` when the search starts at byte offset `from`: the byte span
/// `[start, end)` of the leftmost match beginning at or after `from`, or
/// `None`.  The result is a pure function of the three arguments.
pub uninterp spec fn spec_find_at(pattern: Seq<char>, haystack: Seq<u8>, from: int) -> Option<
    (usize, usize),
>;

/// Relies on `regex::bytes::Regex::new`: compiling `"(?i)"` followed by the
/// pattern succeeds exactly when the pattern is acceptable syntax, and the
/// outcome depends on the pattern text alone.  On failure the engine's
/// diagnostic is rendered to text.
#[verifier::external_body]
fn compile_case_insensitive(pattern: &str) -> (r: Result<regex::bytes::Regex, String>)
    ensures
        r is Ok <==> spec_pattern_valid(pattern@),
{
    match regex::bytes::Regex::new(&format!("(?i){}", pattern)) {
        Ok(re) => Ok(re),
        Err(e) => Err(format!("{}", e)),
    }
}

/// A pattern that could not be compiled: the offending pattern text and the
/// regex engine's diagnostic.  Fatal for the whole search invocation.
#[derive(Clone, PartialEq, Eq, Debug)]
pub struct PatternError {
    pub pattern: String,
    pub message: String,
}

impl PatternError {
    /// The error as printed: the offending pattern and the engine's
    /// diagnostic.
    pub fn error_text(&self) -> (r: String)
        ensures
            r@ == self.pattern@ + ": "@ + self.message@,
    {
        let mut s = self.pattern.clone();
        s.append(": ");
        s.append(self.message.as_str());
        proof {
            assert(s@ =~= self.pattern@ + ": "@ + self.message@);
        }
        s
    }
}

/// An immutable compiled case-insensitive regular expression, reused across
/// all lines and pages of one search.
#[derive(Debug)]
pub struct Pattern {
    re: regex::bytes::Regex,
    text: String,
}

impl View for Pattern {
    type V = Seq<char>;

    /// A pattern is abstracted by its source text; `re` is always its
    /// case-insensitive compilation, established by the one constructor.
    closed spec fn view(&self) -> Seq<char> {
        self.text@
    }
}

impl Pattern {
    /// Compile a user-supplied pattern, unconditionally case-insensitive.
    /// Fails exactly on invalid pattern syntax.
    pub fn compile(pattern: &str) -> (r: Result<Pattern, PatternError>)
        ensures
            r is Ok <==> spec_pattern_valid(pattern@),
            r matches Ok(p) ==> p@ == pattern@,
            r matches Err(e) ==> e.pattern@ == pattern@,
    {
        match compile_case_insensitive(pattern) {
            Ok(re) => Ok(Pattern { re, text: pattern.to_owned() }),
            Err(message) => Err(PatternError { pattern: pattern.to_owned(), message }),
        }
    }

    /// Relies on `regex::bytes::Regex::find_at`: reports the leftmost match
    /// beginning at or after `from`, as a byte span within the whole
    /// haystack, with `from <= start <= end <= haystack.len()`; it panics
    /// only when `from` exceeds the haystack's length, which the
    /// precondition rules out.
    #[verifier::external_body]
    pub fn find_from(&self, haystack: &[u8], from: usize) -> (r: Option<(usize, usize)>)
        requires
            from <= haystack@.len(),
        ensures
            r == spec_find_at(self@, haystack@, from as int),
            r matches Some(m) ==> from <= m.0 && m.0 <= m.1 && m.1 <= haystack@.len(),
    {
        match self.re.find_at(haystack, from) {
            Some(m) => Some((m.start(), m.end())),
            None => None,
        }
    }

    /// The leftmost match at or after byte 0, or `None`.
    pub fn find_first(&self, haystack: &[u8]) -> (r: Option<(usize, usize)>)
        ensures
            r == spec_find_at(self@, haystack@, 0),
    {
        self.find_from(haystack, 0)
    }

    /// All non-overlapping matches in `haystack`, leftmost first, scanning
    /// forward from byte offset `from`.
    pub fn find_all(&self, haystack: &[u8], from: usize) -> (r: Vec<(usize, usize)>)
        requires
            from <= haystack@.len(),
        ensures
            r@ == match_list(self@, haystack@, from as int),
    {
        let mut out: Vec<(usize, usize)> = Vec::new();
        let mut pos: usize = from;
        let mut finished: bool = false;
        let ghost total = match_list(self@, haystack@, from as int);
        proof {
            assert(Seq::<(usize, usize)>::empty() + match_list(self@, haystack@, pos as int)
                =~= match_list(self@, haystack@, pos as int));
        }
        while !finished
            invariant
                from <= pos <= haystack@.len(),
                !finished ==> total == out@ + match_list(self@, haystack@, pos as int),
                finished ==> total == out@,
            decreases haystack@.len() - pos, (if finished {
                0int
            } else {
                1int
            }),
        {
            let ghost prev = out@;
            match self.find_from(haystack, pos) {
                None => {
                    proof {
                        assert(match_list(self@, haystack@, pos as int) =~= Seq::empty());
                        assert(prev + Seq::<(usize, usize)>::empty() =~= prev);
                    }
                    finished = true;
                },
                Some(m) => {
                    let (s, e) = m;
                    let ghost next_spec: int = if m.0 < m.1 {
                        m.1 as int
                    } else {
                        m.0 + 1
                    };
                    proof {
                        assert(match_list(self@, haystack@, pos as int) == seq![m] + match_list(
                            self@,
                            haystack@,
                            next_spec,
                        ));
                    }
                    out.push(m);
                    proof {
                        assert(out@ =~= prev + seq![m]);
                        assert(prev + (seq![m] + match_list(self@, haystack@, next_spec)) =~= (prev
                            + seq![m]) + match_list(self@, haystack@, next_spec));
                    }
                    if s < e {
                        pos = e;
                    } else if s < haystack.len() {
                        pos = s + 1;
                    } else {
                        proof {
                            assert(match_list(self@, haystack@, next_spec) =~= Seq::empty());
                            assert(out@ + Seq::<(usize, usize)>::empty() =~= out@);
                        }
                        finished = true;
                    }
                },
            }
        }
        out
    }
}

/// The full list of non-overlapping match spans the case-insensitive regex
/// for `p` reports on `hay`, scanning forward from `from`, leftmost first.
/// After a non-empty match the scan resumes at its end; after an empty match
/// it advances one byte so that the scan always progresses.
pub open spec fn match_list(p: Seq<char>, hay: Seq<u8>, from: int) -> Seq<(usize, usize)>
    decreases hay.len() + 1 - from
        when from >= 0
{
    if from > hay.len() {
        Seq::empty()
    } else {
        match spec_find_at(p, hay, from) {
            Option::None => Seq::empty(),
            Option::Some(m) => {
                if from <= m.0 && m.0 <= m.1 && m.1 <= hay.len() {
                    seq![m] + match_list(
                        p,
                        hay,
                        if m.0 < m.1 {
                            m.1 as int
                        } else {
                            m.0 + 1
                        },
                    )
                } else {
                    Seq::empty()
                }
            },
        }
    }
}

/// Spans are orderly within the window `[lo, hi]`: each span is non-inverted
/// and lies inside the window, the first starts at or after `lo`, and every
/// later span starts at or after the previous span's end.
pub open spec fn spans_chain(ms: Seq<(usize, usize)>, lo: int, hi: int) -> bool
    decreases ms.len(),
{
    ms.len() == 0 || {
        &&& lo <= ms[0].0
        &&& ms[0].0 <= ms[0].1
        &&& ms[0].1 <= hi
        &&& spans_chain(ms.drop_first(), ms[0].1 as int, hi)
    }
}

/// An orderly chain stays orderly when the window's left edge moves left.
pub proof fn lemma_chain_widen_left(ms: Seq<(usize, usize)>, lo: int, hi: int, lo2: int)
    requires
        spans_chain(ms, lo, hi),
        lo2 <= lo,
    ensures
        spans_chain(ms, lo2, hi),
{
}

/// Every span of an orderly chain lies within the window.
pub proof fn lemma_chain_bounds(ms: Seq<(usize, usize)>, lo: int, hi: int)
    requires
        spans_chain(ms, lo, hi),
    ensures
        forall|i: int|
            0 <= i < ms.len() ==> lo <= (#[trigger] ms[i]).0 && ms[i].0 <= ms[i].1 && ms[i].1
                <= hi,
    decreases ms.len(),
{
    if ms.len() > 0 {
        lemma_chain_bounds(ms.drop_first(), ms[0].1 as int, hi);
        assert forall|i: int|
            0 <= i < ms.len() implies lo <= (#[trigger] ms[i]).0 && ms[i].0 <= ms[i].1 && ms[i].1
            <= hi by {
            if i > 0 {
                assert(ms[i] == ms.drop_first()[i - 1]);
            }
        }
    }
}

/// An orderly chain whose spans all fit a second window `[lo2, hi2]` is
/// orderly there too: it suffices that `lo2` is at or before the first span's
/// start and `hi2` at or after the last span's end.
pub proof fn lemma_chain_rewindow(ms: Seq<(usize, usize)>, lo: int, hi: int, lo2: int, hi2: int)
    requires
        spans_chain(ms, lo, hi),
        ms.len() > 0,
        lo2 <= ms[0].0,
        ms[ms.len() - 1].1 <= hi2,
    ensures
        spans_chain(ms, lo2, hi2),
        ms[0].1 <= hi2,
    decreases ms.len(),
{
    let tail = ms.drop_first();
    if tail.len() == 0 {
        assert(ms[0].1 <= hi2);
        assert(spans_chain(tail, ms[0].1 as int, hi2));
    } else {
        assert(tail[tail.len() - 1] == ms[ms.len() - 1]);
        assert(spans_chain(tail, ms[0].1 as int, hi));
        assert(ms[0].1 <= tail[0].0);
        lemma_chain_rewindow(tail, ms[0].1 as int, hi, ms[0].1 as int, hi2);
        assert(ms[0].1 <= tail[0].0);
        assert(tail[0].0 <= tail[0].1);
        assert(tail[0].1 <= hi2);
    }
}

/// The match list scanned from `from` is an orderly chain within
/// `[from, hay.len()]`.
pub proof fn lemma_match_list_chain(p: Seq<char>, hay: Seq<u8>, from: int)
    requires
        0 <= from,
    ensures
        spans_chain(match_list(p, hay, from), from, hay.len() as int),
    decreases hay.len() + 1 - from,
{
    let ml = match_list(p, hay, from);
    if from > hay.len() {
    } else {
        match spec_find_at(p, hay, from) {
            Option::None => {},
            Option::Some(m) => {
                if from <= m.0 && m.0 <= m.1 && m.1 <= hay.len() {
                    let next: int = if m.0 < m.1 {
                        m.1 as int
                    } else {
                        m.0 + 1
                    };
                    lemma_match_list_chain(p, hay, next);
                    lemma_chain_widen_left(match_list(p, hay, next), next, hay.len() as int,
                        m.1 as int);
                    assert(ml == seq![m] + match_list(p, hay, next));
                    assert(ml.drop_first() =~= match_list(p, hay, next));
                }
            },
        }
    }
}

} // verus!

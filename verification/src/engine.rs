//! The search engine: drives the pattern matcher and the line trimmer over
//! each page's lines and emits an ordered stream of render events — one file
//! header, a page header for each page with at least one matched line, and
//! for every matched line its number followed by alternating plain and
//! matched segments — closing with a footer carrying the per-file count.
//!
//! The count is incremented once per line with at least one match, not once
//! per match occurrence.  Line numbers are 1-based and restart on each page;
//! page numbers are 1-based.  A line containing a NUL byte is taken as the
//! start of binary content and stops the scan of its page.

use vstd::prelude::*;
use vstd::slice::slice_to_vec;

use crate::pattern::match_list;
use crate::pattern::spans_chain;
use crate::pattern::lemma_chain_bounds;
use crate::pattern::lemma_chain_rewindow;
use crate::pattern::lemma_match_list_chain;
use crate::pattern::Pattern;
use crate::pattern::PatternError;
use crate::pattern::spec_pattern_valid;
use crate::pattern::spec_find_at;
use crate::pages::spec_split;
use crate::pages::split_lines;
use crate::pages::split_pages;
use crate::utils::get_left_index_trim;
use crate::utils::get_right_index_trim;
use crate::utils::spec_left_trim;
use crate::utils::spec_right_trim;
use crate::settings::ShortenLineMode;
use crate::LINE_BREAK;
use crate::PAGE_BREAK;

verus! {

/// The style of a render segment.
#[derive(Clone, Copy, PartialEq, Eq, Structural, Debug)]
pub enum Style {
    /// A matched span of a line.
    Match,
    /// Plain line text between matches.
    Text,
    /// File headers, page headers and the footer.
    Info,
    /// Line-number prefixes and ellipses.
    Extra,
}

/// One render event, as the engine emits it and the renderer consumes it.
#[derive(Clone, PartialEq, Eq, Debug)]
pub enum RenderEvent {
    /// The start of a file's output; carries the path being searched.
    FileHeader { path: String },
    /// The first matched line of a page announces the 1-based page number.
    PageHeader { page: usize },
    /// A matched line's 1-based line number, restarting on each page.
    LinePrefix { line: usize },
    /// A `..` marker where a shortened line was cut.
    Ellipsis,
    /// A run of bytes sharing one style.
    Segment { bytes: Vec<u8>, style: Style },
    /// The end of a matched line's segments.
    LineBreak,
    /// The end of a file's output; carries the count of matched lines.
    Footer { count: usize },
}

/// The specification-level value of a render event.
pub enum EventV {
    FileHeader { path: Seq<char> },
    PageHeader { page: usize },
    LinePrefix { line: usize },
    Ellipsis,
    Segment { bytes: Seq<u8>, style: Style },
    LineBreak,
    Footer { count: usize },
}

impl View for RenderEvent {
    type V = EventV;

    open spec fn view(&self) -> EventV {
        match self {
            RenderEvent::FileHeader { path } => EventV::FileHeader { path: path@ },
            RenderEvent::PageHeader { page } => EventV::PageHeader { page: *page },
            RenderEvent::LinePrefix { line } => EventV::LinePrefix { line: *line },
            RenderEvent::Ellipsis => EventV::Ellipsis,
            RenderEvent::Segment { bytes, style } => EventV::Segment {
                bytes: bytes@,
                style: *style,
            },
            RenderEvent::LineBreak => EventV::LineBreak,
            RenderEvent::Footer { count } => EventV::Footer { count: *count },
        }
    }
}

impl DeepView for RenderEvent {
    type V = EventV;

    open spec fn deep_view(&self) -> EventV {
        self.view()
    }
}

/// Append one event, extending the stream's view by the event's view.
fn push_event(events: &mut Vec<RenderEvent>, e: RenderEvent)
    ensures
        final(events).deep_view() == old(events).deep_view().push(e@),
{
    let ghost v = e@;
    let ghost prev = events.deep_view();
    events.push(e);
    proof {
        assert(events.deep_view() =~= prev.push(v));
    }
}

/// The styled segments covering `line[pos..hi]`: for each match span a
/// `Match` segment, a plain `Text` segment for each non-empty gap before a
/// match, and a final `Text` segment for what is left after the last match.
pub open spec fn seg_events(line: Seq<u8>, ms: Seq<(usize, usize)>, pos: int, hi: int) -> Seq<
    EventV,
>
    recommends
        0 <= pos <= hi <= line.len(),
        spans_chain(ms, pos, hi),
    decreases ms.len(),
{
    if ms.len() == 0 {
        if pos < hi {
            seq![EventV::Segment { bytes: line.subrange(pos, hi), style: Style::Text }]
        } else {
            Seq::empty()
        }
    } else {
        let m = ms[0];
        let gap: Seq<EventV> = if pos < m.0 {
            seq![EventV::Segment { bytes: line.subrange(pos, m.0 as int), style: Style::Text }]
        } else {
            Seq::empty()
        };
        gap + seq![
            EventV::Segment { bytes: line.subrange(m.0 as int, m.1 as int), style: Style::Match },
        ] + seg_events(line, ms.drop_first(), m.1 as int, hi)
    }
}

/// The bytes of a stream's `Segment` events, concatenated in order.
pub open spec fn seg_bytes(evs: Seq<EventV>) -> Seq<u8>
    decreases evs.len(),
{
    if evs.len() == 0 {
        Seq::empty()
    } else {
        (match evs[0] {
            EventV::Segment { bytes, style } => bytes,
            _ => Seq::empty(),
        }) + seg_bytes(evs.drop_first())
    }
}

/// The segment bytes of a one-event stream are that event's bytes.
pub proof fn lemma_seg_bytes_one(e: EventV)
    ensures
        seg_bytes(seq![e]) == (match e {
            EventV::Segment { bytes, style } => bytes,
            _ => Seq::<u8>::empty(),
        }),
{
    let evs = seq![e];
    assert(evs.drop_first() =~= Seq::<EventV>::empty());
    assert(seg_bytes(Seq::<EventV>::empty()) == Seq::<u8>::empty());
    let h: Seq<u8> = match e {
        EventV::Segment { bytes, style } => bytes,
        _ => Seq::<u8>::empty(),
    };
    assert(evs[0] == e);
    assert(seg_bytes(evs) == h + Seq::<u8>::empty());
    assert(h + Seq::<u8>::empty() =~= h);
}

/// Segment bytes distribute over concatenation of event streams.
pub proof fn lemma_seg_bytes_concat(a: Seq<EventV>, b: Seq<EventV>)
    ensures
        seg_bytes(a + b) == seg_bytes(a) + seg_bytes(b),
    decreases a.len(),
{
    if a.len() == 0 {
        assert(a + b =~= b);
        assert(seg_bytes(a) + seg_bytes(b) =~= seg_bytes(b));
    } else {
        assert((a + b).len() > 0);
        assert((a + b)[0] == a[0]);
        assert((a + b).drop_first() =~= a.drop_first() + b);
        lemma_seg_bytes_concat(a.drop_first(), b);
        let h: Seq<u8> = match a[0] {
            EventV::Segment { bytes, style } => bytes,
            _ => Seq::empty(),
        };
        assert(h + (seg_bytes(a.drop_first()) + seg_bytes(b)) =~= (h + seg_bytes(a.drop_first()))
            + seg_bytes(b));
    }
}

/// Law: the segments covering a window concatenate back to exactly that
/// window of the line.
pub proof fn lemma_seg_events_concat(line: Seq<u8>, ms: Seq<(usize, usize)>, pos: int, hi: int)
    requires
        0 <= pos <= hi <= line.len(),
        spans_chain(ms, pos, hi),
    ensures
        seg_bytes(seg_events(line, ms, pos, hi)) == line.subrange(pos, hi),
    decreases ms.len(),
{
    if ms.len() == 0 {
        if pos < hi {
            lemma_seg_bytes_one(
                EventV::Segment { bytes: line.subrange(pos, hi), style: Style::Text },
            );
        } else {
            assert(line.subrange(pos, hi) =~= Seq::empty());
        }
    } else {
        let m = ms[0];
        lemma_seg_events_concat(line, ms.drop_first(), m.1 as int, hi);
        let gap: Seq<EventV> = if pos < m.0 {
            seq![EventV::Segment { bytes: line.subrange(pos, m.0 as int), style: Style::Text }]
        } else {
            Seq::empty()
        };
        let mid = seq![
            EventV::Segment { bytes: line.subrange(m.0 as int, m.1 as int), style: Style::Match },
        ];
        let tail = seg_events(line, ms.drop_first(), m.1 as int, hi);
        lemma_seg_bytes_concat(gap + mid, tail);
        lemma_seg_bytes_concat(gap, mid);
        assert(seg_events(line, ms, pos, hi) == (gap + mid) + tail);
        lemma_seg_bytes_one(
            EventV::Segment { bytes: line.subrange(m.0 as int, m.1 as int), style: Style::Match },
        );
        if pos < m.0 {
            lemma_seg_bytes_one(
                EventV::Segment { bytes: line.subrange(pos, m.0 as int), style: Style::Text },
            );
        } else {
            assert(seg_bytes(gap) == Seq::<u8>::empty());
            assert(pos == m.0);
        }
        assert(line.subrange(pos, m.0 as int) + line.subrange(m.0 as int, m.1 as int)
            + line.subrange(m.1 as int, hi) =~= line.subrange(pos, hi));
        if pos == m.0 {
            assert(line.subrange(pos, m.0 as int) =~= Seq::empty());
            assert(Seq::<u8>::empty() + line.subrange(m.0 as int, m.1 as int) =~= line.subrange(
                m.0 as int,
                m.1 as int,
            ));
        }
    }
}

/// Emit the styled segments covering `line[lo..hi]` around the orderly match
/// spans `ms`.
fn emit_segments(line: &[u8], ms: &Vec<(usize, usize)>, lo: usize, hi: usize, events: &mut Vec<
    RenderEvent,
>)
    requires
        lo <= hi <= line@.len(),
        spans_chain(ms@, lo as int, hi as int),
    ensures
        final(events).deep_view() == old(events).deep_view() + seg_events(
            line@,
            ms@,
            lo as int,
            hi as int,
        ),
{
    let ghost base = events.deep_view();
    let ghost whole = seg_events(line@, ms@, lo as int, hi as int);
    let mut pos: usize = lo;
    let mut j: usize = 0;
    proof {
        assert(ms@.skip(0) =~= ms@);
    }
    while j < ms.len()
        invariant
            lo <= pos <= hi <= line@.len(),
            j <= ms@.len(),
            spans_chain(ms@.skip(j as int), pos as int, hi as int),
            base + whole == events.deep_view() + seg_events(
                line@,
                ms@.skip(j as int),
                pos as int,
                hi as int,
            ),
        decreases ms@.len() - j,
    {
        let ghost rest = ms@.skip(j as int);
        let ghost rest1 = ms@.skip(j + 1);
        let (s, e) = ms[j];
        proof {
            assert(rest[0] == ms@[j as int]);
            assert(rest.drop_first() =~= rest1);
            lemma_chain_bounds(rest, pos as int, hi as int);
        }
        let ghost gap: Seq<EventV> = if pos < s {
            seq![
                EventV::Segment { bytes: line@.subrange(pos as int, s as int), style: Style::Text },
            ]
        } else {
            Seq::empty()
        };
        let ghost mid = seq![
            EventV::Segment {
                bytes: line@.subrange(s as int, e as int),
                style: Style::Match,
            },
        ];
        proof {
            assert(seg_events(line@, rest, pos as int, hi as int) == gap + mid + seg_events(
                line@,
                rest1,
                e as int,
                hi as int,
            ));
        }
        let ghost before = events.deep_view();
        if pos < s {
            let bytes = slice_to_vec(&line[pos..s]);
            push_event(events, RenderEvent::Segment { bytes, style: Style::Text });
        }
        let bytes = slice_to_vec(&line[s..e]);
        push_event(events, RenderEvent::Segment { bytes, style: Style::Match });
        proof {
            assert(events.deep_view() =~= before + gap + mid);
            assert((before + gap + mid) + seg_events(line@, rest1, e as int, hi as int) =~= before
                + (gap + mid + seg_events(line@, rest1, e as int, hi as int)));
        }
        pos = e;
        j = j + 1;
    }
    proof {
        assert(ms@.skip(j as int) =~= Seq::<(usize, usize)>::empty());
    }
    if pos < hi {
        let ghost before = events.deep_view();
        let bytes = slice_to_vec(&line[pos..hi]);
        push_event(events, RenderEvent::Segment { bytes, style: Style::Text });
        proof {
            assert(seg_events(line@, ms@.skip(j as int), pos as int, hi as int) =~= seq![
                EventV::Segment {
                    bytes: line@.subrange(pos as int, hi as int),
                    style: Style::Text,
                },
            ]);
            assert(events.deep_view() =~= before + seg_events(
                line@,
                ms@.skip(j as int),
                pos as int,
                hi as int,
            ));
        }
    } else {
        proof {
            assert(seg_events(line@, ms@.skip(j as int), pos as int, hi as int)
                =~= Seq::<EventV>::empty());
            assert(events.deep_view() + Seq::<EventV>::empty() =~= events.deep_view());
        }
    }
}

/// The events for one matched line: its 1-based number, then — for `Off` —
/// the segments of the whole line, or — for `Trim` — the segments of the
/// window that keeps `ctx` bytes of whitespace-snapped context around the
/// matches, flanked by ellipses where the window cut the line.
pub open spec fn spec_line_events(
    line: Seq<u8>,
    ms: Seq<(usize, usize)>,
    line_no: usize,
    mode: ShortenLineMode,
) -> Seq<EventV>
    recommends
        ms.len() > 0,
        spans_chain(ms, 0, line.len() as int),
{
    match mode {
        ShortenLineMode::Off => seq![EventV::LinePrefix { line: line_no }] + seg_events(
            line,
            ms,
            0,
            line.len() as int,
        ) + seq![EventV::LineBreak],
        ShortenLineMode::Trim(ctx) => {
            let lb = spec_left_trim(line, ms[0].0 as int, ctx as int);
            let rb = spec_right_trim(line, ms[ms.len() - 1].1 as int, ctx as int);
            seq![EventV::LinePrefix { line: line_no }] + (if lb > 0 {
                seq![EventV::Ellipsis]
            } else {
                Seq::empty()
            }) + seg_events(line, ms, lb, rb) + (if rb < line.len() {
                seq![EventV::Ellipsis]
            } else {
                Seq::empty()
            }) + seq![EventV::LineBreak]
        },
    }
}

/// Emit one matched line: its number prefix and its styled segments, trimmed
/// to the context window when shortening is on.
fn emit_line(
    line: &[u8],
    line_no: usize,
    ms: &Vec<(usize, usize)>,
    mode: ShortenLineMode,
    events: &mut Vec<RenderEvent>,
)
    requires
        ms@.len() > 0,
        spans_chain(ms@, 0, line@.len() as int),
    ensures
        final(events).deep_view() == old(events).deep_view() + spec_line_events(
            line@,
            ms@,
            line_no,
            mode,
        ),
{
    let ghost base = events.deep_view();
    let ghost prefix = seq![EventV::LinePrefix { line: line_no }];
    push_event(events, RenderEvent::LinePrefix { line: line_no });
    proof {
        assert(events.deep_view() =~= base + prefix);
        lemma_chain_bounds(ms@, 0, line@.len() as int);
    }
    match mode {
        ShortenLineMode::Off => {
            emit_segments(line, ms, 0, line.len(), events);
            let ghost segs = seg_events(line@, ms@, 0, line@.len() as int);
            push_event(events, RenderEvent::LineBreak);
            proof {
                assert(events.deep_view() =~= ((base + prefix) + segs).push(EventV::LineBreak));
                assert(((base + prefix) + segs).push(EventV::LineBreak) =~= base + (prefix + segs
                    + seq![EventV::LineBreak]));
            }
        },
        ShortenLineMode::Trim(ctx) => {
            let first_start = ms[0].0;
            let last_end = ms[ms.len() - 1].1;
            let lb = get_left_index_trim(line, first_start, ctx);
            let rb = get_right_index_trim(line, last_end, ctx);
            proof {
                lemma_chain_rewindow(ms@, 0, line@.len() as int, lb as int, rb as int);
            }
            let ghost ell_l: Seq<EventV> = if lb > 0 {
                seq![EventV::Ellipsis]
            } else {
                Seq::empty()
            };
            let ghost segs = seg_events(line@, ms@, lb as int, rb as int);
            let ghost ell_r: Seq<EventV> = if rb < line@.len() {
                seq![EventV::Ellipsis]
            } else {
                Seq::empty()
            };
            if lb > 0 {
                push_event(events, RenderEvent::Ellipsis);
            }
            proof {
                assert(events.deep_view() =~= base + prefix + ell_l);
            }
            emit_segments(line, ms, lb, rb, events);
            if rb < line.len() {
                push_event(events, RenderEvent::Ellipsis);
            }
            proof {
                assert(events.deep_view() =~= base + prefix + ell_l + segs + ell_r);
            }
            push_event(events, RenderEvent::LineBreak);
            proof {
                assert(events.deep_view() =~= (base + prefix + ell_l + segs + ell_r).push(
                    EventV::LineBreak,
                ));
                assert((base + prefix + ell_l + segs + ell_r).push(EventV::LineBreak) =~= base + (
                prefix + ell_l + segs + ell_r + seq![EventV::LineBreak]));
            }
        },
    }
}

/// Whether a line holds a NUL byte — the binary-content signal that stops
/// the scan of its page.
pub open spec fn contains_nul(line: Seq<u8>) -> bool {
    exists|k: int| 0 <= k < line.len() && line[k] == 0
}

/// Scan a line for a NUL byte.
fn has_nul(line: &[u8]) -> (r: bool)
    ensures
        r == contains_nul(line@),
{
    let mut k: usize = 0;
    while k < line.len()
        invariant
            k <= line@.len(),
            forall|t: int| 0 <= t < k ==> line@[t] != 0,
        decreases line@.len() - k,
    {
        if line[k] == 0 {
            proof {
                assert(line@[k as int] == 0);
            }
            return true;
        }
        k = k + 1;
    }
    false
}

/// Walk a page's lines from index `i`: lines without a match emit nothing,
/// the first matched line emits the page header once, every matched line
/// emits its events and counts one, and a line holding a NUL byte stops the
/// page.  Returns the events and the count of matched lines.
pub open spec fn spec_lines_walk(
    p: Seq<char>,
    lines: Seq<Seq<u8>>,
    i: int,
    page_no: usize,
    header_done: bool,
    mode: ShortenLineMode,
) -> (Seq<EventV>, int)
    decreases lines.len() - i
        when 0 <= i <= lines.len()
{
    if i >= lines.len() {
        (Seq::empty(), 0)
    } else if contains_nul(lines[i]) {
        (Seq::empty(), 0)
    } else {
        let ms = match_list(p, lines[i], 0);
        if ms.len() == 0 {
            spec_lines_walk(p, lines, i + 1, page_no, header_done, mode)
        } else {
            let hdr: Seq<EventV> = if header_done {
                Seq::empty()
            } else {
                seq![EventV::PageHeader { page: page_no }]
            };
            let r = spec_lines_walk(p, lines, i + 1, page_no, true, mode);
            (hdr + spec_line_events(lines[i], ms, (i + 1) as usize, mode) + r.0, 1 + r.1)
        }
    }
}

/// The events and matched-line count of one page.
pub open spec fn spec_page(p: Seq<char>, page: Seq<u8>, page_no: usize, mode: ShortenLineMode) -> (
    Seq<EventV>,
    int,
) {
    spec_lines_walk(p, spec_split(page, LINE_BREAK), 0, page_no, false, mode)
}

/// A walk counts at most one match per line it can still visit.
proof fn lemma_lines_walk_count(
    p: Seq<char>,
    lines: Seq<Seq<u8>>,
    i: int,
    page_no: usize,
    header_done: bool,
    mode: ShortenLineMode,
)
    requires
        0 <= i <= lines.len(),
    ensures
        0 <= spec_lines_walk(p, lines, i, page_no, header_done, mode).1 <= lines.len() - i,
    decreases lines.len() - i,
{
    if i < lines.len() && !contains_nul(lines[i]) {
        if match_list(p, lines[i], 0).len() == 0 {
            lemma_lines_walk_count(p, lines, i + 1, page_no, header_done, mode);
        } else {
            lemma_lines_walk_count(p, lines, i + 1, page_no, true, mode);
        }
    }
}

/// Search one page: emit its events and return its matched-line count.
pub fn search_pdf_page(
    page: &[u8],
    page_no: usize,
    pattern: &Pattern,
    mode: ShortenLineMode,
    events: &mut Vec<RenderEvent>,
) -> (count: usize)
    ensures
        final(events).deep_view() == old(events).deep_view() + spec_page(
            pattern@,
            page@,
            page_no,
            mode,
        ).0,
        count == spec_page(pattern@, page@, page_no, mode).1,
{
    let ghost base = events.deep_view();
    let lines = split_lines(page);
    let ghost linesv = lines.deep_view();
    let ghost total = spec_lines_walk(pattern@, linesv, 0, page_no, false, mode);
    let mut count: usize = 0;
    let mut header_done: bool = false;
    let mut stopped: bool = false;
    let mut i: usize = 0;
    proof {
        assert(base + total.0 =~= events.deep_view() + total.0);
    }
    while i < lines.len() && !stopped
        invariant
            i <= lines@.len(),
            lines@.len() == linesv.len(),
            linesv == lines.deep_view(),
            linesv == spec_split(page@, LINE_BREAK),
            count <= i,
            !stopped ==> base + total.0 == events.deep_view() + spec_lines_walk(
                pattern@,
                linesv,
                i as int,
                page_no,
                header_done,
                mode,
            ).0,
            !stopped ==> total.1 == count + spec_lines_walk(
                pattern@,
                linesv,
                i as int,
                page_no,
                header_done,
                mode,
            ).1,
            stopped ==> base + total.0 == events.deep_view(),
            stopped ==> total.1 == count,
        decreases lines@.len() - i, (if stopped {
            0int
        } else {
            1int
        }),
    {
        let line = &lines[i];
        let ghost lv = linesv[i as int];
        proof {
            assert(line@ =~= lv);
        }
        if has_nul(line.as_slice()) {
            proof {
                assert(spec_lines_walk(pattern@, linesv, i as int, page_no, header_done, mode) == (
                Seq::<EventV>::empty(), 0int));
                assert(events.deep_view() + Seq::<EventV>::empty() =~= events.deep_view());
            }
            stopped = true;
        } else {
            let ms = pattern.find_all(line.as_slice(), 0);
            let ghost walk_here = spec_lines_walk(
                pattern@,
                linesv,
                i as int,
                page_no,
                header_done,
                mode,
            );
            if ms.len() == 0 {
                proof {
                    assert(walk_here == spec_lines_walk(
                        pattern@,
                        linesv,
                        i + 1,
                        page_no,
                        header_done,
                        mode,
                    ));
                }
                i = i + 1;
            } else {
                proof {
                    lemma_match_list_chain(pattern@, lv, 0);
                }
                let ghost hdr: Seq<EventV> = if header_done {
                    Seq::empty()
                } else {
                    seq![EventV::PageHeader { page: page_no }]
                };
                let ghost rest = spec_lines_walk(pattern@, linesv, i + 1, page_no, true, mode);
                proof {
                    assert(walk_here.0 == hdr + spec_line_events(lv, ms@, (i + 1) as usize, mode)
                        + rest.0);
                    assert(walk_here.1 == 1 + rest.1);
                }
                let ghost before = events.deep_view();
                if !header_done {
                    push_event(events, RenderEvent::PageHeader { page: page_no });
                    header_done = true;
                }
                proof {
                    assert(events.deep_view() =~= before + hdr);
                }
                emit_line(line.as_slice(), i + 1, &ms, mode, events);
                proof {
                    assert(events.deep_view() == (before + hdr) + spec_line_events(
                        lv,
                        ms@,
                        (i + 1) as usize,
                        mode,
                    ));
                    assert((before + hdr) + spec_line_events(lv, ms@, (i + 1) as usize, mode)
                        + rest.0 =~= before + (hdr + spec_line_events(
                        lv,
                        ms@,
                        (i + 1) as usize,
                        mode,
                    ) + rest.0));
                }
                count = count + 1;
                i = i + 1;
            }
        }
    }
    proof {
        if !stopped {
            assert(spec_lines_walk(pattern@, linesv, i as int, page_no, header_done, mode) == (
            Seq::<EventV>::empty(), 0int));
            assert(events.deep_view() + Seq::<EventV>::empty() =~= events.deep_view());
        }
    }
    count
}

/// Walk the pages from index `j`: each page's events in order, and the sum
/// of the pages' matched-line counts.  Page numbers are 1-based.
pub open spec fn spec_pages_walk(
    p: Seq<char>,
    pages: Seq<Seq<u8>>,
    j: int,
    mode: ShortenLineMode,
) -> (Seq<EventV>, int)
    decreases pages.len() - j
        when 0 <= j <= pages.len()
{
    if j >= pages.len() {
        (Seq::empty(), 0)
    } else {
        let pg = spec_page(p, pages[j], (j + 1) as usize, mode);
        let r = spec_pages_walk(p, pages, j + 1, mode);
        (pg.0 + r.0, pg.1 + r.1)
    }
}

/// A page walk counts at most one match per byte it can still visit, plus
/// one per page (a page has one line more than it has line feeds).
proof fn lemma_pages_walk_count(p: Seq<char>, pages: Seq<Seq<u8>>, j: int, mode: ShortenLineMode)
    requires
        0 <= j <= pages.len(),
    ensures
        0 <= spec_pages_walk(p, pages, j, mode).1 <= crate::pages::parts_total_len(pages.skip(j))
            + (pages.len() - j),
    decreases pages.len() - j,
{
    if j < pages.len() {
        lemma_pages_walk_count(p, pages, j + 1, mode);
        let lines = spec_split(pages[j], LINE_BREAK);
        lemma_lines_walk_count(p, lines, 0, (j + 1) as usize, false, mode);
        crate::pages::lemma_split_count(pages[j], LINE_BREAK);
        crate::pages::lemma_count_byte_le_len(pages[j], LINE_BREAK);
        assert(pages.skip(j).drop_first() =~= pages.skip(j + 1));
        assert(crate::pages::parts_total_len(pages.skip(j)) == pages.skip(j)[0].len()
            + crate::pages::parts_total_len(pages.skip(j + 1)));
        assert(pages.skip(j)[0] == pages[j]);
    } else {
        assert(pages.skip(j) =~= Seq::<Seq<u8>>::empty());
    }
}

/// The per-file matched-line count: summed over all pages.  One count per
/// line with at least one match, not one per match occurrence.
pub open spec fn spec_search_count(text: Seq<u8>, p: Seq<char>, mode: ShortenLineMode) -> int {
    spec_pages_walk(p, spec_split(text, PAGE_BREAK), 0, mode).1
}

/// The per-file event stream: the file header, each page's events in order,
/// and a footer carrying the per-file count.
pub open spec fn spec_search_events(
    text: Seq<u8>,
    path: Seq<char>,
    p: Seq<char>,
    mode: ShortenLineMode,
) -> Seq<EventV> {
    seq![EventV::FileHeader { path }] + spec_pages_walk(p, spec_split(text, PAGE_BREAK), 0, mode).0
        + seq![EventV::Footer { count: spec_search_count(text, p, mode) as usize }]
}

/// The per-file count never exceeds the number of lines in the text, which
/// is at most its length plus one.
pub proof fn lemma_search_count_bound(text: Seq<u8>, p: Seq<char>, mode: ShortenLineMode)
    ensures
        0 <= spec_search_count(text, p, mode) <= text.len() + 1,
{
    let pages = spec_split(text, PAGE_BREAK);
    crate::pages::lemma_split_count(text, PAGE_BREAK);
    crate::pages::lemma_split_total_len(text, PAGE_BREAK);
    lemma_pages_walk_count(p, pages, 0, mode);
    assert(pages.skip(0) =~= pages);
}

/// The per-file aggregate: the emitted event stream and the matched-line
/// count, finalized when all pages are processed.
#[derive(Debug)]
pub struct SearchResult {
    pub events: Vec<RenderEvent>,
    pub count: usize,
}

/// Search a file's extracted text with a compiled pattern: split it into
/// pages, scan each page line by line, and return the full render-event
/// stream together with the count of matched lines.
pub fn search_text(text: &[u8], path: &str, pattern: &Pattern, mode: ShortenLineMode) -> (r:
    SearchResult)
    requires
        text@.len() < usize::MAX,
    ensures
        r.events.deep_view() == spec_search_events(text@, path@, pattern@, mode),
        r.count == spec_search_count(text@, pattern@, mode),
{
    let mut events: Vec<RenderEvent> = Vec::new();
    let ghost hdr = seq![EventV::FileHeader { path: path@ }];
    proof {
        assert(events.deep_view() =~= Seq::<EventV>::empty());
    }
    push_event(&mut events, RenderEvent::FileHeader { path: path.to_owned() });
    proof {
        assert(Seq::<EventV>::empty().push(EventV::FileHeader { path: path@ }) =~= hdr);
    }
    let pages = split_pages(text);
    let ghost pagesv = pages.deep_view();
    let ghost walk_all = spec_pages_walk(pattern@, pagesv, 0, mode);
    let mut total: usize = 0;
    let mut j: usize = 0;
    proof {
        lemma_search_count_bound(text@, pattern@, mode);
        assert(hdr + walk_all.0 =~= events.deep_view() + walk_all.0);
    }
    while j < pages.len()
        invariant
            j <= pages@.len(),
            pages@.len() == pagesv.len(),
            pagesv == pages.deep_view(),
            pagesv == spec_split(text@, PAGE_BREAK),
            text@.len() < usize::MAX,
            walk_all == spec_pages_walk(pattern@, pagesv, 0, mode),
            walk_all.1 <= text@.len() + 1,
            hdr + walk_all.0 == events.deep_view() + spec_pages_walk(
                pattern@,
                pagesv,
                j as int,
                mode,
            ).0,
            walk_all.1 == total + spec_pages_walk(pattern@, pagesv, j as int, mode).1,
            0 <= total,
        decreases pages@.len() - j,
    {
        let page = &pages[j];
        let ghost pv = pagesv[j as int];
        proof {
            assert(page@ =~= pv);
        }
        let ghost walk_j = spec_pages_walk(pattern@, pagesv, j as int, mode);
        let ghost walk_j1 = spec_pages_walk(pattern@, pagesv, j + 1, mode);
        let ghost pg = spec_page(pattern@, pv, (j + 1) as usize, mode);
        proof {
            assert(walk_j.0 == pg.0 + walk_j1.0);
            assert(walk_j.1 == pg.1 + walk_j1.1);
            lemma_pages_walk_count(pattern@, pagesv, j + 1, mode);
        }
        let ghost before = events.deep_view();
        let c = search_pdf_page(page.as_slice(), j + 1, pattern, mode, &mut events);
        proof {
            assert((before + pg.0) + walk_j1.0 =~= before + (pg.0 + walk_j1.0));
        }
        total = total + c;
        j = j + 1;
    }
    proof {
        assert(spec_pages_walk(pattern@, pagesv, j as int, mode) == (Seq::<EventV>::empty(), 0int));
        assert(events.deep_view() + Seq::<EventV>::empty() =~= events.deep_view());
    }
    let ghost stream = events.deep_view();
    push_event(&mut events, RenderEvent::Footer { count: total });
    proof {
        assert(stream.push(EventV::Footer { count: total }) =~= (hdr + walk_all.0) + seq![
            EventV::Footer { count: total },
        ]);
        assert((hdr + walk_all.0) + seq![EventV::Footer { count: total }] =~= spec_search_events(
            text@,
            path@,
            pattern@,
            mode,
        ));
    }
    SearchResult { events, count: total }
}

/// Compile the pattern and search the text with it.  Fails — before any page
/// is processed — exactly when the pattern does not compile.
pub fn search_with_pattern(text: &[u8], path: &str, pattern_text: &str, mode: ShortenLineMode) -> (
    r: Result<SearchResult, PatternError>)
    requires
        text@.len() < usize::MAX,
    ensures
        r is Ok <==> spec_pattern_valid(pattern_text@),
        r matches Ok(sr) ==> sr.events.deep_view() == spec_search_events(
            text@,
            path@,
            pattern_text@,
            mode,
        ) && sr.count == spec_search_count(text@, pattern_text@, mode),
        r matches Err(e) ==> e.pattern@ == pattern_text@,
{
    match Pattern::compile(pattern_text) {
        Ok(p) => Ok(search_text(text, path, &p, mode)),
        Err(e) => Err(e),
    }
}

proof fn lemma_match_free_lines(
    p: Seq<char>,
    lines: Seq<Seq<u8>>,
    i: int,
    page_no: usize,
    header_done: bool,
    mode: ShortenLineMode,
)
    requires
        forall|hay: Seq<u8>| spec_find_at(p, hay, 0) is None,
        0 <= i <= lines.len(),
    ensures
        spec_lines_walk(p, lines, i, page_no, header_done, mode) == (Seq::<EventV>::empty(), 0int),
    decreases lines.len() - i,
{
    if i < lines.len() {
        if !contains_nul(lines[i]) {
            assert(spec_find_at(p, lines[i], 0) is None);
            assert(match_list(p, lines[i], 0) =~= Seq::<(usize, usize)>::empty());
            lemma_match_free_lines(p, lines, i + 1, page_no, header_done, mode);
        }
    }
}

proof fn lemma_match_free_pages(p: Seq<char>, pages: Seq<Seq<u8>>, j: int, mode: ShortenLineMode)
    requires
        forall|hay: Seq<u8>| spec_find_at(p, hay, 0) is None,
        0 <= j <= pages.len(),
    ensures
        spec_pages_walk(p, pages, j, mode) == (Seq::<EventV>::empty(), 0int),
    decreases pages.len() - j,
{
    if j < pages.len() {
        lemma_match_free_lines(p, spec_split(pages[j], LINE_BREAK), 0, (j + 1) as usize, false,
            mode);
        lemma_match_free_pages(p, pages, j + 1, mode);
        assert(Seq::<EventV>::empty() + Seq::<EventV>::empty() =~= Seq::<EventV>::empty());
    }
}

/// Law: with a pattern that matches no line, the engine emits zero line
/// entries and the per-file count is 0: the stream is just the file header
/// and a zero footer.
pub proof fn lemma_match_free_search(
    text: Seq<u8>,
    path: Seq<char>,
    p: Seq<char>,
    mode: ShortenLineMode,
)
    requires
        forall|hay: Seq<u8>| spec_find_at(p, hay, 0) is None,
    ensures
        spec_search_count(text, p, mode) == 0,
        spec_search_events(text, path, p, mode) == seq![
            EventV::FileHeader { path },
            EventV::Footer { count: 0 },
        ],
{
    let pages = spec_split(text, PAGE_BREAK);
    lemma_match_free_pages(p, pages, 0, mode);
    assert(seq![EventV::FileHeader { path }] + Seq::<EventV>::empty() + seq![
        EventV::Footer { count: 0 },
    ] =~= seq![EventV::FileHeader { path }, EventV::Footer { count: 0 }]);
}

/// Law: rendering a matched line without shortening reproduces the line
/// exactly — the styled segments, concatenated in order, give back the
/// line's bytes.
pub proof fn lemma_line_roundtrip(p: Seq<char>, line: Seq<u8>, line_no: usize)
    ensures
        seg_bytes(
            spec_line_events(line, match_list(p, line, 0), line_no, ShortenLineMode::Off),
        ) == line,
{
    let ms = match_list(p, line, 0);
    lemma_match_list_chain(p, line, 0);
    lemma_seg_events_concat(line, ms, 0, line.len() as int);
    let prefix = seq![EventV::LinePrefix { line: line_no }];
    let segs = seg_events(line, ms, 0, line.len() as int);
    let brk = seq![EventV::LineBreak];
    lemma_seg_bytes_concat(prefix + segs, brk);
    lemma_seg_bytes_concat(prefix, segs);
    lemma_seg_bytes_one(EventV::LinePrefix { line: line_no });
    lemma_seg_bytes_one(EventV::LineBreak);
    assert(spec_line_events(line, ms, line_no, ShortenLineMode::Off) == (prefix + segs) + brk);
    assert(Seq::<u8>::empty() + line.subrange(0, line.len() as int) + Seq::<u8>::empty()
        =~= line.subrange(0, line.len() as int));
    assert(line.subrange(0, line.len() as int) =~= line);
}

/// Law: with shortening on, the kept window's edges never cut into the
/// matched spans — the left boundary is at or before the first match's
/// start, the right boundary at or after the last match's end — and the
/// styled segments reproduce exactly the kept window of the line.
pub proof fn lemma_trimmed_roundtrip(p: Seq<char>, line: Seq<u8>, line_no: usize, ctx: usize)
    requires
        match_list(p, line, 0).len() > 0,
    ensures
        ({
            let ms = match_list(p, line, 0);
            let lb = spec_left_trim(line, ms[0].0 as int, ctx as int);
            let rb = spec_right_trim(line, ms[ms.len() - 1].1 as int, ctx as int);
            &&& 0 <= lb <= ms[0].0
            &&& ms[ms.len() - 1].1 <= rb <= line.len()
            &&& seg_bytes(spec_line_events(line, ms, line_no, ShortenLineMode::Trim(ctx)))
                == line.subrange(lb, rb)
        }),
{
    let ms = match_list(p, line, 0);
    lemma_match_list_chain(p, line, 0);
    lemma_chain_bounds(ms, 0, line.len() as int);
    crate::utils::lemma_trim_outside_match(line, ms[0].0 as int, ms[ms.len() - 1].1 as int,
        ctx as int);
    let lb = spec_left_trim(line, ms[0].0 as int, ctx as int);
    let rb = spec_right_trim(line, ms[ms.len() - 1].1 as int, ctx as int);
    lemma_chain_rewindow(ms, 0, line.len() as int, lb, rb);
    lemma_seg_events_concat(line, ms, lb, rb);
    let prefix = seq![EventV::LinePrefix { line: line_no }];
    let ell_l: Seq<EventV> = if lb > 0 {
        seq![EventV::Ellipsis]
    } else {
        Seq::empty()
    };
    let segs = seg_events(line, ms, lb, rb);
    let ell_r: Seq<EventV> = if rb < line.len() {
        seq![EventV::Ellipsis]
    } else {
        Seq::empty()
    };
    let brk = seq![EventV::LineBreak];
    assert(spec_line_events(line, ms, line_no, ShortenLineMode::Trim(ctx)) == (((prefix + ell_l)
        + segs) + ell_r) + brk);
    lemma_seg_bytes_concat(((prefix + ell_l) + segs) + ell_r, brk);
    lemma_seg_bytes_concat((prefix + ell_l) + segs, ell_r);
    lemma_seg_bytes_concat(prefix + ell_l, segs);
    lemma_seg_bytes_concat(prefix, ell_l);
    lemma_seg_bytes_one(EventV::LinePrefix { line: line_no });
    lemma_seg_bytes_one(EventV::LineBreak);
    if lb > 0 {
        lemma_seg_bytes_one(EventV::Ellipsis);
    } else {
        assert(seg_bytes(ell_l) == Seq::<u8>::empty());
    }
    if rb < line.len() {
        lemma_seg_bytes_one(EventV::Ellipsis);
    } else {
        assert(seg_bytes(ell_r) == Seq::<u8>::empty());
    }
    assert(Seq::<u8>::empty() + Seq::<u8>::empty() + line.subrange(lb, rb) + Seq::<u8>::empty()
        + Seq::<u8>::empty() =~= line.subrange(lb, rb));
}

/// Law: the engine is deterministic.  Two runs over identical input with
/// identical configuration yield identical event streams and identical
/// counts: each run's output equals one and the same function of its input,
/// as `search_text`'s contract states.
pub proof fn lemma_search_deterministic(
    text1: Seq<u8>,
    path1: Seq<char>,
    p1: Seq<char>,
    mode1: ShortenLineMode,
    text2: Seq<u8>,
    path2: Seq<char>,
    p2: Seq<char>,
    mode2: ShortenLineMode,
)
    requires
        text1 == text2,
        path1 == path2,
        p1 == p2,
        mode1 == mode2,
    ensures
        spec_search_events(text1, path1, p1, mode1) == spec_search_events(
            text2,
            path2,
            p2,
            mode2,
        ),
        spec_search_count(text1, p1, mode1) == spec_search_count(text2, p2, mode2),
{
}

} // verus!

//! The renderer: turns the engine's event stream into styled output chunks.
//! Each event becomes exactly one chunk — a run of bytes bound to one of the
//! four styles.  The sink that writes the chunks (setting the active style
//! before each run and resetting it at the end of a file) lies outside the
//! library; whether styles degrade to plain text is the sink's one-time,
//! per-process decision.

use vstd::prelude::*;
use vstd::string::StringSliceAdditionalSpecFns;

use crate::engine::EventV;
use crate::engine::RenderEvent;
use crate::engine::Style;
use crate::LINE_BREAK;

verus! {

/// The decimal digits of `n`, most significant first, as ASCII bytes.
pub open spec fn dec_digits(n: nat) -> Seq<u8>
    decreases n,
    via dec_digits_decreases
{
    if n < 10 {
        seq![(48 + n) as u8]
    } else {
        dec_digits(n / 10).push((48 + n % 10) as u8)
    }
}

#[via_fn]
proof fn dec_digits_decreases(n: nat) {
    assert(n >= 10 ==> n / 10 < n) by (nonlinear_arith);
}

/// The decimal rendering of `n`, most significant digit first.
pub fn dec_bytes(n: usize) -> (r: Vec<u8>)
    ensures
        r@ == dec_digits(n as nat),
{
    let mut rev: Vec<u8> = Vec::new();
    let mut m: usize = n;
    proof {
        assert(dec_digits(n as nat) =~= dec_digits(m as nat) + rev@.reverse());
    }
    while m >= 10
        invariant
            dec_digits(n as nat) == dec_digits(m as nat) + rev@.reverse(),
        decreases m,
    {
        let d: u8 = (48 + (m % 10)) as u8;
        let ghost prev = rev@;
        rev.push(d);
        proof {
            assert(dec_digits(m as nat) == dec_digits((m as nat) / 10).push(d));
            assert((m as nat) / 10 == (m / 10) as nat);
            assert(rev@.reverse() =~= seq![d] + prev.reverse());
            assert(dec_digits((m / 10) as nat) + (seq![d] + prev.reverse()) =~= dec_digits(
                (m / 10) as nat,
            ).push(d) + prev.reverse());
        }
        m = m / 10;
        proof {
            assert(m < 10 || m / 10 < m) by (nonlinear_arith);
        }
    }
    let d: u8 = (48 + m) as u8;
    let ghost prev = rev@;
    rev.push(d);
    proof {
        assert(dec_digits(m as nat) == seq![d]);
        assert(rev@.reverse() =~= seq![d] + prev.reverse());
        assert(seq![d] + prev.reverse() =~= dec_digits(m as nat) + prev.reverse());
        assert(dec_digits(n as nat) =~= rev@.reverse());
    }
    let mut r: Vec<u8> = Vec::new();
    let mut k: usize = rev.len();
    proof {
        assert(r@ =~= rev@.skip(k as int).reverse());
    }
    while k > 0
        invariant
            k <= rev@.len(),
            r@ == rev@.skip(k as int).reverse(),
        decreases k,
    {
        k = k - 1;
        let ghost prev_r = r@;
        r.push(rev[k]);
        proof {
            assert(r@ =~= rev@.skip(k as int).reverse());
        }
    }
    proof {
        assert(rev@.skip(0) =~= rev@);
    }
    r
}

/// A run of output bytes bound to one style.
#[derive(Clone, PartialEq, Eq, Debug)]
pub struct StyledChunk {
    pub style: Style,
    pub bytes: Vec<u8>,
}

/// The specification-level value of a styled chunk.
pub struct ChunkV {
    pub style: Style,
    pub bytes: Seq<u8>,
}

impl View for StyledChunk {
    type V = ChunkV;

    open spec fn view(&self) -> ChunkV {
        ChunkV { style: self.style, bytes: self.bytes@ }
    }
}

impl DeepView for StyledChunk {
    type V = ChunkV;

    open spec fn deep_view(&self) -> ChunkV {
        self.view()
    }
}

/// The one chunk an event renders to: headers and the footer in `Info`,
/// line numbers and ellipses in `Extra`, segments in their own style, line
/// ends as plain newlines.
pub open spec fn spec_render_event(e: EventV) -> ChunkV {
    match e {
        EventV::FileHeader { path } => ChunkV {
            style: Style::Info,
            bytes: "Searching: ".spec_bytes() + vstd::utf8::encode_utf8(path) + seq![LINE_BREAK],
        },
        EventV::PageHeader { page } => ChunkV {
            style: Style::Info,
            bytes: "Page: ".spec_bytes() + dec_digits(page as nat) + seq![LINE_BREAK],
        },
        EventV::LinePrefix { line } => ChunkV {
            style: Style::Extra,
            bytes: dec_digits(line as nat) + ": ".spec_bytes(),
        },
        EventV::Ellipsis => ChunkV { style: Style::Extra, bytes: "..".spec_bytes() },
        EventV::Segment { bytes, style } => ChunkV { style, bytes },
        EventV::LineBreak => ChunkV { style: Style::Text, bytes: seq![LINE_BREAK] },
        EventV::Footer { count } => ChunkV {
            style: Style::Info,
            bytes: "End of file: found ".spec_bytes() + dec_digits(count as nat)
                + " matches.".spec_bytes() + seq![LINE_BREAK, LINE_BREAK],
        },
    }
}

/// The chunk stream of a whole event stream, one chunk per event, in order.
pub open spec fn spec_render(evs: Seq<EventV>) -> Seq<ChunkV> {
    evs.map_values(|e: EventV| spec_render_event(e))
}

/// Render one event to its chunk.
fn render_event(e: &RenderEvent) -> (c: StyledChunk)
    ensures
        c@ == spec_render_event(e.deep_view()),
{
    match e {
        RenderEvent::FileHeader { path } => {
            let mut bytes: Vec<u8> = Vec::new();
            bytes.extend_from_slice("Searching: ".as_bytes());
            bytes.extend_from_slice(path.as_str().as_bytes());
            bytes.push(LINE_BREAK);
            proof {
                assert(bytes@ =~= "Searching: ".spec_bytes() + vstd::utf8::encode_utf8(path@)
                    + seq![LINE_BREAK]);
            }
            StyledChunk { style: Style::Info, bytes }
        },
        RenderEvent::PageHeader { page } => {
            let mut bytes: Vec<u8> = Vec::new();
            bytes.extend_from_slice("Page: ".as_bytes());
            let num = dec_bytes(*page);
            bytes.extend_from_slice(num.as_slice());
            bytes.push(LINE_BREAK);
            proof {
                assert(bytes@ =~= "Page: ".spec_bytes() + dec_digits(*page as nat) + seq![
                    LINE_BREAK,
                ]);
            }
            StyledChunk { style: Style::Info, bytes }
        },
        RenderEvent::LinePrefix { line } => {
            let mut bytes = dec_bytes(*line);
            bytes.extend_from_slice(": ".as_bytes());
            proof {
                assert(bytes@ =~= dec_digits(*line as nat) + ": ".spec_bytes());
            }
            StyledChunk { style: Style::Extra, bytes }
        },
        RenderEvent::Ellipsis => {
            let mut bytes: Vec<u8> = Vec::new();
            bytes.extend_from_slice("..".as_bytes());
            proof {
                assert(bytes@ =~= "..".spec_bytes());
            }
            StyledChunk { style: Style::Extra, bytes }
        },
        RenderEvent::Segment { bytes, style } => {
            let mut copy: Vec<u8> = Vec::new();
            copy.extend_from_slice(bytes.as_slice());
            proof {
                assert(copy@ =~= bytes@);
            }
            StyledChunk { style: *style, bytes: copy }
        },
        RenderEvent::LineBreak => {
            let mut bytes: Vec<u8> = Vec::new();
            bytes.push(LINE_BREAK);
            proof {
                assert(bytes@ =~= seq![LINE_BREAK]);
            }
            StyledChunk { style: Style::Text, bytes }
        },
        RenderEvent::Footer { count } => {
            let mut bytes: Vec<u8> = Vec::new();
            bytes.extend_from_slice("End of file: found ".as_bytes());
            let num = dec_bytes(*count);
            bytes.extend_from_slice(num.as_slice());
            bytes.extend_from_slice(" matches.".as_bytes());
            bytes.push(LINE_BREAK);
            bytes.push(LINE_BREAK);
            proof {
                assert(bytes@ =~= "End of file: found ".spec_bytes() + dec_digits(*count as nat)
                    + " matches.".spec_bytes() + seq![LINE_BREAK, LINE_BREAK]);
            }
            StyledChunk { style: Style::Info, bytes }
        },
    }
}

/// Render a whole event stream to its chunk stream: one chunk per event,
/// in event order.
pub fn render_events(events: &Vec<RenderEvent>) -> (r: Vec<StyledChunk>)
    ensures
        r.deep_view() == spec_render(events.deep_view()),
{
    let mut chunks: Vec<StyledChunk> = Vec::new();
    let ghost evs = events.deep_view();
    let mut i: usize = 0;
    proof {
        assert(chunks.deep_view() =~= spec_render(evs.take(0)));
    }
    while i < events.len()
        invariant
            i <= events@.len(),
            evs == events.deep_view(),
            evs.len() == events@.len(),
            chunks.deep_view() == spec_render(evs.take(i as int)),
        decreases events@.len() - i,
    {
        let c = render_event(&events[i]);
        let ghost prev = chunks.deep_view();
        chunks.push(c);
        proof {
            assert(chunks.deep_view() =~= prev.push(c@));
            assert(evs.take(i + 1) =~= evs.take(i as int).push(evs[i as int]));
            assert(spec_render(evs.take(i + 1)) =~= spec_render(evs.take(i as int)).push(
                spec_render_event(evs[i as int]),
            ));
        }
        i = i + 1;
    }
    proof {
        assert(evs.take(evs.len() as int) =~= evs);
    }
    chunks
}

} // verus!

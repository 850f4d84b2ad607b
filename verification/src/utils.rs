//! Line-trimming boundary computation and file-name classification.
//!
//! When a matched line is shortened, a context window is kept around the
//! matched spans.  The window's edges snap to ASCII whitespace so that the
//! kept text never starts or ends in the middle of a word, and — because an
//! ASCII whitespace byte is always a whole character in UTF-8 — never in the
//! middle of a multi-byte character of well-formed text.

use vstd::prelude::*;

verus! {

/// An ASCII whitespace byte: space, tab, line feed, form feed, carriage return.
pub open spec fn is_ws_byte(b: u8) -> bool {
    b == 0x20 || b == 0x09 || b == 0x0a || b == 0x0c || b == 0x0d
}

/// One past the last ASCII whitespace byte strictly before `target`, or 0 if
/// there is none.  `target` must lie within `line`.
pub open spec fn last_ws_boundary(line: Seq<u8>, target: int) -> int
    recommends
        target <= line.len(),
    decreases target,
{
    if target <= 0 {
        0
    } else if is_ws_byte(line[target - 1]) {
        target
    } else {
        last_ws_boundary(line, target - 1)
    }
}

/// The first index at or after `target` holding an ASCII whitespace byte, or
/// `line.len()` if there is none.  `target` must be at least 0.
pub open spec fn first_ws_boundary(line: Seq<u8>, target: int) -> int
    recommends
        0 <= target,
    decreases line.len() - target,
{
    if target >= line.len() {
        line.len() as int
    } else if is_ws_byte(line[target]) {
        target
    } else {
        first_ws_boundary(line, target + 1)
    }
}

/// The left boundary of the kept window: `trim_value` bytes of context before
/// `left_pos`, widened leftward to just after the nearest ASCII whitespace,
/// or to the start of the line if no whitespace precedes the context point.
pub open spec fn spec_left_trim(line: Seq<u8>, left_pos: int, trim_value: int) -> int {
    let target = if left_pos - trim_value >= 0 {
        left_pos - trim_value
    } else {
        0
    };
    let clamped = if target <= line.len() {
        target
    } else {
        line.len() as int
    };
    last_ws_boundary(line, clamped)
}

/// The right boundary of the kept window: `trim_value` bytes of context after
/// `right_pos`, widened rightward to the nearest ASCII whitespace, or to the
/// end of the line if no whitespace follows the context point.
pub open spec fn spec_right_trim(line: Seq<u8>, right_pos: int, trim_value: int) -> int {
    let target = if right_pos + trim_value <= line.len() {
        right_pos + trim_value
    } else {
        line.len() as int
    };
    first_ws_boundary(line, target)
}

proof fn lemma_last_ws_boundary_le(line: Seq<u8>, target: int)
    requires
        0 <= target <= line.len(),
    ensures
        0 <= last_ws_boundary(line, target) <= target,
    decreases target,
{
    if target > 0 && !is_ws_byte(line[target - 1]) {
        lemma_last_ws_boundary_le(line, target - 1);
    }
}

proof fn lemma_first_ws_boundary_range(line: Seq<u8>, target: int)
    requires
        0 <= target,
    ensures
        first_ws_boundary(line, target) <= line.len(),
        target <= line.len() ==> target <= first_ws_boundary(line, target),
    decreases line.len() - target,
{
    if target < line.len() && !is_ws_byte(line[target]) {
        lemma_first_ws_boundary_range(line, target + 1);
    }
}

/// Law: the kept window never cuts into the matched spans.  The left boundary
/// is never strictly inside the first match's span (it is at or before the
/// match's start) and the right boundary is never strictly inside the last
/// match's span (it is at or after the match's end).
pub proof fn lemma_trim_outside_match(
    line: Seq<u8>,
    first_start: int,
    last_end: int,
    trim_value: int,
)
    requires
        0 <= first_start <= line.len(),
        0 <= last_end <= line.len(),
        0 <= trim_value,
    ensures
        spec_left_trim(line, first_start, trim_value) <= first_start,
        spec_right_trim(line, last_end, trim_value) >= last_end,
        0 <= spec_left_trim(line, first_start, trim_value),
        spec_right_trim(line, last_end, trim_value) <= line.len(),
{
    let lt = if first_start - trim_value >= 0 {
        first_start - trim_value
    } else {
        0
    };
    lemma_last_ws_boundary_le(line, lt);
    let rt = if last_end + trim_value <= line.len() {
        last_end + trim_value
    } else {
        line.len() as int
    };
    lemma_first_ws_boundary_range(line, rt);
}

/// A left boundary is either the start of the line or one past an ASCII
/// whitespace byte.
proof fn lemma_last_ws_boundary_ws(line: Seq<u8>, target: int)
    requires
        0 <= target <= line.len(),
    ensures
        last_ws_boundary(line, target) == 0 || is_ws_byte(
            line[last_ws_boundary(line, target) - 1],
        ),
    decreases target,
{
    if target > 0 && !is_ws_byte(line[target - 1]) {
        lemma_last_ws_boundary_ws(line, target - 1);
    }
}

/// A right boundary is either the end of the line or an ASCII whitespace
/// byte's own position.
proof fn lemma_first_ws_boundary_ws(line: Seq<u8>, target: int)
    requires
        0 <= target,
    ensures
        first_ws_boundary(line, target) == line.len() || is_ws_byte(
            line[first_ws_boundary(line, target)],
        ),
    decreases line.len() - target,
{
    if target < line.len() && !is_ws_byte(line[target]) {
        lemma_first_ws_boundary_ws(line, target + 1);
    }
}

/// In well-formed UTF-8, the position just after an ASCII byte is a
/// character boundary.
proof fn lemma_boundary_after_ascii(line: Seq<u8>, i: int)
    requires
        vstd::utf8::valid_utf8(line),
        0 < i <= line.len(),
        line[i - 1] < 0x80,
    ensures
        vstd::utf8::is_char_boundary(line, i),
{
    let b = line[i - 1];
    assert(!vstd::utf8::is_continuation_byte(b));
    if i == line.len() {
        vstd::utf8::is_char_boundary_start_end_of_seq(line);
    } else {
        vstd::utf8::is_char_boundary_iff_not_is_continuation_byte(line, i - 1);
        vstd::utf8::valid_utf8_split(line, i - 1);
        let tail = line.subrange(i - 1, line.len() as int);
        assert(vstd::utf8::valid_utf8(tail));
        assert(tail[0] == b);
        assert(vstd::utf8::is_leading_byte_width_1(tail[0]));
        assert(vstd::utf8::length_of_first_scalar(tail) == 1);
        assert(vstd::utf8::valid_utf8(vstd::utf8::pop_first_scalar(tail)));
        assert(vstd::utf8::is_char_boundary(vstd::utf8::pop_first_scalar(tail), 0));
        assert(vstd::utf8::is_char_boundary(tail, 1));
        vstd::utf8::is_char_boundary_iff_not_is_continuation_byte(tail, 1);
        assert(tail[1] == line[i]);
        vstd::utf8::is_char_boundary_iff_not_is_continuation_byte(line, i);
    }
}

/// Law: on well-formed UTF-8 text the trimmer's boundaries never split a
/// multi-byte character — both edges of the kept window fall on character
/// boundaries, because each is the line's edge or sits beside an ASCII
/// whitespace byte.
pub proof fn lemma_trim_char_boundaries(
    line: Seq<u8>,
    left_pos: int,
    right_pos: int,
    trim_value: int,
)
    requires
        vstd::utf8::valid_utf8(line),
        0 <= left_pos <= line.len(),
        0 <= right_pos <= line.len(),
        0 <= trim_value,
    ensures
        vstd::utf8::is_char_boundary(line, spec_left_trim(line, left_pos, trim_value)),
        vstd::utf8::is_char_boundary(line, spec_right_trim(line, right_pos, trim_value)),
{
    let lt = if left_pos - trim_value >= 0 {
        left_pos - trim_value
    } else {
        0
    };
    let lb = last_ws_boundary(line, lt);
    lemma_last_ws_boundary_le(line, lt);
    lemma_last_ws_boundary_ws(line, lt);
    if lb == 0 {
        vstd::utf8::is_char_boundary_start_end_of_seq(line);
    } else {
        assert(is_ws_byte(line[lb - 1]));
        lemma_boundary_after_ascii(line, lb);
    }
    let rt = if right_pos + trim_value <= line.len() {
        right_pos + trim_value
    } else {
        line.len() as int
    };
    let rb = first_ws_boundary(line, rt);
    lemma_first_ws_boundary_range(line, rt);
    lemma_first_ws_boundary_ws(line, rt);
    if rb == line.len() {
        vstd::utf8::is_char_boundary_start_end_of_seq(line);
    } else {
        assert(is_ws_byte(line[rb]));
        assert(!vstd::utf8::is_continuation_byte(line[rb]));
        vstd::utf8::is_char_boundary_iff_not_is_continuation_byte(line, rb);
    }
}

/// The left index of the shortened window around a line's first match, whose
/// start lies at `left_pos`: keep `trim_value` bytes of context and widen to
/// the nearest preceding ASCII whitespace.  Returns 0 — no leading ellipsis —
/// when no whitespace precedes the context point.
pub fn get_left_index_trim(line: &[u8], left_pos: usize, trim_value: usize) -> (r: usize)
    ensures
        r == spec_left_trim(line@, left_pos as int, trim_value as int),
        r <= line@.len(),
        left_pos <= line@.len() ==> r <= left_pos,
{
    let target: usize = if left_pos >= trim_value {
        left_pos - trim_value
    } else {
        0
    };
    let mut i: usize = if target <= line.len() {
        target
    } else {
        line.len()
    };
    proof {
        lemma_last_ws_boundary_le(line@, i as int);
    }
    while i > 0
        invariant
            i <= line@.len(),
            last_ws_boundary(line@, i as int) == spec_left_trim(
                line@,
                left_pos as int,
                trim_value as int,
            ),
            last_ws_boundary(line@, i as int) <= i,
            left_pos <= line@.len() ==> i <= left_pos,
        decreases i,
    {
        let b = line[i - 1];
        if b == 0x20 || b == 0x09 || b == 0x0a || b == 0x0c || b == 0x0d {
            return i;
        }
        proof {
            lemma_last_ws_boundary_le(line@, i - 1);
        }
        i = i - 1;
    }
    0
}

/// The right index of the shortened window past a line's last match, whose end
/// lies at `right_pos`: keep `trim_value` bytes of context and widen to the
/// nearest following ASCII whitespace.  Returns `line.len()` — no trailing
/// ellipsis — when no whitespace follows the context point.
pub fn get_right_index_trim(line: &[u8], right_pos: usize, trim_value: usize) -> (r: usize)
    ensures
        r == spec_right_trim(line@, right_pos as int, trim_value as int),
        r <= line@.len(),
        right_pos <= line@.len() ==> right_pos <= r,
{
    let target: usize = if right_pos <= line.len() && trim_value <= line.len() - right_pos {
        right_pos + trim_value
    } else {
        line.len()
    };
    let mut i: usize = target;
    proof {
        lemma_first_ws_boundary_range(line@, i as int);
    }
    while i < line.len()
        invariant
            i <= line@.len(),
            first_ws_boundary(line@, i as int) == spec_right_trim(
                line@,
                right_pos as int,
                trim_value as int,
            ),
            i <= first_ws_boundary(line@, i as int),
            right_pos <= line@.len() ==> right_pos <= i,
        decreases line@.len() - i,
    {
        let b = line[i];
        if b == 0x20 || b == 0x09 || b == 0x0a || b == 0x0c || b == 0x0d {
            return i;
        }
        proof {
            lemma_first_ws_boundary_range(line@, i + 1);
        }
        i = i + 1;
    }
    i
}

/// Whether a file name ends in `.pdf` (the bytes `.`, `p`, `d`, `f`).
pub fn is_pdf(name: &[u8]) -> (r: bool)
    ensures
        r == (name@.len() >= 4 && name@.subrange(
            name@.len() - 4,
            name@.len() as int,
        ) == seq![0x2eu8, 0x70u8, 0x64u8, 0x66u8]),
{
    if name.len() < 4 {
        return false;
    }
    let n = name.len();
    let r = name[n - 4] == 0x2e && name[n - 3] == 0x70 && name[n - 2] == 0x64 && name[n - 1]
        == 0x66;
    proof {
        if r {
            assert(name@.subrange(name@.len() - 4, name@.len() as int) =~= seq![
                0x2eu8,
                0x70u8,
                0x64u8,
                0x66u8,
            ]);
        } else {
            assert(name@.subrange(name@.len() - 4, name@.len() as int) != seq![
                0x2eu8,
                0x70u8,
                0x64u8,
                0x66u8,
            ]) by {
                let s = name@.subrange(name@.len() - 4, name@.len() as int);
                if s == seq![0x2eu8, 0x70u8, 0x64u8, 0x66u8] {
                    assert(s[0] == 0x2eu8 && s[1] == 0x70u8 && s[2] == 0x64u8 && s[3] == 0x66u8);
                }
            }
        }
    }
    r
}

} // verus!

use pdf_grep::engine::RenderEvent;
use pdf_grep::engine::Style;
use pdf_grep::engine::search_text;
use pdf_grep::engine::search_with_pattern;
use pdf_grep::pattern::Pattern;
use pdf_grep::render::dec_bytes;
use pdf_grep::render::render_events;
use pdf_grep::settings::ShortenLineMode;

fn segments(events: &[RenderEvent]) -> Vec<(Vec<u8>, Style)> {
    let mut out = Vec::new();
    for e in events {
        if let RenderEvent::Segment { bytes, style } = e {
            out.push((bytes.clone(), *style));
        }
    }
    out
}

fn concat_segments(events: &[RenderEvent]) -> Vec<u8> {
    let mut out = Vec::new();
    for e in events {
        if let RenderEvent::Segment { bytes, .. } = e {
            out.extend_from_slice(bytes);
        }
    }
    out
}

fn count_page_headers(events: &[RenderEvent]) -> usize {
    events
        .iter()
        .filter(|e| matches!(e, RenderEvent::PageHeader { .. }))
        .count()
}

fn count_line_prefixes(events: &[RenderEvent]) -> usize {
    events
        .iter()
        .filter(|e| matches!(e, RenderEvent::LinePrefix { .. }))
        .count()
}

#[test]
fn two_matched_lines_one_page_header() {
    let text = b"The theory of everything.\nA theory is a model.";
    let pattern = Pattern::compile("theory").unwrap();
    let result = search_text(text, "doc.pdf", &pattern, ShortenLineMode::Off);
    assert_eq!(result.count, 2);
    assert_eq!(count_page_headers(&result.events), 1);
    assert!(result.events.contains(&RenderEvent::PageHeader { page: 1 }));
    assert_eq!(count_line_prefixes(&result.events), 2);
    assert!(result.events.contains(&RenderEvent::LinePrefix { line: 1 }));
    assert!(result.events.contains(&RenderEvent::LinePrefix { line: 2 }));
    assert_eq!(result.events.first(), Some(&RenderEvent::FileHeader { path: "doc.pdf".to_string() }));
    assert_eq!(result.events.last(), Some(&RenderEvent::Footer { count: 2 }));
    let segs = segments(&result.events);
    assert_eq!(
        segs[0],
        (b"The ".to_vec(), Style::Text)
    );
    assert_eq!(segs[1], (b"theory".to_vec(), Style::Match));
    assert_eq!(segs[2], (b" of everything.".to_vec(), Style::Text));
    assert_eq!(segs[3], (b"A ".to_vec(), Style::Text));
    assert_eq!(segs[4], (b"theory".to_vec(), Style::Match));
    assert_eq!(segs[5], (b" is a model.".to_vec(), Style::Text));
}

#[test]
fn match_free_pattern_emits_nothing() {
    let text = b"The theory of everything.\nA theory is a model.";
    let result = search_with_pattern(text, "doc.pdf", "zzzq", ShortenLineMode::Off).unwrap();
    assert_eq!(result.count, 0);
    assert_eq!(
        result.events,
        vec![
            RenderEvent::FileHeader { path: "doc.pdf".to_string() },
            RenderEvent::Footer { count: 0 },
        ]
    );
}

#[test]
fn unshortened_segments_reproduce_line() {
    let line = b"theory and THEORY and ThEoRy";
    let pattern = Pattern::compile("theory").unwrap();
    let result = search_text(line, "f", &pattern, ShortenLineMode::Off);
    assert_eq!(result.count, 1);
    assert_eq!(concat_segments(&result.events), line.to_vec());
    let segs = segments(&result.events);
    let matched: Vec<&(Vec<u8>, Style)> =
        segs.iter().filter(|(_, s)| *s == Style::Match).collect();
    assert_eq!(matched.len(), 3);
    assert_eq!(matched[0].0, b"theory".to_vec());
    assert_eq!(matched[1].0, b"THEORY".to_vec());
    assert_eq!(matched[2].0, b"ThEoRy".to_vec());
}

#[test]
fn invalid_pattern_fails_before_any_page() {
    let err = search_with_pattern(b"abc", "f", "[invalid(", ShortenLineMode::Off).unwrap_err();
    assert_eq!(err.pattern, "[invalid(".to_string());
    assert!(Pattern::compile("[invalid(").is_err());
    let text = err.error_text();
    assert!(text.starts_with("[invalid(: "));
}

#[test]
fn identical_runs_yield_identical_streams() {
    let text = b"alpha theory beta\x0Cgamma theory delta";
    let pattern = Pattern::compile("theory").unwrap();
    let first = search_text(text, "doc.pdf", &pattern, ShortenLineMode::Trim(4));
    let second = search_text(text, "doc.pdf", &pattern, ShortenLineMode::Trim(4));
    assert_eq!(first.events, second.events);
    assert_eq!(first.count, second.count);
}

#[test]
fn trim_two_around_single_match_keeps_short_line_whole() {
    let line = b"word theory word";
    let pattern = Pattern::compile("theory").unwrap();
    assert_eq!(pattern.find_first(line), Some((5, 11)));
    let result = search_text(line, "f", &pattern, ShortenLineMode::Trim(2));
    assert_eq!(result.count, 1);
    assert!(!result.events.contains(&RenderEvent::Ellipsis));
    assert_eq!(concat_segments(&result.events), line.to_vec());
    let segs = segments(&result.events);
    assert_eq!(segs[0], (b"word ".to_vec(), Style::Text));
    assert_eq!(segs[1], (b"theory".to_vec(), Style::Match));
    assert_eq!(segs[2], (b" word".to_vec(), Style::Text));
}

#[test]
fn trim_cuts_to_whitespace_with_ellipses() {
    let line = b"alpha beta theory gamma delta";
    let pattern = Pattern::compile("theory").unwrap();
    assert_eq!(pattern.find_first(line), Some((11, 17)));
    let result = search_text(line, "f", &pattern, ShortenLineMode::Trim(2));
    assert_eq!(result.count, 1);
    let ellipses = result
        .events
        .iter()
        .filter(|e| matches!(e, RenderEvent::Ellipsis))
        .count();
    assert_eq!(ellipses, 2);
    assert_eq!(concat_segments(&result.events), b"beta theory gamma".to_vec());
    let segs = segments(&result.events);
    assert_eq!(segs[0], (b"beta ".to_vec(), Style::Text));
    assert_eq!(segs[1], (b"theory".to_vec(), Style::Match));
    assert_eq!(segs[2], (b" gamma".to_vec(), Style::Text));
}

#[test]
fn line_numbers_restart_on_each_page() {
    let text = b"nothing\ntheory here\x0Ctheory there";
    let pattern = Pattern::compile("theory").unwrap();
    let result = search_text(text, "f", &pattern, ShortenLineMode::Off);
    assert_eq!(result.count, 2);
    assert!(result.events.contains(&RenderEvent::PageHeader { page: 1 }));
    assert!(result.events.contains(&RenderEvent::PageHeader { page: 2 }));
    assert!(result.events.contains(&RenderEvent::LinePrefix { line: 2 }));
    assert!(result.events.contains(&RenderEvent::LinePrefix { line: 1 }));
}

#[test]
fn nul_byte_stops_the_page() {
    let pattern = Pattern::compile("match").unwrap();
    let first_line_binary = search_text(b"match\x00here\nmatch there", "f", &pattern, ShortenLineMode::Off);
    assert_eq!(first_line_binary.count, 0);
    let later_line_binary =
        search_text(b"match here\nx\x00y\nmatch there", "f", &pattern, ShortenLineMode::Off);
    assert_eq!(later_line_binary.count, 1);
    let other_page = search_text(b"x\x00y\x0Cmatch there", "f", &pattern, ShortenLineMode::Off);
    assert_eq!(other_page.count, 1);
    assert!(other_page.events.contains(&RenderEvent::PageHeader { page: 2 }));
}

#[test]
fn count_is_per_line_not_per_occurrence() {
    let pattern = Pattern::compile("ab").unwrap();
    let result = search_text(b"ab ab ab\nab", "f", &pattern, ShortenLineMode::Off);
    assert_eq!(result.count, 2);
}

#[test]
fn empty_pattern_matches_every_line() {
    let result = search_with_pattern(b"ab\ncd", "f", "", ShortenLineMode::Off).unwrap();
    assert_eq!(result.count, 2);
    assert_eq!(concat_segments(&result.events), b"abcd".to_vec());
}

#[test]
fn rendered_chunks_pin_the_output_format() {
    let text = b"The theory of everything.\nA theory is a model.";
    let pattern = Pattern::compile("theory").unwrap();
    let result = search_text(text, "doc.pdf", &pattern, ShortenLineMode::Off);
    let chunks = render_events(&result.events);
    assert_eq!(chunks.len(), result.events.len());
    assert_eq!(chunks[0].bytes, b"Searching: doc.pdf\n".to_vec());
    assert_eq!(chunks[0].style, Style::Info);
    assert_eq!(chunks[1].bytes, b"Page: 1\n".to_vec());
    assert_eq!(chunks[1].style, Style::Info);
    assert_eq!(chunks[2].bytes, b"1: ".to_vec());
    assert_eq!(chunks[2].style, Style::Extra);
    let last = chunks.last().unwrap();
    assert_eq!(last.bytes, b"End of file: found 2 matches.\n\n".to_vec());
    assert_eq!(last.style, Style::Info);
    let full: Vec<u8> = chunks.iter().flat_map(|c| c.bytes.clone()).collect();
    let expected = b"Searching: doc.pdf\nPage: 1\n1: The theory of everything.\n2: A theory is a model.\nEnd of file: found 2 matches.\n\n";
    assert_eq!(full, expected.to_vec());
}

#[test]
fn ellipsis_renders_as_two_dots() {
    let line = b"alpha beta theory gamma delta";
    let pattern = Pattern::compile("theory").unwrap();
    let result = search_text(line, "f", &pattern, ShortenLineMode::Trim(2));
    let chunks = render_events(&result.events);
    let full: Vec<u8> = chunks.iter().flat_map(|c| c.bytes.clone()).collect();
    let expected = b"Searching: f\nPage: 1\n1: ..beta theory gamma..\nEnd of file: found 1 matches.\n\n";
    assert_eq!(full, expected.to_vec());
}

#[test]
fn matches_at_line_edges_leave_no_empty_text_segments() {
    let pattern = Pattern::compile("ab").unwrap();
    let result = search_text(b"abxab", "f", &pattern, ShortenLineMode::Off);
    let segs = segments(&result.events);
    assert_eq!(
        segs,
        vec![
            (b"ab".to_vec(), Style::Match),
            (b"x".to_vec(), Style::Text),
            (b"ab".to_vec(), Style::Match),
        ]
    );
}

#[test]
fn adjacent_matches_have_no_gap_segment() {
    let pattern = Pattern::compile("ab").unwrap();
    let result = search_text(b"abab", "f", &pattern, ShortenLineMode::Off);
    let segs = segments(&result.events);
    assert_eq!(
        segs,
        vec![(b"ab".to_vec(), Style::Match), (b"ab".to_vec(), Style::Match)]
    );
}

#[test]
fn empty_pages_keep_their_page_numbers() {
    let pattern = Pattern::compile("match").unwrap();
    let result = search_text(b"x\x0C\x0Ca match", "f", &pattern, ShortenLineMode::Off);
    assert_eq!(result.count, 1);
    assert_eq!(count_page_headers(&result.events), 1);
    assert!(result.events.contains(&RenderEvent::PageHeader { page: 3 }));
}

#[test]
fn zero_context_trims_to_the_match_itself() {
    let pattern = Pattern::compile("theory").unwrap();
    let result = search_text(b"aa theory bb", "f", &pattern, ShortenLineMode::Trim(0));
    let segs = segments(&result.events);
    assert_eq!(segs, vec![(b"theory".to_vec(), Style::Match)]);
    let chunks = render_events(&result.events);
    let full: Vec<u8> = chunks.iter().flat_map(|c| c.bytes.clone()).collect();
    let expected = b"Searching: f\nPage: 1\n1: ..theory..\nEnd of file: found 1 matches.\n\n";
    assert_eq!(full, expected.to_vec());
}

#[test]
fn decimal_rendering_is_exact() {
    assert_eq!(dec_bytes(0), b"0".to_vec());
    assert_eq!(dec_bytes(7), b"7".to_vec());
    assert_eq!(dec_bytes(10), b"10".to_vec());
    assert_eq!(dec_bytes(1234), b"1234".to_vec());
    assert_eq!(dec_bytes(900719925), b"900719925".to_vec());
}

use pdf_grep::config::ConfigColorSpec;
use pdf_grep::config::TomlSettings;
use pdf_grep::errors::ExtractionError;
use pdf_grep::pages::split_lines;
use pdf_grep::pages::split_pages;
use pdf_grep::settings::AvailablePdfTools;
use pdf_grep::settings::ColorChoice;
use pdf_grep::settings::FolderSearchMode;
use pdf_grep::settings::Rgb;
use pdf_grep::settings::SearchColorSpecs;
use pdf_grep::settings::Settings;
use pdf_grep::settings::ShortenLineMode;
use pdf_grep::snippet::get_random_text;
use pdf_grep::utils::get_left_index_trim;
use pdf_grep::utils::get_right_index_trim;
use pdf_grep::utils::is_pdf;

#[test]
fn splitter_with_marker_yields_both_pages() {
    let pages = split_pages(b"abc\x0Cdef");
    assert_eq!(pages, vec![b"abc".to_vec(), b"def".to_vec()]);
}

#[test]
fn splitter_without_marker_yields_one_page_equal_to_input() {
    let pages = split_pages(b"no markers in here");
    assert_eq!(pages, vec![b"no markers in here".to_vec()]);
    assert_eq!(split_pages(b""), vec![b"".to_vec()]);
}

#[test]
fn splitter_preserves_empty_pages() {
    let pages = split_pages(b"\x0C\x0C");
    assert_eq!(pages, vec![b"".to_vec(), b"".to_vec(), b"".to_vec()]);
    let pages = split_pages(b"a\x0C\x0Cb");
    assert_eq!(pages, vec![b"a".to_vec(), b"".to_vec(), b"b".to_vec()]);
}

#[test]
fn line_splitter_cuts_on_line_feed() {
    let lines = split_lines(b"one\ntwo\n");
    assert_eq!(lines, vec![b"one".to_vec(), b"two".to_vec(), b"".to_vec()]);
}

#[test]
fn left_trim_snaps_to_whitespace() {
    let line = b"alpha beta theory gamma delta";
    assert_eq!(get_left_index_trim(line, 11, 2), 6);
    assert_eq!(get_left_index_trim(line, 5, 2), 0);
    assert_eq!(get_left_index_trim(line, 0, 2), 0);
    assert_eq!(get_left_index_trim(line, 11, 100), 0);
}

#[test]
fn right_trim_snaps_to_whitespace() {
    let line = b"alpha beta theory gamma delta";
    assert_eq!(get_right_index_trim(line, 17, 2), 23);
    assert_eq!(get_right_index_trim(line, 17, 100), line.len());
    assert_eq!(get_right_index_trim(line, 28, 2), line.len());
}

#[test]
fn trim_boundaries_never_cut_the_match() {
    let line = b"word theory word";
    let left = get_left_index_trim(line, 5, 2);
    let right = get_right_index_trim(line, 11, 2);
    assert!(left <= 5);
    assert!(right >= 11);
    assert_eq!(left, 0);
    assert_eq!(right, line.len());
}

#[test]
fn pdf_names_are_recognized() {
    assert!(is_pdf(b"paper.pdf"));
    assert!(is_pdf(b".pdf"));
    assert!(!is_pdf(b"paper.txt"));
    assert!(!is_pdf(b"pdf"));
    assert!(!is_pdf(b"paper.pdf.bak"));
}

#[test]
fn default_config_resolves_to_theme_colors() {
    let toml = TomlSettings::default();
    assert_eq!(toml.use_pdf_tool, AvailablePdfTools::UseXpdfTools);
    assert_eq!(toml.xpdf_tools_folder, Some("./".to_string()));
    let specs = toml.make_color_specs();
    assert_eq!(specs.match_spec.fg, Some(Rgb { r: 255, g: 197, b: 12 }));
    assert!(specs.match_spec.bold);
    assert!(specs.match_spec.intense);
    assert!(specs.match_spec.underline);
    assert!(!specs.match_spec.dimmed);
    assert_eq!(specs.extra_spec.fg, Some(Rgb { r: 1, g: 246, b: 238 }));
    assert!(!specs.extra_spec.bold);
    assert_eq!(specs.info_spec.fg, Some(Rgb { r: 1, g: 246, b: 238 }));
    assert_eq!(specs.text_spec.fg, Some(Rgb { r: 249, g: 246, b: 238 }));
    let info = toml.get_info_color_spec();
    assert_eq!(info.fg, Some(Rgb { r: 52, g: 154, b: 179 }));
    assert_eq!(info.bg, None);
    assert!(!info.bold);
}

#[test]
fn missing_config_entries_fall_back_to_defaults() {
    let mut toml = TomlSettings::default();
    toml.search_color_specs = Vec::new();
    let specs = toml.make_color_specs();
    let defaults = SearchColorSpecs::default();
    assert_eq!(specs, defaults);
}

#[test]
fn style_flags_resolve_from_named_pairs() {
    let mut entry = ConfigColorSpec::named_fg("match", 10, 20, 30);
    entry.styles = vec![
        ("dimmed".to_string(), true),
        ("italic".to_string(), false),
        ("strikethrough".to_string(), true),
        ("unknown".to_string(), true),
    ];
    let style = entry.to_style_spec();
    assert!(style.dimmed);
    assert!(!style.italic);
    assert!(style.strikethrough);
    assert!(!style.bold);
    assert_eq!(style.fg, Some(Rgb { r: 10, g: 20, b: 30 }));
}

#[test]
fn test_merge_settings() {
    let mut settings = Settings::default();
    assert_eq!(settings.color_choice, ColorChoice::Never);
    assert_eq!(settings.folder_search_mode, FolderSearchMode::ThreadPerFile);
    assert_eq!(settings.shorten_line_mode, ShortenLineMode::Off);
    assert_eq!(settings.use_pdf_tool, AvailablePdfTools::UsePdfDummyTool);
    settings.shorten_line_mode = ShortenLineMode::Trim(25);
    let toml = TomlSettings::default();
    settings.merge_toml_settings(&toml);
    assert_eq!(settings.use_pdf_tool, AvailablePdfTools::UseXpdfTools);
    assert_eq!(settings.xpdf_tools_folder, Some("./".to_string()));
    assert_eq!(settings.search_color_specs, toml.make_color_specs());
    assert_eq!(settings.info_color_spec, toml.get_info_color_spec());
    assert_eq!(settings.shorten_line_mode, ShortenLineMode::Trim(25));
    assert!(settings.print_text);
}

#[test]
fn terminal_flag_decides_color_choice() {
    assert_eq!(Settings::default_for_terminal(true).color_choice, ColorChoice::Auto);
    assert_eq!(Settings::default_for_terminal(false).color_choice, ColorChoice::Never);
}

#[test]
fn short_input_is_returned_whole() {
    let snippet = get_random_text(b"tiny", 100);
    assert_eq!(snippet.page_index, None);
    assert_eq!(snippet.text, b"tiny".to_vec());
    assert_eq!(snippet.left, 0);
    assert_eq!(snippet.right, 4);
}

#[test]
fn snippet_is_a_whitespace_snapped_cut_of_a_page() {
    let text = b"alpha beta gamma delta epsilon zeta eta\x0Cone two three four five six seven";
    let snippet = get_random_text(text, 10);
    let pages = split_pages(text);
    let pi = snippet.page_index.expect("long input draws a page");
    assert!(pi < pages.len());
    let page = &pages[pi];
    assert!(snippet.left <= snippet.right && snippet.right <= page.len());
    assert_eq!(snippet.text, page[snippet.left..snippet.right].to_vec());
    assert_eq!(snippet.left, get_left_index_trim(page, snippet.start, 1));
    assert_eq!(snippet.right, get_right_index_trim(page, snippet.start + 10, 1));
}

#[test]
fn extraction_error_prints_both_fields() {
    let err = ExtractionError {
        message: "could not extract text".to_string(),
        process_message: "converter exited with status 3".to_string(),
    };
    assert_eq!(
        err.error_text(),
        "could not extract text\nconverter exited with status 3".to_string()
    );
}

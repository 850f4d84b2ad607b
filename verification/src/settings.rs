//! The static configuration record handed to the core at startup: style
//! specifications for the four render styles, the line-shortening mode, the
//! folder-search scheduling mode, the colour choice for the output sink, and
//! which extraction backend to use.  Loaded once before any search begins and
//! never mutated during a run.

use vstd::prelude::*;

use crate::config::TomlSettings;
use crate::config::spec_fg_bg_style;
use crate::config::spec_make_color_specs;

verus! {

/// How a folder search fans out over the discovered files.
#[derive(Clone, Copy, PartialEq, Eq, Structural, Debug)]
pub enum FolderSearchMode {
    ThreadPerFolder,
    ThreadPerFile,
}

/// Whether matched lines are rendered whole, or shortened to a context
/// window of the given length around their matches.
#[derive(Clone, Copy, PartialEq, Eq, Structural, Debug)]
pub enum ShortenLineMode {
    Off,
    Trim(usize),
}

/// Which extraction backend turns a PDF file into text.
#[derive(Clone, Copy, PartialEq, Eq, Structural, Debug)]
pub enum AvailablePdfTools {
    UseXpdfTools,
    UsePdfDummyTool,
}

/// Whether the output sink emits colour: decided once per process, from
/// whether the sink is an interactive terminal.
#[derive(Clone, Copy, PartialEq, Eq, Structural, Debug)]
pub enum ColorChoice {
    Auto,
    Always,
    Never,
}

/// An RGB colour.
#[derive(Clone, Copy, PartialEq, Eq, Structural, Debug)]
pub struct Rgb {
    pub r: u8,
    pub g: u8,
    pub b: u8,
}

/// A style descriptor bound to one render style: optional foreground and
/// background colours and font-style flags.
#[derive(Clone, Copy, PartialEq, Eq, Debug)]
pub struct StyleSpec {
    pub fg: Option<Rgb>,
    pub bg: Option<Rgb>,
    pub bold: bool,
    pub intense: bool,
    pub underline: bool,
    pub dimmed: bool,
    pub italic: bool,
    pub strikethrough: bool,
}

impl StyleSpec {
    /// A plain style: no colours, no flags.
    pub fn plain() -> (r: StyleSpec)
        ensures
            r == (StyleSpec {
                fg: None,
                bg: None,
                bold: false,
                intense: false,
                underline: false,
                dimmed: false,
                italic: false,
                strikethrough: false,
            }),
    {
        StyleSpec {
            fg: None,
            bg: None,
            bold: false,
            intense: false,
            underline: false,
            dimmed: false,
            italic: false,
            strikethrough: false,
        }
    }

    /// A style with only a foreground colour set.
    pub fn fg_only(r: u8, g: u8, b: u8) -> (s: StyleSpec)
        ensures
            s == (StyleSpec {
                fg: Some(Rgb { r, g, b }),
                bg: None,
                bold: false,
                intense: false,
                underline: false,
                dimmed: false,
                italic: false,
                strikethrough: false,
            }),
    {
        StyleSpec {
            fg: Some(Rgb { r, g, b }),
            bg: None,
            bold: false,
            intense: false,
            underline: false,
            dimmed: false,
            italic: false,
            strikethrough: false,
        }
    }
}

/// The style for each of the four render styles.
#[derive(Clone, Copy, PartialEq, Eq, Debug)]
pub struct SearchColorSpecs {
    pub match_spec: StyleSpec,
    pub text_spec: StyleSpec,
    pub info_spec: StyleSpec,
    pub extra_spec: StyleSpec,
}

/// The built-in colour theme: amber bold underlined matches, off-white text,
/// steel-blue headers, lime line numbers.
pub open spec fn spec_default_colors() -> SearchColorSpecs {
    SearchColorSpecs {
        match_spec: StyleSpec {
            fg: Some(Rgb { r: 255, g: 197, b: 12 }),
            bg: None,
            bold: true,
            intense: true,
            underline: true,
            dimmed: false,
            italic: false,
            strikethrough: false,
        },
        text_spec: StyleSpec {
            fg: Some(Rgb { r: 249, g: 246, b: 238 }),
            bg: None,
            bold: false,
            intense: false,
            underline: false,
            dimmed: false,
            italic: false,
            strikethrough: false,
        },
        info_spec: StyleSpec {
            fg: Some(Rgb { r: 52, g: 154, b: 179 }),
            bg: None,
            bold: false,
            intense: false,
            underline: false,
            dimmed: false,
            italic: false,
            strikethrough: false,
        },
        extra_spec: StyleSpec {
            fg: Some(Rgb { r: 181, g: 235, b: 18 }),
            bg: None,
            bold: false,
            intense: false,
            underline: false,
            dimmed: false,
            italic: false,
            strikethrough: false,
        },
    }
}

impl Default for SearchColorSpecs {
    /// The built-in colour theme.
    fn default() -> (r: SearchColorSpecs)
        ensures
            r == spec_default_colors(),
    {
        let mut m_spec = StyleSpec::fg_only(255, 197, 12);
        m_spec.bold = true;
        m_spec.underline = true;
        m_spec.intense = true;
        let t_spec = StyleSpec::fg_only(249, 246, 238);
        let i_spec = StyleSpec::fg_only(52, 154, 179);
        let e_spec = StyleSpec::fg_only(181, 235, 18);
        SearchColorSpecs { match_spec: m_spec, text_spec: t_spec, info_spec: i_spec, extra_spec: e_spec }
    }
}

/// What the tool was asked to do.
#[derive(Clone, PartialEq, Eq, Debug)]
pub enum Actions {
    /// Search the file or directory for the pattern.
    Search { pattern: String },
    /// Print a file's document information.
    Info,
    /// A diagnostic no-op.
    Test,
    /// Print a file's extracted text.
    Text,
    /// Print a random snippet from a directory's files.
    Rand { length: Option<usize> },
}

/// The parsed command line: the subcommand, one of `--file` or
/// `--directory`, and an optional override for the converter's location.
#[derive(Clone, PartialEq, Eq, Debug)]
pub struct Cli {
    pub directory: Option<String>,
    pub file: Option<String>,
    pub command: Actions,
    pub xpdf_path: Option<String>,
}

/// The static configuration record: built once at startup from the built-in
/// defaults, the configuration file, and the command line, then passed by
/// reference into every search.  The extraction backend object itself lives
/// with the caller; `use_pdf_tool` records which one to build.
#[derive(Clone, PartialEq, Eq, Debug)]
pub struct Settings {
    pub search_color_specs: SearchColorSpecs,
    pub info_color_spec: StyleSpec,
    pub folder_search_mode: FolderSearchMode,
    pub print_text: bool,
    pub shorten_line_mode: ShortenLineMode,
    pub color_choice: ColorChoice,
    pub cli: Option<Cli>,
    pub use_pdf_tool: AvailablePdfTools,
    pub xpdf_tools_folder: Option<String>,
}

impl Default for Settings {
    /// The fallback configuration: built-in colours, no colour output, the
    /// dummy backend, shortening off, one worker per file.
    fn default() -> (s: Settings)
        ensures
            s.search_color_specs == spec_default_colors(),
            s.info_color_spec == (StyleSpec {
                fg: None,
                bg: None,
                bold: false,
                intense: false,
                underline: false,
                dimmed: false,
                italic: false,
                strikethrough: false,
            }),
            s.folder_search_mode == FolderSearchMode::ThreadPerFile,
            s.print_text == true,
            s.shorten_line_mode == ShortenLineMode::Off,
            s.color_choice == ColorChoice::Never,
            s.cli is None,
            s.use_pdf_tool == AvailablePdfTools::UsePdfDummyTool,
            s.xpdf_tools_folder is None,
    {
        Settings {
            search_color_specs: SearchColorSpecs::default(),
            info_color_spec: StyleSpec::plain(),
            folder_search_mode: FolderSearchMode::ThreadPerFile,
            print_text: true,
            shorten_line_mode: ShortenLineMode::Off,
            color_choice: ColorChoice::Never,
            cli: None,
            use_pdf_tool: AvailablePdfTools::UsePdfDummyTool,
            xpdf_tools_folder: None,
        }
    }
}

impl Settings {
    /// The fallback configuration with the colour choice decided from
    /// whether standard input is an interactive terminal — a decision made
    /// once per process, outside the library.
    pub fn default_for_terminal(stdin_is_terminal: bool) -> (s: Settings)
        ensures
            s.color_choice == (if stdin_is_terminal {
                ColorChoice::Auto
            } else {
                ColorChoice::Never
            }),
            s.search_color_specs == spec_default_colors(),
            s.info_color_spec == (StyleSpec {
                fg: None,
                bg: None,
                bold: false,
                intense: false,
                underline: false,
                dimmed: false,
                italic: false,
                strikethrough: false,
            }),
            s.folder_search_mode == FolderSearchMode::ThreadPerFile,
            s.print_text == true,
            s.shorten_line_mode == ShortenLineMode::Off,
            s.cli is None,
            s.use_pdf_tool == AvailablePdfTools::UsePdfDummyTool,
            s.xpdf_tools_folder is None,
    {
        let mut s = Settings::default();
        s.color_choice = if stdin_is_terminal {
            ColorChoice::Auto
        } else {
            ColorChoice::Never
        };
        s
    }

    /// Fold a loaded configuration file into the settings: the colour
    /// entries resolve into the engine's colour slots, the informational
    /// colour and the backend choice are taken over, and everything else is
    /// left as it was.
    pub fn merge_toml_settings(&mut self, toml: &TomlSettings)
        ensures
            final(self).search_color_specs == spec_make_color_specs(toml.search_color_specs@),
            final(self).info_color_spec == spec_fg_bg_style(toml.info_color_spec),
            final(self).use_pdf_tool == toml.use_pdf_tool,
            final(self).xpdf_tools_folder == toml.xpdf_tools_folder,
            final(self).folder_search_mode == old(self).folder_search_mode,
            final(self).print_text == old(self).print_text,
            final(self).shorten_line_mode == old(self).shorten_line_mode,
            final(self).color_choice == old(self).color_choice,
            final(self).cli == old(self).cli,
    {
        self.search_color_specs = toml.make_color_specs();
        self.info_color_spec = toml.get_info_color_spec();
        self.use_pdf_tool = toml.use_pdf_tool;
        self.xpdf_tools_folder = match &toml.xpdf_tools_folder {
            Some(p) => Some(p.clone()),
            None => None,
        };
    }
}

} // verus!

//! The configuration file's data model: colour entries keyed by name —
//! `match` for the matched pattern, `line` for line numbers, `path` for the
//! page heading — and the backend selection.  Loading the file from disk and
//! parsing its syntax happen outside the library; this module holds the
//! values and the rules that resolve them into the engine's colour slots.

use vstd::prelude::*;

use crate::settings::AvailablePdfTools;
use crate::settings::Rgb;
use crate::settings::SearchColorSpecs;
use crate::settings::StyleSpec;
use crate::settings::spec_default_colors;

verus! {

/// One colour entry of the configuration file: a slot name, optional
/// foreground and background colours, and named font-style flags.
#[derive(Clone, PartialEq, Eq, Debug)]
pub struct ConfigColorSpec {
    pub name: String,
    pub fg: Option<(u8, u8, u8)>,
    pub bg: Option<(u8, u8, u8)>,
    pub styles: Vec<(String, bool)>,
}

/// Whether the flag list sets the named flag.
pub open spec fn spec_style_flag(styles: Seq<(String, bool)>, name: Seq<char>) -> bool {
    exists|i: int| 0 <= i < styles.len() && (#[trigger] styles[i]).0@ == name && styles[i].1
}

/// Whether the first `k` entries of the flag list set the named flag.
spec fn spec_style_flag_upto(styles: Seq<(String, bool)>, k: int, name: Seq<char>) -> bool {
    exists|i: int| 0 <= i < k && i < styles.len() && (#[trigger] styles[i]).0@ == name
        && styles[i].1
}

/// The style an entry resolves to: its colours, and the font flags its list
/// sets.
pub open spec fn spec_to_style(c: ConfigColorSpec) -> StyleSpec {
    StyleSpec {
        fg: match c.fg {
            Some((r, g, b)) => Some(Rgb { r, g, b }),
            None => None,
        },
        bg: match c.bg {
            Some((r, g, b)) => Some(Rgb { r, g, b }),
            None => None,
        },
        bold: spec_style_flag(c.styles@, "bold"@),
        intense: spec_style_flag(c.styles@, "intense"@),
        underline: spec_style_flag(c.styles@, "underline"@),
        dimmed: spec_style_flag(c.styles@, "dimmed"@),
        italic: spec_style_flag(c.styles@, "italic"@),
        strikethrough: spec_style_flag(c.styles@, "strikethrough"@),
    }
}

/// The style of an entry's colours alone, flags left unset.
pub open spec fn spec_fg_bg_style(c: ConfigColorSpec) -> StyleSpec {
    StyleSpec {
        fg: match c.fg {
            Some((r, g, b)) => Some(Rgb { r, g, b }),
            None => None,
        },
        bg: match c.bg {
            Some((r, g, b)) => Some(Rgb { r, g, b }),
            None => None,
        },
        bold: false,
        intense: false,
        underline: false,
        dimmed: false,
        italic: false,
        strikethrough: false,
    }
}

/// The first entry bearing `name`, or `None`.
pub open spec fn spec_find_named(items: Seq<ConfigColorSpec>, name: Seq<char>) -> Option<
    ConfigColorSpec,
>
    decreases items.len(),
{
    if items.len() == 0 {
        Option::None
    } else if items[0].name@ == name {
        Option::Some(items[0])
    } else {
        spec_find_named(items.drop_first(), name)
    }
}

/// The style for one colour slot: the first entry bearing the slot's name,
/// or the built-in default for that slot.
pub open spec fn spec_slot_style(
    items: Seq<ConfigColorSpec>,
    name: Seq<char>,
    dflt: StyleSpec,
) -> StyleSpec {
    match spec_find_named(items, name) {
        Option::Some(c) => spec_to_style(c),
        Option::None => dflt,
    }
}

/// The engine's colour slots as the configuration entries resolve them:
/// `match` colours the matched spans, `line` the line numbers, `path` the
/// page heading; plain text keeps the built-in style, and entries under any
/// other name are ignored.
pub open spec fn spec_make_color_specs(items: Seq<ConfigColorSpec>) -> SearchColorSpecs {
    SearchColorSpecs {
        match_spec: spec_slot_style(items, "match"@, spec_default_colors().match_spec),
        text_spec: spec_default_colors().text_spec,
        info_spec: spec_slot_style(items, "path"@, spec_default_colors().info_spec),
        extra_spec: spec_slot_style(items, "line"@, spec_default_colors().extra_spec),
    }
}

impl ConfigColorSpec {
    /// An entry with the given name and foreground colour and the three
    /// standard flags present but unset.
    pub fn named_fg(name: &str, r: u8, g: u8, b: u8) -> (c: ConfigColorSpec)
        ensures
            c.name@ == name@,
            c.fg == Some((r, g, b)),
            c.bg is None,
            c.styles@.len() == 3,
            c.styles@[0].0@ == "bold"@ && !c.styles@[0].1,
            c.styles@[1].0@ == "intense"@ && !c.styles@[1].1,
            c.styles@[2].0@ == "underline"@ && !c.styles@[2].1,
    {
        let mut styles: Vec<(String, bool)> = Vec::new();
        styles.push(("bold".to_owned(), false));
        styles.push(("intense".to_owned(), false));
        styles.push(("underline".to_owned(), false));
        ConfigColorSpec { name: name.to_owned(), fg: Some((r, g, b)), bg: None, styles }
    }

    /// The style this entry resolves to: colours and set flags.
    pub fn to_style_spec(&self) -> (r: StyleSpec)
        ensures
            r == spec_to_style(*self),
    {
        let mut s = match self.fg {
            Some((r, g, b)) => StyleSpec::fg_only(r, g, b),
            None => StyleSpec::plain(),
        };
        s.bg = match self.bg {
            Some((r, g, b)) => Some(Rgb { r, g, b }),
            None => None,
        };
        let k_bold = "bold".to_owned();
        let k_intense = "intense".to_owned();
        let k_underline = "underline".to_owned();
        let k_dimmed = "dimmed".to_owned();
        let k_italic = "italic".to_owned();
        let k_strikethrough = "strikethrough".to_owned();
        let n = self.styles.len();
        let mut i: usize = 0;
        while i < n
            invariant
                n == self.styles@.len(),
                i <= n,
                k_bold@ == "bold"@,
                k_intense@ == "intense"@,
                k_underline@ == "underline"@,
                k_dimmed@ == "dimmed"@,
                k_italic@ == "italic"@,
                k_strikethrough@ == "strikethrough"@,
                s.fg == spec_to_style(*self).fg,
                s.bg == spec_to_style(*self).bg,
                s.bold == spec_style_flag_upto(self.styles@, i as int, "bold"@),
                s.intense == spec_style_flag_upto(self.styles@, i as int, "intense"@),
                s.underline == spec_style_flag_upto(self.styles@, i as int, "underline"@),
                s.dimmed == spec_style_flag_upto(self.styles@, i as int, "dimmed"@),
                s.italic == spec_style_flag_upto(self.styles@, i as int, "italic"@),
                s.strikethrough == spec_style_flag_upto(self.styles@, i as int, "strikethrough"@),
            decreases n - i,
        {
            let flag = self.styles[i].1;
            let ghost entry = self.styles@[i as int];
            if flag && self.styles[i].0 == k_bold {
                s.bold = true;
            }
            if flag && self.styles[i].0 == k_intense {
                s.intense = true;
            }
            if flag && self.styles[i].0 == k_underline {
                s.underline = true;
            }
            if flag && self.styles[i].0 == k_dimmed {
                s.dimmed = true;
            }
            if flag && self.styles[i].0 == k_italic {
                s.italic = true;
            }
            if flag && self.styles[i].0 == k_strikethrough {
                s.strikethrough = true;
            }
            proof {
                assert(self.styles@[i as int] == entry);
            }
            i = i + 1;
        }
        proof {
            assert(forall|nm: Seq<char>|
                spec_style_flag_upto(self.styles@, n as int, nm) == spec_style_flag(
                    self.styles@,
                    nm,
                ));
        }
        s
    }
}

impl Default for ConfigColorSpec {
    /// The neutral entry: no colours, the three standard flags unset.
    fn default() -> (c: ConfigColorSpec)
        ensures
            c.name@ == "default"@,
            c.fg is None,
            c.bg is None,
            c.styles@.len() == 3,
            c.styles@[0].0@ == "bold"@ && !c.styles@[0].1,
            c.styles@[1].0@ == "intense"@ && !c.styles@[1].1,
            c.styles@[2].0@ == "underline"@ && !c.styles@[2].1,
    {
        let mut styles: Vec<(String, bool)> = Vec::new();
        styles.push(("bold".to_owned(), false));
        styles.push(("intense".to_owned(), false));
        styles.push(("underline".to_owned(), false));
        ConfigColorSpec { name: "default".to_owned(), fg: None, bg: None, styles }
    }
}

/// The configuration file's whole content: the backend choice, where its
/// binaries live, and the colour entries.
#[derive(Clone, PartialEq, Eq, Debug)]
pub struct TomlSettings {
    pub use_pdf_tool: AvailablePdfTools,
    pub xpdf_tools_folder: Option<String>,
    pub search_color_specs: Vec<ConfigColorSpec>,
    pub info_color_spec: ConfigColorSpec,
}

/// The built-in configuration written when no file exists: the external
/// converter backend looked up beside the working directory, amber bold
/// underlined matches, cyan line numbers and page headings, steel-blue
/// informational text.
pub open spec fn spec_default_toml(t: TomlSettings) -> bool {
    &&& t.use_pdf_tool == AvailablePdfTools::UseXpdfTools
    &&& t.xpdf_tools_folder matches Some(p) && p@ == "./"@
    &&& t.search_color_specs@.len() == 4
    &&& t.search_color_specs@[0].name@ == "match"@
    &&& t.search_color_specs@[0].fg == Some((255u8, 197u8, 12u8))
    &&& t.search_color_specs@[0].bg is None
    &&& spec_style_flag(t.search_color_specs@[0].styles@, "bold"@)
    &&& spec_style_flag(t.search_color_specs@[0].styles@, "intense"@)
    &&& spec_style_flag(t.search_color_specs@[0].styles@, "underline"@)
    &&& t.search_color_specs@[1].name@ == "line"@
    &&& t.search_color_specs@[1].fg == Some((1u8, 246u8, 238u8))
    &&& t.search_color_specs@[2].name@ == "path"@
    &&& t.search_color_specs@[2].fg == Some((1u8, 246u8, 238u8))
    &&& t.search_color_specs@[3].name@ == "column"@
    &&& t.search_color_specs@[3].fg is None
    &&& t.info_color_spec.name@ == "info"@
    &&& t.info_color_spec.fg == Some((52u8, 154u8, 179u8))
    &&& t.info_color_spec.bg is None
}

impl Default for TomlSettings {
    /// The built-in configuration.
    fn default() -> (t: TomlSettings)
        ensures
            spec_default_toml(t),
    {
        let mut match_entry = ConfigColorSpec::named_fg("match", 255, 197, 12);
        let mut styles: Vec<(String, bool)> = Vec::new();
        styles.push(("bold".to_owned(), true));
        styles.push(("intense".to_owned(), true));
        styles.push(("underline".to_owned(), true));
        match_entry.styles = styles;
        proof {
            assert(match_entry.styles@[0].0@ == "bold"@ && match_entry.styles@[0].1);
            assert(match_entry.styles@[1].0@ == "intense"@ && match_entry.styles@[1].1);
            assert(match_entry.styles@[2].0@ == "underline"@ && match_entry.styles@[2].1);
            assert(spec_style_flag(match_entry.styles@, "bold"@));
            assert(spec_style_flag(match_entry.styles@, "intense"@));
            assert(spec_style_flag(match_entry.styles@, "underline"@));
        }
        let mut search_color_specs: Vec<ConfigColorSpec> = Vec::new();
        search_color_specs.push(match_entry);
        search_color_specs.push(ConfigColorSpec::named_fg("line", 1, 246, 238));
        search_color_specs.push(ConfigColorSpec::named_fg("path", 1, 246, 238));
        let mut column_entry = ConfigColorSpec::default();
        column_entry.name = "column".to_owned();
        search_color_specs.push(column_entry);
        TomlSettings {
            use_pdf_tool: AvailablePdfTools::UseXpdfTools,
            xpdf_tools_folder: Some("./".to_owned()),
            search_color_specs,
            info_color_spec: ConfigColorSpec::named_fg("info", 52, 154, 179),
        }
    }
}

/// The index of the first entry bearing `name`, or `None`.
fn find_named(items: &Vec<ConfigColorSpec>, name: &String) -> (r: Option<usize>)
    ensures
        r matches Some(i) ==> i < items@.len() && spec_find_named(items@, name@) == Some(
            items@[i as int],
        ),
        r is None ==> spec_find_named(items@, name@) is None,
{
    let n = items.len();
    let mut i: usize = 0;
    proof {
        assert(items@.skip(0) =~= items@);
    }
    while i < n
        invariant
            n == items@.len(),
            i <= n,
            spec_find_named(items@, name@) == spec_find_named(items@.skip(i as int), name@),
        decreases n - i,
    {
        proof {
            assert(items@.skip(i as int)[0] == items@[i as int]);
            assert(items@.skip(i as int).drop_first() =~= items@.skip(i + 1));
        }
        if items[i].name == *name {
            return Some(i);
        }
        i = i + 1;
    }
    proof {
        assert(items@.skip(n as int) =~= Seq::<ConfigColorSpec>::empty());
    }
    None
}

impl TomlSettings {
    /// Resolve the colour entries into the engine's four colour slots.
    pub fn make_color_specs(&self) -> (r: SearchColorSpecs)
        ensures
            r == spec_make_color_specs(self.search_color_specs@),
    {
        let defaults = SearchColorSpecs::default();
        let match_spec = match find_named(&self.search_color_specs, &"match".to_owned()) {
            Some(i) => self.search_color_specs[i].to_style_spec(),
            None => defaults.match_spec,
        };
        let info_spec = match find_named(&self.search_color_specs, &"path".to_owned()) {
            Some(i) => self.search_color_specs[i].to_style_spec(),
            None => defaults.info_spec,
        };
        let extra_spec = match find_named(&self.search_color_specs, &"line".to_owned()) {
            Some(i) => self.search_color_specs[i].to_style_spec(),
            None => defaults.extra_spec,
        };
        SearchColorSpecs { match_spec, text_spec: defaults.text_spec, info_spec, extra_spec }
    }

    /// The style of the informational entry: its colours alone, as the
    /// engine's header and footer colour.
    pub fn get_info_color_spec(&self) -> (r: StyleSpec)
        ensures
            r == spec_fg_bg_style(self.info_color_spec),
    {
        let mut spec = StyleSpec::plain();
        if let Some((cr, cg, cb)) = self.info_color_spec.fg {
            spec.fg = Some(Rgb { r: cr, g: cg, b: cb });
        }
        if let Some((cr, cg, cb)) = self.info_color_spec.bg {
            spec.bg = Some(Rgb { r: cr, g: cg, b: cb });
        }
        spec
    }
}

} // verus!

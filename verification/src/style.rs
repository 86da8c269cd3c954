//! Style names resolved to concrete color and attribute sets.
//!
//! A style name such as `pri_a` or `project` resolves to a [`ColorSpec`]:
//! a configuration entry whose name matches case-insensitively overrides
//! the built-in default for that name attribute by attribute; unknown
//! names fall back to no style at all.

use vstd::prelude::*;
use crate::config::AppContext;
use crate::errors::ErrorType;
use crate::filter::lower_code;
use crate::text::{str_chars, str_eq_x};

verus! {

/// Color settings for one named style, each attribute optional.
#[derive(Debug, Clone, PartialEq, Eq)]
pub struct Style {
    /// The style name this entry applies to.
    pub name: String,
    /// Foreground color, as an ANSI 256-color code.
    pub color_fg: Option<u8>,
    /// Background color, as an ANSI 256-color code.
    pub color_bg: Option<u8>,
    pub bold: Option<bool>,
    pub intense: Option<bool>,
    pub underline: Option<bool>,
}

/// Named constants of the ANSI 256-color table used by the defaults.
#[derive(Debug)]
pub struct Ansi;

impl Ansi {
    pub const BLUE: u8 = 4;

    pub const GREEN: u8 = 2;

    pub const GREY: u8 = 246;

    pub const HOTPINK: u8 = 198;

    pub const LIGHTORANGE: u8 = 215;

    pub const LIME: u8 = 154;

    pub const OLIVE: u8 = 113;

    pub const SKYBLUE: u8 = 111;

    pub const TAN: u8 = 179;

    pub const TURQUOISE: u8 = 37;
}

/// The name starts with `pri`.
pub open spec fn starts_with_pri(name: Seq<char>) -> bool {
    name.len() >= 3 && name[0] == 'p' && name[1] == 'r' && name[2] == 'i'
}

/// The built-in default foreground color of a style name: four named
/// accent colors for `pri_a` through `pri_d`, a catch-all for any other
/// priority name, one color each for `project` and `context`, and none
/// for every other name.
pub open spec fn spec_default_fg(name: Seq<char>) -> Option<u8> {
    if starts_with_pri(name) {
        if name == "pri_a"@ {
            Some(198u8)
        } else if name == "pri_b"@ {
            Some(2u8)
        } else if name == "pri_c"@ {
            Some(4u8)
        } else if name == "pri_d"@ {
            Some(37u8)
        } else {
            Some(179u8)
        }
    } else if name == "project"@ {
        Some(154u8)
    } else if name == "context"@ {
        Some(215u8)
    } else {
        None
    }
}

impl Style {
    /// The built-in default for a style name: its default foreground
    /// color and no other attribute.
    pub fn default(name: &str) -> (r: Style)
        ensures
            r.name@ == name@,
            r.color_fg == spec_default_fg(name@),
            r.color_bg is None,
            r.bold is None,
            r.intense is None,
            r.underline is None,
    {
        let chars = str_chars(name);
        let is_pri = chars.len() >= 3 && chars[0] == 'p' && chars[1] == 'r' && chars[2] == 'i';
        assert(is_pri == starts_with_pri(name@));
        let color_fg: Option<u8> = if is_pri {
            if str_eq_x(name, "pri_a") {
                Some(Ansi::HOTPINK)
            } else if str_eq_x(name, "pri_b") {
                Some(Ansi::GREEN)
            } else if str_eq_x(name, "pri_c") {
                Some(Ansi::BLUE)
            } else if str_eq_x(name, "pri_d") {
                Some(Ansi::TURQUOISE)
            } else {
                Some(Ansi::TAN)
            }
        } else if str_eq_x(name, "project") {
            Some(Ansi::LIME)
        } else if str_eq_x(name, "context") {
            Some(Ansi::LIGHTORANGE)
        } else {
            None
        };
        Style {
            name: name.to_owned(),
            color_fg,
            color_bg: None,
            bold: None,
            intense: None,
            underline: None,
        }
    }
}

/// A fully resolved attribute set for rendering one piece of text.
#[derive(Debug, Clone, Copy, PartialEq, Eq, Structural)]
pub struct ColorSpec {
    /// Foreground color, as an ANSI 256-color code.
    pub fg: Option<u8>,
    /// Background color, as an ANSI 256-color code.
    pub bg: Option<u8>,
    pub bold: bool,
    pub intense: bool,
    pub underline: bool,
}

impl ColorSpec {
    /// No color and no attribute: plain text.
    pub open spec fn spec_plain() -> ColorSpec {
        ColorSpec { fg: None, bg: None, bold: false, intense: false, underline: false }
    }

    /// No color and no attribute: plain text.
    pub fn plain() -> (r: ColorSpec)
        ensures
            r == ColorSpec::spec_plain(),
    {
        ColorSpec { fg: None, bg: None, bold: false, intense: false, underline: false }
    }
}

/// Two names are equal up to ASCII case.
pub open spec fn name_eq_ci(a: Seq<char>, b: Seq<char>) -> bool {
    a.len() == b.len() && forall|i: int| 0 <= i < a.len() ==> lower_code(a[i]) == lower_code(b[i])
}

/// The first configured style whose name matches, case-insensitively.
pub open spec fn find_override(styles: Seq<Style>, name: Seq<char>) -> Option<Style>
    decreases styles.len(),
{
    if styles.len() == 0 {
        None
    } else if name_eq_ci(styles[0].name@, name) {
        Some(styles[0])
    } else {
        find_override(styles.drop_first(), name)
    }
}

/// What a style name resolves to: the matching configuration entry's
/// explicitly-set attributes laid over the built-in default for that
/// name, attribute by attribute.
pub open spec fn resolve_style(styles: Seq<Style>, name: Seq<char>) -> ColorSpec {
    match find_override(styles, name) {
        None => ColorSpec {
            fg: spec_default_fg(name),
            bg: None,
            bold: false,
            intense: false,
            underline: false,
        },
        Some(o) => ColorSpec {
            fg: if o.color_fg is Some {
                o.color_fg
            } else {
                spec_default_fg(name)
            },
            bg: o.color_bg,
            bold: o.bold == Some(true),
            intense: o.intense == Some(true),
            underline: o.underline == Some(true),
        },
    }
}

/// Are two names equal up to ASCII case, executably?
fn name_eq_ci_x(a: &str, b: &str) -> (r: bool)
    ensures
        r == name_eq_ci(a@, b@),
{
    let av = str_chars(a);
    let bv = str_chars(b);
    if av.len() != bv.len() {
        return false;
    }
    let mut i: usize = 0;
    while i < av.len()
        invariant
            av@ == a@,
            bv@ == b@,
            av@.len() == bv@.len(),
            0 <= i <= av@.len(),
            forall|j: int| 0 <= j < i ==> lower_code(av@[j]) == lower_code(bv@[j]),
        decreases av@.len() - i,
    {
        if crate::filter::lower_code_x(av[i]) != crate::filter::lower_code_x(bv[i]) {
            return false;
        }
        i = i + 1;
    }
    true
}

/// Resolve a style name against the configured overrides, falling back
/// to the built-in defaults.  Resolution never fails; the error type is
/// kept for callers that treat it as fallible.
pub fn get_colors_from_style(name: &str, ctx: &AppContext) -> (r: Result<ColorSpec, ErrorType>)
    ensures
        r == Result::<ColorSpec, ErrorType>::Ok(resolve_style(ctx.styles@, name@)),
{
    let n = ctx.styles.len();
    let mut i: usize = 0;
    proof {
        assert(ctx.styles@.skip(0) =~= ctx.styles@);
    }
    while i < n
        invariant
            n == ctx.styles@.len(),
            0 <= i <= n,
            find_override(ctx.styles@, name@) == find_override(ctx.styles@.skip(i as int), name@),
        decreases n - i,
    {
        proof {
            assert(ctx.styles@.skip(i as int)[0] == ctx.styles@[i as int]);
            assert(ctx.styles@.skip(i as int).drop_first() =~= ctx.styles@.skip(i + 1));
        }
        let st = &ctx.styles[i];
        if name_eq_ci_x(st.name.as_str(), name) {
            let dflt = Style::default(name);
            let fg: Option<u8> = match st.color_fg {
                Some(c) => Some(c),
                None => dflt.color_fg,
            };
            let bold = matches!(st.bold, Some(true));
            let intense = matches!(st.intense, Some(true));
            let underline = matches!(st.underline, Some(true));
            return Ok(ColorSpec { fg, bg: st.color_bg, bold, intense, underline });
        }
        i = i + 1;
    }
    proof {
        assert(ctx.styles@.skip(n as int) =~= Seq::<Style>::empty());
    }
    let dflt = Style::default(name);
    Ok(ColorSpec { fg: dflt.color_fg, bg: None, bold: false, intense: false, underline: false })
}

} // verus!

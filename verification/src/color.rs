//! Terminal style state and the minimal-escape difference.
//!
//! Terminal escape codes are additive: there is no code that removes one
//! single attribute.  [`Difference::between`] therefore decides, given the
//! active style and a requested one, whether nothing need be written,
//! whether the newly-added attributes alone may be written, or whether a
//! full reset must come first.  [`lemma_between_correct`] states that the
//! decision is sound: replaying it always leaves exactly the requested
//! style active, so no attribute ever leaks across tokens.

use vstd::prelude::*;

verus! {

/// A terminal color.
#[derive(Debug, PartialEq, Eq, Copy, Clone, Structural)]
pub enum Color {
    Red,
    Green,
    Yellow,
    Blue,
    Magenta,
    Cyan,
    White,
    Black,
    /// An ANSI 256-color table value.
    Ansi256(u8),
    /// A 24-bit color value.
    RGB(u8, u8, u8),
}

/// One style marker that can be applied to the terminal state.
#[derive(Debug, PartialEq, Eq, Copy, Clone, Structural)]
pub enum StyleSpec {
    /// Reset to plain terminal style.
    Reset,
    /// Bold text.
    Bold,
    /// Underlined text.
    Underline,
    /// Italic text.
    Italic,
    /// Set a foreground color.
    Fg(Color),
    /// Set a background color.
    Bg(Color),
    /// A raw numeric escape; carries no tracked state.
    Number(u8),
}

/// The style state a terminal is in.
#[derive(Debug, Copy, Clone, PartialEq, Eq, Structural)]
pub struct StyleContext {
    pub fg: Option<Color>,
    pub bg: Option<Color>,
    pub bold: bool,
    pub italics: bool,
    pub underline: bool,
}

/// What applying one marker does to the style state.
pub open spec fn spec_add(c: StyleContext, style: StyleSpec) -> StyleContext {
    match style {
        StyleSpec::Fg(color) => StyleContext { fg: Some(color), ..c },
        StyleSpec::Bg(color) => StyleContext { bg: Some(color), ..c },
        StyleSpec::Bold => StyleContext { bold: true, ..c },
        StyleSpec::Italic => StyleContext { italics: true, ..c },
        StyleSpec::Underline => StyleContext { underline: true, ..c },
        StyleSpec::Number(_) => c,
        StyleSpec::Reset => spec_plain_context(),
    }
}

/// The plain state: no color, no attribute.
pub open spec fn spec_plain_context() -> StyleContext {
    StyleContext { fg: None, bg: None, bold: false, italics: false, underline: false }
}

impl StyleContext {
    /// Apply one style marker to this state.
    pub fn add(&mut self, style: StyleSpec)
        ensures
            *final(self) == spec_add(*old(self), style),
    {
        match style {
            StyleSpec::Fg(color) => {
                self.fg = Some(color);
            },
            StyleSpec::Bg(color) => {
                self.bg = Some(color);
            },
            StyleSpec::Bold => {
                self.bold = true;
            },
            StyleSpec::Italic => {
                self.italics = true;
            },
            StyleSpec::Underline => {
                self.underline = true;
            },
            StyleSpec::Number(_) => {},
            StyleSpec::Reset => {
                self.fg = None;
                self.bg = None;
                self.bold = false;
                self.italics = false;
                self.underline = false;
            },
        }
    }

    /// The plain state: no color, no attribute.
    pub fn plain() -> (r: StyleContext)
        ensures
            r == spec_plain_context(),
    {
        StyleContext { fg: None, bg: None, bold: false, italics: false, underline: false }
    }

    /// Apply a sequence of style markers in order, starting plain.
    pub fn from_specs(styles: &[StyleSpec]) -> (r: StyleContext)
        ensures
            r == spec_from_specs(styles@),
    {
        let mut c = StyleContext::plain();
        let mut i: usize = 0;
        proof {
            assert(styles@.subrange(0, 0) =~= Seq::<StyleSpec>::empty());
        }
        while i < styles.len()
            invariant
                0 <= i <= styles@.len(),
                c == spec_from_specs(styles@.subrange(0, i as int)),
            decreases styles@.len() - i,
        {
            proof {
                assert(styles@.subrange(0, i + 1).drop_last() =~= styles@.subrange(0, i as int));
            }
            c.add(styles[i]);
            i = i + 1;
        }
        proof {
            assert(styles@.subrange(0, styles@.len() as int) =~= styles@);
        }
        c
    }
}

/// The state reached by applying markers in order, starting plain.
pub open spec fn spec_from_specs(styles: Seq<StyleSpec>) -> StyleContext
    decreases styles.len(),
{
    if styles.len() == 0 {
        spec_plain_context()
    } else {
        spec_add(spec_from_specs(styles.drop_last()), styles.last())
    }
}

impl Default for StyleContext {
    /// The plain state.
    fn default() -> (r: Self)
        ensures
            r == spec_plain_context(),
    {
        StyleContext { fg: None, bg: None, bold: false, italics: false, underline: false }
    }
}

/// How to move the terminal from one style state to another.
#[derive(Debug, PartialEq, Eq, Copy, Clone, Structural)]
pub enum Difference {
    /// The states are equal: write nothing.
    NoChange,
    /// Writing just these added attributes reaches the new state.
    AddOnly(StyleContext),
    /// Some attribute must be removed, and escape codes are additive
    /// only: a full reset must be written, then the new state.
    MustReset,
}

/// Whether moving from `prev` to `next` removes any attribute.
pub open spec fn needs_reset(prev: StyleContext, next: StyleContext) -> bool {
    ||| (prev.fg is Some && next.fg is None)
    ||| (prev.bg is Some && next.bg is None)
    ||| (prev.bold && !next.bold)
    ||| (prev.italics && !next.italics)
    ||| (prev.underline && !next.underline)
}

/// The decision [`Difference::between`] makes.
pub open spec fn spec_between(prev: StyleContext, next: StyleContext) -> Difference {
    if prev == next {
        Difference::NoChange
    } else if needs_reset(prev, next) {
        Difference::MustReset
    } else {
        Difference::AddOnly(
            StyleContext {
                fg: if next.fg != prev.fg {
                    next.fg
                } else {
                    None
                },
                bg: if next.bg != prev.bg {
                    next.bg
                } else {
                    None
                },
                bold: !prev.bold && next.bold,
                italics: !prev.italics && next.italics,
                underline: !prev.underline && next.underline,
            },
        )
    }
}

/// Laying an additive attribute set over an active state: set attributes
/// win, absent ones keep the active state.
pub open spec fn overlay(prev: StyleContext, added: StyleContext) -> StyleContext {
    StyleContext {
        fg: if added.fg is Some {
            added.fg
        } else {
            prev.fg
        },
        bg: if added.bg is Some {
            added.bg
        } else {
            prev.bg
        },
        bold: prev.bold || added.bold,
        italics: prev.italics || added.italics,
        underline: prev.underline || added.underline,
    }
}

impl Difference {
    /// Decide the minimal escape output that moves the terminal from the
    /// `prev` style state to the `next` one.
    pub fn between(prev: &StyleContext, next: &StyleContext) -> (r: Difference)
        ensures
            r == spec_between(*prev, *next),
    {
        if prev == next {
            return Difference::NoChange;
        }
        if (prev.fg.is_some() && next.fg.is_none()) || (prev.bg.is_some() && next.bg.is_none()) || (
        prev.bold && !next.bold) || (prev.italics && !next.italics) || (prev.underline
            && !next.underline) {
            return Difference::MustReset;
        }
        Difference::AddOnly(
            StyleContext {
                fg: if next.fg != prev.fg {
                    next.fg
                } else {
                    None
                },
                bg: if next.bg != prev.bg {
                    next.bg
                } else {
                    None
                },
                bold: !prev.bold && next.bold,
                italics: !prev.italics && next.italics,
                underline: !prev.underline && next.underline,
            },
        )
    }
}

/// The minimal-escape decision is sound and minimal: equal states need
/// nothing; when only additions are needed, overlaying exactly the
/// returned attributes on the active state reaches the requested one; and
/// a reset is demanded exactly when some attribute has to disappear,
/// which additive escape codes cannot do.
pub proof fn lemma_between_correct(prev: StyleContext, next: StyleContext)
    ensures
        spec_between(prev, next) == Difference::NoChange ==> prev == next,
        forall|d: StyleContext|
            spec_between(prev, next) == Difference::AddOnly(d) ==> overlay(prev, d) == next,
        spec_between(prev, next) == Difference::MustReset ==> needs_reset(prev, next),
        needs_reset(prev, next) ==> spec_between(prev, next) != Difference::NoChange
            && !(spec_between(prev, next) is AddOnly),
{
}

/// The markers a state is written as: a lone reset for the plain state,
/// else one marker for each attribute the state sets.
pub open spec fn spec_write_to(c: StyleContext) -> Seq<StyleSpec> {
    if c == spec_plain_context() {
        seq![StyleSpec::Reset]
    } else {
        let s0 = Seq::<StyleSpec>::empty();
        let s1 = if c.bold {
            s0.push(StyleSpec::Bold)
        } else {
            s0
        };
        let s2 = if c.italics {
            s1.push(StyleSpec::Italic)
        } else {
            s1
        };
        let s3 = if c.underline {
            s2.push(StyleSpec::Underline)
        } else {
            s2
        };
        let s4 = if c.fg is Some {
            s3.push(StyleSpec::Fg(c.fg->0))
        } else {
            s3
        };
        if c.bg is Some {
            s4.push(StyleSpec::Bg(c.bg->0))
        } else {
            s4
        }
    }
}

/// The state reached by applying markers in order over a starting state.
pub open spec fn spec_apply_all(prev: StyleContext, codes: Seq<StyleSpec>) -> StyleContext
    decreases codes.len(),
{
    if codes.len() == 0 {
        prev
    } else {
        spec_add(spec_apply_all(prev, codes.drop_last()), codes.last())
    }
}

/// The markers written when moving from `prev` to `next` under the
/// minimal-escape rule: nothing for equal states, only the added
/// attributes where that suffices, else a reset and the whole new state.
pub open spec fn spec_write_difference(prev: StyleContext, next: StyleContext) -> Seq<StyleSpec> {
    match spec_between(prev, next) {
        Difference::NoChange => Seq::empty(),
        Difference::AddOnly(d) => spec_write_to(d),
        Difference::MustReset => seq![StyleSpec::Reset] + spec_write_to(next),
    }
}

/// Applying a state's own markers over a state yields the overlay of the
/// written state, provided the written state is not plain (the plain
/// state is written as a reset instead).
proof fn lemma_write_to_applies(prev: StyleContext, c: StyleContext)
    ensures
        c != spec_plain_context() ==> spec_apply_all(prev, spec_write_to(c)) == overlay(prev, c),
        c == spec_plain_context() ==> spec_apply_all(prev, spec_write_to(c))
            == spec_plain_context(),
{
    reveal_with_fuel(spec_apply_all, 3);
    if c == spec_plain_context() {
        assert(seq![StyleSpec::Reset].drop_last() =~= Seq::<StyleSpec>::empty());
    } else {
        let s0 = Seq::<StyleSpec>::empty();
        let s1 = if c.bold {
            s0.push(StyleSpec::Bold)
        } else {
            s0
        };
        let s2 = if c.italics {
            s1.push(StyleSpec::Italic)
        } else {
            s1
        };
        let s3 = if c.underline {
            s2.push(StyleSpec::Underline)
        } else {
            s2
        };
        let s4 = if c.fg is Some {
            s3.push(StyleSpec::Fg(c.fg->0))
        } else {
            s3
        };
        let s5 = if c.bg is Some {
            s4.push(StyleSpec::Bg(c.bg->0))
        } else {
            s4
        };
        assert(spec_write_to(c) == s5);
        let st0 = prev;
        let st1 = if c.bold {
            spec_add(st0, StyleSpec::Bold)
        } else {
            st0
        };
        assert(spec_apply_all(prev, s1) == st1) by {
            if c.bold {
                assert(s1.drop_last() =~= s0);
            }
        }
        let st2 = if c.italics {
            spec_add(st1, StyleSpec::Italic)
        } else {
            st1
        };
        assert(spec_apply_all(prev, s2) == st2) by {
            if c.italics {
                assert(s2.drop_last() =~= s1);
            }
        }
        let st3 = if c.underline {
            spec_add(st2, StyleSpec::Underline)
        } else {
            st2
        };
        assert(spec_apply_all(prev, s3) == st3) by {
            if c.underline {
                assert(s3.drop_last() =~= s2);
            }
        }
        let st4 = if c.fg is Some {
            spec_add(st3, StyleSpec::Fg(c.fg->0))
        } else {
            st3
        };
        assert(spec_apply_all(prev, s4) == st4) by {
            if c.fg is Some {
                assert(s4.drop_last() =~= s3);
            }
        }
        let st5 = if c.bg is Some {
            spec_add(st4, StyleSpec::Bg(c.bg->0))
        } else {
            st4
        };
        assert(spec_apply_all(prev, s5) == st5) by {
            if c.bg is Some {
                assert(s5.drop_last() =~= s4);
            }
        }
        assert(st5 == overlay(prev, c));
    }
}

/// No attribute ever leaks: replaying the minimal-escape difference over
/// the active state always lands exactly on the requested state.
pub proof fn lemma_write_difference_correct(prev: StyleContext, next: StyleContext)
    ensures
        spec_apply_all(prev, spec_write_difference(prev, next)) == next,
{
    lemma_between_correct(prev, next);
    match spec_between(prev, next) {
        Difference::NoChange => {},
        Difference::AddOnly(d) => {
            lemma_write_to_applies(prev, d);
        },
        Difference::MustReset => {
            let codes = seq![StyleSpec::Reset] + spec_write_to(next);
            lemma_apply_all_split(prev, seq![StyleSpec::Reset], spec_write_to(next));
            assert(spec_apply_all(prev, seq![StyleSpec::Reset]) == spec_plain_context()) by {
                assert(seq![StyleSpec::Reset].drop_last() =~= Seq::<StyleSpec>::empty());
            }
            lemma_write_to_applies(spec_plain_context(), next);
        },
    }
}

/// Applying concatenated marker lists equals applying them one after the
/// other.
proof fn lemma_apply_all_split(prev: StyleContext, a: Seq<StyleSpec>, b: Seq<StyleSpec>)
    ensures
        spec_apply_all(prev, a + b) == spec_apply_all(spec_apply_all(prev, a), b),
    decreases b.len(),
{
    if b.len() == 0 {
        assert(a + b =~= a);
    } else {
        assert((a + b).drop_last() =~= a + b.drop_last());
        lemma_apply_all_split(prev, a, b.drop_last());
    }
}

impl StyleContext {
    /// Write this state's markers into a buffer: a lone reset for the
    /// plain state, else one marker per attribute set.
    pub fn write_to(&self, out: &mut Vec<StyleSpec>)
        ensures
            final(out)@ == old(out)@ + spec_write_to(*self),
    {
        let plain = StyleContext::plain();
        if *self == plain {
            out.push(StyleSpec::Reset);
            proof {
                assert(final(out)@ =~= old(out)@ + spec_write_to(*self));
            }
            return;
        }
        if self.bold {
            out.push(StyleSpec::Bold);
        }
        if self.italics {
            out.push(StyleSpec::Italic);
        }
        if self.underline {
            out.push(StyleSpec::Underline);
        }
        if let Some(fg) = self.fg {
            out.push(StyleSpec::Fg(fg));
        }
        if let Some(bg) = self.bg {
            out.push(StyleSpec::Bg(bg));
        }
        proof {
            assert(final(out)@ =~= old(out)@ + spec_write_to(*self));
        }
    }

    /// Write the minimal markers that move the terminal from `prev` to
    /// this state: nothing when they are equal, only the added attributes
    /// where no attribute disappears, else a full reset and this state.
    pub fn write_difference(&self, out: &mut Vec<StyleSpec>, prev: &StyleContext)
        ensures
            final(out)@ == old(out)@ + spec_write_difference(*prev, *self),
            spec_apply_all(*prev, spec_write_difference(*prev, *self)) == *self,
    {
        proof {
            lemma_write_difference_correct(*prev, *self);
        }
        match Difference::between(prev, self) {
            Difference::NoChange => {
                proof {
                    assert(final(out)@ =~= old(out)@ + spec_write_difference(*prev, *self));
                }
            },
            Difference::AddOnly(style) => {
                style.write_to(out);
            },
            Difference::MustReset => {
                out.push(StyleSpec::Reset);
                self.write_to(out);
                proof {
                    assert(final(out)@ =~= old(out)@ + spec_write_difference(*prev, *self));
                }
            },
        }
    }
}

} // verus!

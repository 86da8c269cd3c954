//! A verified core for a line-oriented plain-text task list.
//!
//! Each line of a task file is parsed into a structured [`task::Task`]
//! while the original text is kept verbatim for write-back.  The library
//! provides multi-key stable sorting, an AND/OR/NOT term filter, style
//! resolution with built-in defaults, and a renderer that emits styled
//! output through a minimal-escape-sequence diffing writer.

pub mod actions;
pub mod color;
pub mod config;
pub mod date;
pub mod errors;
pub mod filter;
pub mod list;
pub mod render;
pub mod sort;
pub mod task;
pub mod style;
pub mod tasks;
pub mod text;
pub mod util;

use vstd::prelude::*;

verus! {

/// Characters this library treats as token separators: the Unicode
/// white-space characters, as the standard library's whitespace splitting
/// knows them.
pub open spec fn spec_is_space(c: char) -> bool {
    ||| c == ' '
    ||| c == '\t'
    ||| c == '\n'
    ||| c as u32 == 0x0B
    ||| c as u32 == 0x0C
    ||| c == '\r'
    ||| c as u32 == 0x85
    ||| c as u32 == 0xA0
    ||| c as u32 == 0x1680
    ||| (0x2000 <= c as u32 <= 0x200A)
    ||| c as u32 == 0x2028
    ||| c as u32 == 0x2029
    ||| c as u32 == 0x202F
    ||| c as u32 == 0x205F
    ||| c as u32 == 0x3000
}

/// Executable counterpart of [`spec_is_space`].
pub fn is_space(c: char) -> (r: bool)
    ensures
        r == spec_is_space(c),
{
    c == ' ' || c == '\t' || c == '\n' || c as u32 == 0x0B || c as u32 == 0x0C || c == '\r' || c
        as u32 == 0x85 || c as u32 == 0xA0 || c as u32 == 0x1680 || (0x2000 <= c as u32 && c as u32
        <= 0x200A) || c as u32 == 0x2028 || c as u32 == 0x2029 || c as u32 == 0x202F || c as u32
        == 0x205F || c as u32 == 0x3000
}

/// A line is blank when it holds no non-whitespace character; blank lines
/// are dropped from listings while their text stays verbatim.
pub open spec fn spec_line_blank(s: Seq<char>) -> bool {
    forall|i: int| 0 <= i < s.len() ==> spec_is_space(#[trigger] s[i])
}

} // verus!

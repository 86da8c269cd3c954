//! Small shared helpers.

use vstd::prelude::*;
use crate::text::push_char;

verus! {

/// The style name of a priority rank: `pri_a` for rank 0 through `pri_z`
/// for rank 25.
pub open spec fn spec_pri_name(pri: u8) -> Seq<char> {
    seq!['p', 'r', 'i', '_', ((97 + pri) as u8) as char]
}

/// Get the style name of a priority rank, in the form `pri_x`; ranks
/// beyond the letters have none.
pub fn get_pri_name(pri: u8) -> (r: Option<String>)
    ensures
        pri <= 25 ==> (r matches Some(s) && s@ == spec_pri_name(pri)),
        pri > 25 ==> r is None,
{
    if pri <= 25 {
        let mut s = String::new();
        push_char(&mut s, 'p');
        push_char(&mut s, 'r');
        push_char(&mut s, 'i');
        push_char(&mut s, '_');
        push_char(&mut s, (97 + pri) as char);
        proof {
            assert(s@ =~= spec_pri_name(pri));
        }
        Some(s)
    } else {
        None
    }
}

/// Does an answer line say yes?  It does exactly when its first
/// character, lowered, is a `y`.
pub fn answer_is_yes(input: &str) -> (r: bool)
    ensures
        r == (input@.len() > 0 && crate::filter::lower_code(input@[0]) == 'y' as u32),
{
    let v = crate::text::str_chars(input);
    if v.len() == 0 {
        return false;
    }
    crate::filter::lower_code_x(v[0]) == 121
}

} // verus!

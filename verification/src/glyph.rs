use vstd::prelude::*;

verus! {

/// The code page 437 code that the terminal library's `to_cp437` gives a
/// character (0 where it has none).
pub uninterp spec fn cp437_code(c: char) -> u16;

/// Calls `rltk::to_cp437`, a fixed table from characters to code page 437
/// codes. The claim is that the result is that table's entry for `c`,
/// named `cp437_code`; the table itself is not restated.
#[verifier::external_body]
pub(crate) fn to_cp437(c: char) -> (code: u16)
    ensures
        code == cp437_code(c),
{
    rltk::to_cp437(c)
}

} // verus!

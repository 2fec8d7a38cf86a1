//! Character-level helpers shared by the layout engine.
use vstd::prelude::*;

verus! {

/// Unicode `White_Space`: the characters on which a line may be broken and
/// which are trimmed from the start of a wrapped line.
pub open spec fn is_space_spec(c: char) -> bool {
    let u = c as u32;
    (0x09 <= u <= 0x0d) || u == 0x20 || u == 0x85 || u == 0xa0 || u == 0x1680 || (0x2000 <= u
        <= 0x200a) || u == 0x2028 || u == 0x2029 || u == 0x202f || u == 0x205f || u == 0x3000
}

pub fn is_space(c: char) -> (r: bool)
    ensures
        r == is_space_spec(c),
{
    let u = c as u32;
    (0x09 <= u && u <= 0x0d) || u == 0x20 || u == 0x85 || u == 0xa0 || u == 0x1680 || (0x2000 <= u
        && u <= 0x200a) || u == 0x2028 || u == 0x2029 || u == 0x202f || u == 0x205f || u == 0x3000
}

/// The character drawn for a character of the text: a newline inside
/// flowing text is drawn as a space.
pub open spec fn drawn_char_spec(c: char) -> char {
    if c == '\n' {
        ' '
    } else {
        c
    }
}

pub fn drawn_char(c: char) -> (r: char)
    ensures
        r == drawn_char_spec(c),
{
    if c == '\n' {
        ' '
    } else {
        c
    }
}

} // verus!

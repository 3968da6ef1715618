//! Lines and columns of byte offsets in UTF-8 source text.

use vstd::prelude::*;

verus! {

/// One-based line of byte offset `off`: one more than the number of line
/// feeds before it. Offsets past the end count as the end.
pub open spec fn line_at(b: Seq<u8>, off: int) -> nat
    decreases off,
{
    if off <= 0 {
        1
    } else if off > b.len() {
        line_at(b, b.len() as int)
    } else {
        line_at(b, off - 1) + if b[off - 1] == 10u8 { 1nat } else { 0nat }
    }
}

/// A UTF-8 continuation byte, which does not start a character.
pub open spec fn is_continuation(x: u8) -> bool {
    128 <= x && x < 192
}

/// Zero-based character column of byte offset `off` on its line.
pub open spec fn col_at(b: Seq<u8>, off: int) -> nat
    decreases off,
{
    if off <= 0 {
        0
    } else if off > b.len() {
        col_at(b, b.len() as int)
    } else if b[off - 1] == 10u8 {
        0
    } else {
        col_at(b, off - 1) + if is_continuation(b[off - 1]) { 0nat } else { 1nat }
    }
}

/// Executable form of `line_at`.
pub fn line_of_offset(b: &[u8], off: usize) -> (r: usize)
    requires
        b@.len() < usize::MAX,
    ensures
        r as nat == line_at(b@, off as int),
{
    let end = if off > b.len() { b.len() } else { off };
    let mut line: usize = 1;
    let mut i: usize = 0;
    while i < end
        invariant
            end <= b@.len(),
            end == off || (off > b@.len() && end == b@.len()),
            i <= end,
            b@.len() < usize::MAX,
            line as nat == line_at(b@, i as int),
            line <= i + 1,
        decreases end - i,
    {
        if b[i] == 10u8 {
            line = line + 1;
        }
        i = i + 1;
    }
    line
}

/// Executable form of `col_at`.
pub fn col_of_offset(b: &[u8], off: usize) -> (r: usize)
    ensures
        r as nat == col_at(b@, off as int),
        r <= b@.len(),
{
    let end = if off > b.len() { b.len() } else { off };
    let mut col: usize = 0;
    let mut i: usize = 0;
    while i < end
        invariant
            end <= b@.len(),
            end == off || (off > b@.len() && end == b@.len()),
            i <= end,
            col as nat == col_at(b@, i as int),
            col <= i,
        decreases end - i,
    {
        if b[i] == 10u8 {
            col = 0;
        } else if !(128u8 <= b[i] && b[i] < 192u8) {
            col = col + 1;
        }
        i = i + 1;
    }
    col
}

} // verus!

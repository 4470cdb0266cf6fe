//! The characters of the markup that the converter emits.
use vstd::prelude::*;

verus! {

/// The character that marks a heading line.
pub const HEADING_MARKER: char = '#';

/// `<p>`
pub open spec fn p_open() -> Seq<char> {
    seq!['<', 'p', '>']
}

/// `</p>` followed by a newline.
pub open spec fn p_close() -> Seq<char> {
    seq!['<', '/', 'p', '>', '\n']
}

/// `<h1>`
pub open spec fn h1_open() -> Seq<char> {
    seq!['<', 'h', '1', '>']
}

/// `</h1>` followed by a newline.
pub open spec fn h1_close() -> Seq<char> {
    seq!['<', '/', 'h', '1', '>', '\n']
}

/// The fragment that an empty paragraph would make; it is never emitted.
pub open spec fn empty_paragraph() -> Seq<char> {
    p_open() + p_close()
}

} // verus!

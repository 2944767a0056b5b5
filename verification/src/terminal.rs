//! The size of the terminal that the process is attached to.
//!
//! Detection can fail: the process may have no terminal at all. The policy
//! here is to fall back, never to fail: where no terminal answers, the size
//! is taken to be 80 by 24.

use vstd::prelude::*;

verus! {

/// Width taken where no terminal answers.
pub const DEFAULT_WIDTH: usize = 80;

/// Height taken where no terminal answers.
pub const DEFAULT_HEIGHT: usize = 24;

/// Asks `term_size::dimensions` for the width and height of the terminal
/// behind the standard streams. The answer depends on the process's
/// environment, so nothing is claimed of it: it may be absent, and on some
/// platforms a reported dimension may be zero.
#[verifier::external_body]
fn detect_dimensions() -> (detected: Option<(usize, usize)>) {
    term_size::dimensions()
}

/// The size to work with, given what detection answered.
pub open spec fn dimensions_or_default(detected: Option<(usize, usize)>) -> (usize, usize) {
    match detected {
        Some(size) => size,
        None => (DEFAULT_WIDTH, DEFAULT_HEIGHT),
    }
}

/// The size to work with, given what detection answered: the detected size
/// as it is, or the default where there was none.
pub fn resolve_dimensions(detected: Option<(usize, usize)>) -> (size: (usize, usize))
    ensures
        size == dimensions_or_default(detected),
{
    match detected {
        Some(size) => size,
        None => (DEFAULT_WIDTH, DEFAULT_HEIGHT),
    }
}

/// The size of the terminal, or the default where none answers.
pub fn terminal_dimensions() -> (size: (usize, usize)) {
    resolve_dimensions(detect_dimensions())
}

} // verus!

//! The typesetting backend an export request names.
use vstd::prelude::*;

verus! {

/// The program family that typesets a formula.
#[derive(Clone, Copy, Debug, PartialEq, Eq, Structural)]
pub enum Backend {
    Latex,
    Typst,
}

} // verus!

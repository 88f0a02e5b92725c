//! The kinds of bow simulation.
use vstd::prelude::*;

verus! {

/// A static simulation (the bow is drawn slowly) or a dynamic one (the
/// arrow is shot).
#[derive(Clone, Copy, Debug, PartialEq, Eq)]
pub enum SimulationMode {
    Static,
    Dynamic,
}

} // verus!

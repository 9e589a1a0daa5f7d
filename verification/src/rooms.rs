//! The lists that the construction of a plan fills, as far as the machine has made room for them.

use vstd::prelude::*;

use crate::layout::Pencil;
use crate::registry::is_empty_room;
use crate::registry::Stage;

verus! {

/// The lists of a plan that is built: each is empty, or there was no room for it. Those that a kind
/// of plan does not fill are left out.
#[derive(Debug)]
pub struct Rooms<const N: usize, const M: usize> {
    /// The words that describe the plan.
    pub words: Option<Vec<u64>>,
    /// Where the stages work.
    pub stages: Option<Vec<Stage<N, M>>>,
    /// A copy of that.
    pub copies: Option<Vec<Stage<N, M>>>,
    /// The process dimensions that exchanges go over.
    pub dimensions: Option<Vec<usize>>,
    /// The layouts of real values.
    pub real_pencils: Option<Vec<Pencil<N, M>>>,
    /// The layouts of complex values.
    pub complex_pencils: Option<Vec<Pencil<N, M>>>,
}

impl<const N: usize, const M: usize> Rooms<N, M> {
    /// Every list is empty.
    pub open spec fn wf(&self) -> bool {
        &&& is_empty_room(self.words)
        &&& is_empty_room(self.stages)
        &&& is_empty_room(self.copies)
        &&& is_empty_room(self.dimensions)
        &&& is_empty_room(self.real_pencils)
        &&& is_empty_room(self.complex_pencils)
    }
}

} // verus!

//! What a caller asks for when a plan is built.

use vstd::prelude::*;

use crate::array::PencilArray;
use crate::layout::DistributedLayout;
use crate::layout::ExtraShape;
use crate::layout::Pencil;

verus! {

/// A plan to be built: over which extents, from which layout, with which transform.
#[derive(Debug)]
pub struct PlanRequest<K, const N: usize, const M: usize> {
    /// The extents of the whole array.
    pub global_shape: [usize; N],
    /// The extra dimensions.
    pub extra_shape: ExtraShape,
    /// The input layout; without one the canonical layout of the extents is built.
    pub input: Option<Pencil<N, M>>,
    /// What is done along the axes.
    pub transform: K,
    /// How values are exchanged and laid out.
    pub layout: DistributedLayout,
}

impl<K, const N: usize, const M: usize> PlanRequest<K, N, M> {
    /// The request starts from a given layout.
    pub open spec fn starts_from(&self, input: Pencil<N, M>, extra_shape: ExtraShape, transform: K, layout: DistributedLayout) -> bool {
        &&& self.global_shape == input.global_shape
        &&& self.extra_shape.dimensions@ == extra_shape.dimensions@
        &&& self.extra_shape.element_count == extra_shape.element_count
        &&& self.input == Some(input)
        &&& self.transform == transform
        &&& self.layout == layout
    }

    /// The request starts from the canonical layout of some extents.
    pub open spec fn starts_canonically(&self, global_shape: [usize; N], extra_shape: ExtraShape, transform: K, layout: DistributedLayout) -> bool {
        &&& self.global_shape == global_shape
        &&& self.extra_shape.dimensions@ == extra_shape.dimensions@
        &&& self.extra_shape.element_count == extra_shape.element_count
        &&& self.input is None
        &&& self.transform == transform
        &&& self.layout == layout
    }

    /// Asks for a plan that starts from a layout.
    pub fn on_pencil(
        input: Pencil<N, M>,
        extra_shape: ExtraShape,
        transform: K,
        layout: DistributedLayout,
    ) -> (request: PlanRequest<K, N, M>)
        ensures
            request.starts_from(input, extra_shape, transform, layout),
            request.extra_shape == extra_shape,
    {
        PlanRequest {
            global_shape: input.global_shape,
            extra_shape,
            input: Some(input),
            transform,
            layout,
        }
    }

    /// Asks for a plan that starts from the layout and extra dimensions of an array.
    pub fn on_array<T>(
        input: &PencilArray<T, N, M>,
        transform: K,
        layout: DistributedLayout,
    ) -> (request: PlanRequest<K, N, M>)
        ensures
            request.starts_from(input.pencil, input.extra_shape, transform, layout),
    {
        PlanRequest {
            global_shape: input.pencil.global_shape,
            extra_shape: input.extra_shape.duplicate(),
            input: Some(input.pencil),
            transform,
            layout,
        }
    }

    /// Asks for a plan that starts from the canonical layout of some extents.
    pub fn on_shape(
        global_shape: [usize; N],
        extra_shape: ExtraShape,
        transform: K,
        layout: DistributedLayout,
    ) -> (request: PlanRequest<K, N, M>)
        ensures
            request.starts_canonically(global_shape, extra_shape, transform, layout),
            request.extra_shape == extra_shape,
    {
        PlanRequest { global_shape, extra_shape, input: None, transform, layout }
    }
}

} // verus!

//! Skylight masks: boxes in which the light of the sky is overridden.

use vstd::prelude::*;
use crate::aabb::box_image;
use crate::aabb::degenerate;
use crate::aabb::get_box;
use crate::aabb::is_degenerate;
use crate::aabb::lemma_box_image;
use crate::aabb::put_box;
use crate::aabb::BOX_ALIGN;
use crate::aabb::BOX_CENTER_OFFSET;
use crate::aabb::BOX_EXTENT_OFFSET;
use crate::aabb::BOX_STRIDE;
use crate::buffer::GpuBuffer;
use crate::record::GpuRecord;
use crate::vector::Vec2;

verus! {

/// An axis-aligned box that masks the light of the sky, as the device reads it.
///
/// A mask has the shape of an occluder and nothing else in common with it: a
/// region may be both, or either alone, and the two are never held together.
#[derive(Clone, Copy, Debug, PartialEq, Eq, Structural)]
pub struct GpuSkylightMaskData {
    pub center: Vec2,
    /// Half the extent of the box along each axis.
    pub h_extent: Vec2,
}

/// The skylight masks of one frame as the device reads them.
pub type GpuSkylightMaskBuffer = GpuBuffer<GpuSkylightMaskData>;

impl GpuSkylightMaskData {
    /// The mask with this centre and half-extent. A degenerate box is
    /// taken as it is: what it means is for the shader to say.
    pub fn new(center: Vec2, h_extent: Vec2) -> (r: Self)
        ensures
            r == (GpuSkylightMaskData { center, h_extent }),
    {
        GpuSkylightMaskData { center, h_extent }
    }

    /// Tells whether the box is degenerate: zero or less than zero along an axis.
    pub fn is_degenerate(&self) -> (r: bool)
        ensures
            r == degenerate(self.h_extent),
    {
        is_degenerate(self.h_extent)
    }
}

impl GpuRecord for GpuSkylightMaskData {
    open spec fn stride() -> nat {
        BOX_STRIDE as nat
    }

    open spec fn align() -> nat {
        BOX_ALIGN as nat
    }

    open spec fn image(self) -> Seq<u8> {
        box_image(self.center, self.h_extent)
    }

    open spec fn parse_at(bytes: Seq<u8>, at: int) -> Self {
        GpuSkylightMaskData {
            center: Vec2::at(bytes, at + BOX_CENTER_OFFSET),
            h_extent: Vec2::at(bytes, at + BOX_EXTENT_OFFSET),
        }
    }

    proof fn lemma_layout() {
    }

    proof fn lemma_image(self, before: Seq<u8>, after: Seq<u8>) {
        lemma_box_image(self.center, self.h_extent, before, after);
    }

    fn stride_bytes() -> (r: usize) {
        BOX_STRIDE
    }

    fn align_bytes() -> (r: usize) {
        BOX_ALIGN
    }

    fn put(&self, out: &mut Vec<u8>) {
        put_box(&self.center, &self.h_extent, out);
    }

    fn get(bytes: &[u8], at: usize) -> (r: Self) {
        let (center, h_extent) = get_box(bytes, at);
        GpuSkylightMaskData { center, h_extent }
    }
}

impl Default for GpuSkylightMaskData {
    /// The box at the origin without extent.
    fn default() -> (r: Self)
        ensures
            r.center == Vec2::origin(),
            r.h_extent == Vec2::origin(),
    {
        GpuSkylightMaskData { center: Vec2::zero(), h_extent: Vec2::zero() }
    }
}

} // verus!

//! The camera parameter block: screen size, view-projection and the scale of
//! the distance-field space, each with its inverse.

use vstd::prelude::*;
use crate::layout::close;
use crate::layout::place;
use crate::record::GpuRecord;
use crate::vector::Mat4;
use crate::vector::Vec2;
use crate::vector::MAT4_ALIGN;
use crate::vector::VEC2_ALIGN;

verus! {

/// Offset of the screen size in the image of the block.
pub const CAMERA_SCREEN_SIZE_OFFSET: usize = 0;

/// Offset of the reciprocal screen size in the image of the block.
pub const CAMERA_SCREEN_SIZE_INV_OFFSET: usize = 8;

/// Offset of the view-projection matrix in the image of the block.
pub const CAMERA_VIEW_PROJ_OFFSET: usize = 16;

/// Offset of the inverse view-projection matrix in the image of the block.
pub const CAMERA_INVERSE_VIEW_PROJ_OFFSET: usize = 80;

/// Offset of the distance-field scale in the image of the block.
pub const CAMERA_SDF_SCALE_OFFSET: usize = 144;

/// Offset of the reciprocal distance-field scale in the image of the block.
pub const CAMERA_INV_SDF_SCALE_OFFSET: usize = 152;

/// Size of the image of the block, in bytes.
pub const CAMERA_STRIDE: usize = 160;

/// Alignment of the block, in bytes: that of its matrices.
pub const CAMERA_ALIGN: usize = 16;

/// The camera parameters of one frame as the device reads them.
///
/// The block holds each quantity beside its inverse, so that the shader need
/// not divide. The reciprocals of the screen size and of the scale are taken
/// component by component. The view-projection matrix must be invertible;
/// whoever inverts it answers for the inverse, and decides what becomes of a
/// frame whose matrix has none.
#[derive(Clone, Copy, Debug, PartialEq, Eq, Structural)]
pub struct GpuCameraParams {
    pub screen_size: Vec2,
    pub screen_size_inv: Vec2,
    pub view_proj: Mat4,
    pub inverse_view_proj: Mat4,
    pub sdf_scale: Vec2,
    pub inv_sdf_scale: Vec2,
}

impl GpuCameraParams {
    /// The block before a camera is known: sizes and scales zero, both
    /// matrices the identity.
    pub open spec fn initial() -> GpuCameraParams {
        GpuCameraParams {
            screen_size: Vec2::origin(),
            screen_size_inv: Vec2::origin(),
            view_proj: Mat4::identity_matrix(),
            inverse_view_proj: Mat4::identity_matrix(),
            sdf_scale: Vec2::origin(),
            inv_sdf_scale: Vec2::origin(),
        }
    }

    /// The block for a screen size, a view-projection with its inverse, and a
    /// scale of the distance-field space: each of the two vectors stands
    /// beside its reciprocal.
    pub fn from_view(
        screen_size: Vec2,
        view_proj: Mat4,
        inverse_view_proj: Mat4,
        sdf_scale: Vec2,
    ) -> (r: Self)
        ensures
            r.screen_size == screen_size,
            r.screen_size_inv.is_reciprocal_of(screen_size),
            r.view_proj == view_proj,
            r.inverse_view_proj == inverse_view_proj,
            r.sdf_scale == sdf_scale,
            r.inv_sdf_scale.is_reciprocal_of(sdf_scale),
    {
        GpuCameraParams {
            screen_size,
            screen_size_inv: screen_size.recip(),
            view_proj,
            inverse_view_proj,
            sdf_scale,
            inv_sdf_scale: sdf_scale.recip(),
        }
    }

    /// The block of the given parts, each with the inverse that the caller
    /// computed for it.
    pub fn new(
        screen_size: Vec2,
        screen_size_inv: Vec2,
        view_proj: Mat4,
        inverse_view_proj: Mat4,
        sdf_scale: Vec2,
        inv_sdf_scale: Vec2,
    ) -> (r: Self)
        ensures
            r == (GpuCameraParams {
                screen_size,
                screen_size_inv,
                view_proj,
                inverse_view_proj,
                sdf_scale,
                inv_sdf_scale,
            }),
    {
        GpuCameraParams {
            screen_size,
            screen_size_inv,
            view_proj,
            inverse_view_proj,
            sdf_scale,
            inv_sdf_scale,
        }
    }

    /// The image written out: the six fields, which need no padding.
    proof fn lemma_flat_image(self)
        ensures
            self.image() == self.screen_size.image() + self.screen_size_inv.image()
                + self.view_proj.image() + self.inverse_view_proj.image() + self.sdf_scale.image()
                + self.inv_sdf_scale.image(),
            self.screen_size.image().len() == 8,
            self.screen_size_inv.image().len() == 8,
            self.view_proj.image().len() == 64,
            self.inverse_view_proj.image().len() == 64,
            self.sdf_scale.image().len() == 8,
            self.inv_sdf_scale.image().len() == 8,
    {
        self.screen_size.lemma_image(Seq::empty(), Seq::empty());
        self.screen_size_inv.lemma_image(Seq::empty(), Seq::empty());
        self.view_proj.lemma_image(Seq::empty(), Seq::empty());
        self.inverse_view_proj.lemma_image(Seq::empty(), Seq::empty());
        self.sdf_scale.lemma_image(Seq::empty(), Seq::empty());
        self.inv_sdf_scale.lemma_image(Seq::empty(), Seq::empty());
        assert(self.image() =~= self.screen_size.image() + self.screen_size_inv.image()
            + self.view_proj.image() + self.inverse_view_proj.image() + self.sdf_scale.image()
            + self.inv_sdf_scale.image());
    }
}

impl Default for GpuCameraParams {
    /// The block before a camera is known.
    fn default() -> (r: Self)
        ensures
            r == GpuCameraParams::initial(),
    {
        GpuCameraParams {
            screen_size: Vec2::zero(),
            screen_size_inv: Vec2::zero(),
            view_proj: Mat4::identity(),
            inverse_view_proj: Mat4::identity(),
            sdf_scale: Vec2::zero(),
            inv_sdf_scale: Vec2::zero(),
        }
    }
}

impl GpuRecord for GpuCameraParams {
    open spec fn stride() -> nat {
        CAMERA_STRIDE as nat
    }

    open spec fn align() -> nat {
        CAMERA_ALIGN as nat
    }

    /// The fields in order, each at the next multiple of its alignment, and the
    /// whole padded to a multiple of the block's alignment.
    open spec fn image(self) -> Seq<u8> {
        let a = place(Seq::empty(), self.screen_size.image(), VEC2_ALIGN as nat);
        let b = place(a, self.screen_size_inv.image(), VEC2_ALIGN as nat);
        let c = place(b, self.view_proj.image(), MAT4_ALIGN as nat);
        let d = place(c, self.inverse_view_proj.image(), MAT4_ALIGN as nat);
        let e = place(d, self.sdf_scale.image(), VEC2_ALIGN as nat);
        let f = place(e, self.inv_sdf_scale.image(), VEC2_ALIGN as nat);
        close(f, CAMERA_ALIGN as nat)
    }

    open spec fn parse_at(bytes: Seq<u8>, at: int) -> Self {
        GpuCameraParams {
            screen_size: Vec2::at(bytes, at + CAMERA_SCREEN_SIZE_OFFSET),
            screen_size_inv: Vec2::at(bytes, at + CAMERA_SCREEN_SIZE_INV_OFFSET),
            view_proj: Mat4::at(bytes, at + CAMERA_VIEW_PROJ_OFFSET),
            inverse_view_proj: Mat4::at(bytes, at + CAMERA_INVERSE_VIEW_PROJ_OFFSET),
            sdf_scale: Vec2::at(bytes, at + CAMERA_SDF_SCALE_OFFSET),
            inv_sdf_scale: Vec2::at(bytes, at + CAMERA_INV_SDF_SCALE_OFFSET),
        }
    }

    proof fn lemma_layout() {
    }

    proof fn lemma_image(self, before: Seq<u8>, after: Seq<u8>) {
        let all = before + self.image() + after;
        let (s, si, vp, ivp, sdf, isdf) = (
            self.screen_size.image(),
            self.screen_size_inv.image(),
            self.view_proj.image(),
            self.inverse_view_proj.image(),
            self.sdf_scale.image(),
            self.inv_sdf_scale.image(),
        );
        self.lemma_flat_image();
        self.screen_size.lemma_image(before, si + vp + ivp + sdf + isdf + after);
        self.screen_size_inv.lemma_image(before + s, vp + ivp + sdf + isdf + after);
        self.view_proj.lemma_image(before + s + si, ivp + sdf + isdf + after);
        self.inverse_view_proj.lemma_image(before + s + si + vp, sdf + isdf + after);
        self.sdf_scale.lemma_image(before + s + si + vp + ivp, isdf + after);
        self.inv_sdf_scale.lemma_image(before + s + si + vp + ivp + sdf, after);
        assert(all =~= before + s + (si + vp + ivp + sdf + isdf + after));
        assert(all =~= before + s + si + (vp + ivp + sdf + isdf + after));
        assert(all =~= before + s + si + vp + (ivp + sdf + isdf + after));
        assert(all =~= before + s + si + vp + ivp + (sdf + isdf + after));
        assert(all =~= before + s + si + vp + ivp + sdf + (isdf + after));
        assert(all =~= before + s + si + vp + ivp + sdf + isdf + after);
    }

    fn stride_bytes() -> (r: usize) {
        CAMERA_STRIDE
    }

    fn align_bytes() -> (r: usize) {
        CAMERA_ALIGN
    }

    fn put(&self, out: &mut Vec<u8>) {
        proof {
            self.lemma_flat_image();
        }
        self.screen_size.put(out);
        self.screen_size_inv.put(out);
        self.view_proj.put(out);
        self.inverse_view_proj.put(out);
        self.sdf_scale.put(out);
        self.inv_sdf_scale.put(out);
        assert(out@ =~= old(out)@ + self.image());
    }

    fn get(bytes: &[u8], at: usize) -> (r: Self) {
        GpuCameraParams {
            screen_size: Vec2::get(bytes, at + CAMERA_SCREEN_SIZE_OFFSET),
            screen_size_inv: Vec2::get(bytes, at + CAMERA_SCREEN_SIZE_INV_OFFSET),
            view_proj: Mat4::get(bytes, at + CAMERA_VIEW_PROJ_OFFSET),
            inverse_view_proj: Mat4::get(bytes, at + CAMERA_INVERSE_VIEW_PROJ_OFFSET),
            sdf_scale: Vec2::get(bytes, at + CAMERA_SDF_SCALE_OFFSET),
            inv_sdf_scale: Vec2::get(bytes, at + CAMERA_INV_SDF_SCALE_OFFSET),
        }
    }
}

} // verus!

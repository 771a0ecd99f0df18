//! Axis-aligned boxes: a centre and half the extent along each axis.
//!
//! Occluders and skylight masks are both such boxes and share one byte image.

use vstd::prelude::*;
use crate::layout::close;
use crate::layout::place;
use crate::vector::Vec2;
use crate::vector::VEC2_ALIGN;
use crate::vector::VEC2_SIZE;

verus! {

/// Offset of the centre in the image of a box.
pub const BOX_CENTER_OFFSET: usize = 0;

/// Offset of the half-extent in the image of a box.
pub const BOX_EXTENT_OFFSET: usize = 8;

/// Size of the image of a box, in bytes.
pub const BOX_STRIDE: usize = 16;

/// Alignment of a box, in bytes: that of its two vectors.
pub const BOX_ALIGN: usize = 8;

/// A box is degenerate when its half-extent is zero or less than zero along
/// an axis.
pub open spec fn degenerate(h_extent: Vec2) -> bool {
    h_extent.x.is_non_positive() || h_extent.y.is_non_positive()
}

/// The byte image of a box: the centre, then the half-extent.
pub open spec fn box_image(center: Vec2, h_extent: Vec2) -> Seq<u8> {
    let a = place(Seq::empty(), center.image(), VEC2_ALIGN as nat);
    let b = place(a, h_extent.image(), VEC2_ALIGN as nat);
    close(b, BOX_ALIGN as nat)
}

/// The image of a box is its two vectors without padding; reading them back
/// gives the box, wherever the image stands.
pub proof fn lemma_box_image(center: Vec2, h_extent: Vec2, before: Seq<u8>, after: Seq<u8>)
    ensures
        box_image(center, h_extent) == center.image() + h_extent.image(),
        box_image(center, h_extent).len() == BOX_STRIDE,
        Vec2::at(before + box_image(center, h_extent) + after, before.len() + BOX_CENTER_OFFSET)
            == center,
        Vec2::at(before + box_image(center, h_extent) + after, before.len() + BOX_EXTENT_OFFSET)
            == h_extent,
{
    let all = before + box_image(center, h_extent) + after;
    center.lemma_image(before, h_extent.image() + after);
    h_extent.lemma_image(before + center.image(), after);
    assert(box_image(center, h_extent) =~= center.image() + h_extent.image());
    assert(all =~= before + center.image() + (h_extent.image() + after));
    assert(all =~= before + center.image() + h_extent.image() + after);
}

/// Tells whether a box with this half-extent is degenerate.
pub fn is_degenerate(h_extent: Vec2) -> (r: bool)
    ensures
        r == degenerate(h_extent),
{
    h_extent.x.non_positive() || h_extent.y.non_positive()
}

/// Appends the image of a box.
pub fn put_box(center: &Vec2, h_extent: &Vec2, out: &mut Vec<u8>)
    ensures
        final(out)@ == old(out)@ + box_image(*center, *h_extent),
{
    proof {
        lemma_box_image(*center, *h_extent, Seq::empty(), Seq::empty());
    }
    center.put(out);
    h_extent.put(out);
    assert(out@ =~= old(out)@ + box_image(*center, *h_extent));
}

/// Reads the centre and the half-extent of the box whose image starts at `at`.
pub fn get_box(bytes: &[u8], at: usize) -> (r: (Vec2, Vec2))
    requires
        at + BOX_STRIDE <= bytes.len(),
    ensures
        r.0 == Vec2::at(bytes@, at + BOX_CENTER_OFFSET),
        r.1 == Vec2::at(bytes@, at + BOX_EXTENT_OFFSET),
{
    (Vec2::get(bytes, at + BOX_CENTER_OFFSET), Vec2::get(bytes, at + BOX_EXTENT_OFFSET))
}

} // verus!

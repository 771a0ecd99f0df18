//! The probe grid: a fixed number of screen-space probes, each with the place
//! in camera space at which it samples light.

use vstd::prelude::*;
use crate::buffer::buffer_image;
use crate::buffer::image_len;
use crate::buffer::max_count;
use crate::buffer::GpuBuffer;
use crate::error::BufferError;
use crate::layout::close;
use crate::layout::place;
use crate::layout::MAX_BUFFER_BYTES;
use crate::record::GpuRecord;
use crate::vector::Vec2;
use crate::vector::VEC2_ALIGN;

verus! {

/// Probes along each side of the grid where nothing else is configured.
pub const GI_SCREEN_PROBE_SIZE: u32 = 8;

/// Size of the image of a probe, in bytes.
pub const PROBE_STRIDE: usize = 8;

/// Alignment of a probe, in bytes.
pub const PROBE_ALIGN: usize = 8;

/// One probe as the device reads it.
#[derive(Clone, Copy, Debug, PartialEq, Eq, Structural)]
pub struct GpuProbeData {
    /// Where in camera space the probe samples light.
    pub camera_pose: Vec2,
}

impl GpuProbeData {
    /// The probe at the origin.
    pub open spec fn at_origin() -> GpuProbeData {
        GpuProbeData { camera_pose: Vec2::origin() }
    }
}

impl Default for GpuProbeData {
    /// The probe at the origin.
    fn default() -> (r: Self)
        ensures
            r == GpuProbeData::at_origin(),
    {
        GpuProbeData { camera_pose: Vec2::zero() }
    }
}

impl GpuRecord for GpuProbeData {
    open spec fn stride() -> nat {
        PROBE_STRIDE as nat
    }

    open spec fn align() -> nat {
        PROBE_ALIGN as nat
    }

    open spec fn image(self) -> Seq<u8> {
        close(place(Seq::empty(), self.camera_pose.image(), VEC2_ALIGN as nat), PROBE_ALIGN as nat)
    }

    open spec fn parse_at(bytes: Seq<u8>, at: int) -> Self {
        GpuProbeData { camera_pose: Vec2::at(bytes, at) }
    }

    proof fn lemma_layout() {
    }

    proof fn lemma_image(self, before: Seq<u8>, after: Seq<u8>) {
        self.camera_pose.lemma_image(before, after);
        assert(self.image() =~= self.camera_pose.image());
    }

    fn stride_bytes() -> (r: usize) {
        PROBE_STRIDE
    }

    fn align_bytes() -> (r: usize) {
        PROBE_ALIGN
    }

    fn put(&self, out: &mut Vec<u8>) {
        proof {
            self.camera_pose.lemma_image(Seq::empty(), Seq::empty());
            assert(self.image() =~= self.camera_pose.image());
        }
        self.camera_pose.put(out);
    }

    fn get(bytes: &[u8], at: usize) -> (r: Self) {
        GpuProbeData { camera_pose: Vec2::get(bytes, at) }
    }
}

/// The probes of a grid as the device reads them.
///
/// The grid has as many probes as its width times its height, from the moment
/// it is made; all of them count as active. Only their poses change.
#[derive(Debug, PartialEq, Eq)]
pub struct GpuProbeDataBuffer {
    width: u32,
    height: u32,
    probes: GpuBuffer<GpuProbeData>,
}

impl View for GpuProbeDataBuffer {
    type V = Seq<GpuProbeData>;

    /// The probes, row after row.
    closed spec fn view(&self) -> Seq<GpuProbeData> {
        self.probes@
    }
}

impl GpuProbeDataBuffer {
    #[verifier::type_invariant]
    spec fn inv(self) -> bool {
        self.probes@.len() == self.width * self.height
    }

    /// Probes along a row of the grid.
    pub closed spec fn grid_width(self) -> nat {
        self.width as nat
    }

    /// Rows of the grid.
    pub closed spec fn grid_height(self) -> nat {
        self.height as nat
    }

    /// The byte image: that of a buffer of all the probes.
    pub open spec fn image(self) -> Seq<u8> {
        buffer_image(self@)
    }

    /// The grid of `width` by `height` probes, every one at the origin. Fails
    /// when that is more probes than a buffer holds.
    pub fn with_grid(width: u32, height: u32) -> (r: Result<Self, BufferError>)
        ensures
            width * height <= max_count::<GpuProbeData>() ==> r is Ok && r->Ok_0.grid_width()
                == width && r->Ok_0.grid_height() == height && r->Ok_0@ == Seq::new(
                (width * height) as nat,
                |i: int| GpuProbeData::at_origin(),
            ),
            width * height > max_count::<GpuProbeData>() ==> r == Err::<Self, BufferError>(
                BufferError::TooManyElements,
            ),
    {
        let limit: usize = GpuBuffer::<GpuProbeData>::capacity_limit();
        assert(width * height <= 0xFFFF_FFFF * 0xFFFF_FFFF) by (nonlinear_arith)
            requires
                0 <= width <= 0xFFFF_FFFF,
                0 <= height <= 0xFFFF_FFFF,
        ;
        let n: u64 = width as u64 * height as u64;
        if n > limit as u64 {
            return Err(BufferError::TooManyElements);
        }
        let probes = GpuBuffer::filled(GpuProbeData::default(), n as usize);
        Ok(GpuProbeDataBuffer { width, height, probes })
    }

    /// Probes along a row of the grid.
    pub fn width(&self) -> (r: u32)
        ensures
            r == self.grid_width(),
    {
        self.width
    }

    /// Rows of the grid.
    pub fn height(&self) -> (r: u32)
        ensures
            r == self.grid_height(),
    {
        self.height
    }

    /// The number of probes the grid has room for: its width times its height.
    pub fn capacity(&self) -> (r: u32)
        ensures
            r == self.grid_width() * self.grid_height(),
            r == self@.len(),
    {
        proof {
            use_type_invariant(self);
        }
        self.probes.count()
    }

    /// The number of probes that the device is to read: all of them.
    pub fn count(&self) -> (r: u32)
        ensures
            r == self.grid_width() * self.grid_height(),
            r == self@.len(),
    {
        self.capacity()
    }

    /// The probes, row after row.
    pub fn records(&self) -> (r: &Vec<GpuProbeData>)
        ensures
            r@ == self@,
    {
        self.probes.records()
    }

    /// The pose of the probe at `index`, if the grid has such a probe.
    pub fn pose(&self, index: usize) -> (r: Option<Vec2>)
        ensures
            r == (if index < self@.len() {
                Some(self@[index as int].camera_pose)
            } else {
                None
            }),
    {
        match self.probes.get(index) {
            Some(probe) => Some(probe.camera_pose),
            None => None,
        }
    }

    /// Gives the probe at `index` a new pose; the grid and the other probes
    /// stay. Without such a probe nothing changes.
    pub fn set_pose(&mut self, index: usize, pose: Vec2) -> (r: Result<(), BufferError>)
        ensures
            final(self).grid_width() == old(self).grid_width(),
            final(self).grid_height() == old(self).grid_height(),
            index < old(self)@.len() ==> r is Ok && final(self)@ == old(self)@.update(
                index as int,
                GpuProbeData { camera_pose: pose },
            ),
            index >= old(self)@.len() ==> r == Err::<(), BufferError>(
                BufferError::OutOfRange { index },
            ) && final(self)@ == old(self)@,
    {
        proof {
            use_type_invariant(&*self);
        }
        let mut taken = GpuProbeDataBuffer { width: 0, height: 0, probes: GpuBuffer::new() };
        core::mem::swap(self, &mut taken);
        let GpuProbeDataBuffer { width, height, probes } = taken;
        let mut probes = probes;
        let r = probes.set(index, GpuProbeData { camera_pose: pose });
        *self = GpuProbeDataBuffer { width, height, probes };
        r
    }

    /// Length of the byte image.
    pub fn byte_len(&self) -> (r: usize)
        ensures
            r == image_len::<GpuProbeData>(self@.len()),
            r == self.image().len(),
            r <= MAX_BUFFER_BYTES,
    {
        self.probes.byte_len()
    }

    /// The byte image of the grid.
    pub fn encode(&self) -> (r: Vec<u8>)
        ensures
            r@ == self.image(),
    {
        self.probes.encode()
    }
}

impl Clone for GpuProbeDataBuffer {
    /// A grid of the same size with the same probes.
    fn clone(&self) -> (r: Self)
        ensures
            r.grid_width() == self.grid_width(),
            r.grid_height() == self.grid_height(),
            r@ == self@,
    {
        proof {
            use_type_invariant(self);
        }
        GpuProbeDataBuffer { width: self.width, height: self.height, probes: self.probes.clone() }
    }
}

impl Default for GpuProbeDataBuffer {
    /// The square grid of [`GI_SCREEN_PROBE_SIZE`] probes a side, every one at
    /// the origin.
    fn default() -> (r: Self)
        ensures
            r.grid_width() == GI_SCREEN_PROBE_SIZE,
            r.grid_height() == GI_SCREEN_PROBE_SIZE,
            r@.len() == GI_SCREEN_PROBE_SIZE * GI_SCREEN_PROBE_SIZE,
            r@ == Seq::new(
                (GI_SCREEN_PROBE_SIZE * GI_SCREEN_PROBE_SIZE) as nat,
                |i: int| GpuProbeData::at_origin(),
            ),
    {
        let n: usize = (GI_SCREEN_PROBE_SIZE * GI_SCREEN_PROBE_SIZE) as usize;
        GpuProbeDataBuffer {
            width: GI_SCREEN_PROBE_SIZE,
            height: GI_SCREEN_PROBE_SIZE,
            probes: GpuBuffer::filled(GpuProbeData::default(), n),
        }
    }
}

} // verus!

//! Omnidirectional light sources: the scene's description and the record the
//! device reads.

use vstd::prelude::*;
use crate::buffer::max_count;
use crate::buffer::GpuBuffer;
use crate::error::BufferError;
use crate::layout::close;
use crate::layout::place;
use crate::layout::put_padding;
use crate::layout::zeros;
use crate::record::lemma_round_trip;
use crate::record::GpuRecord;
use crate::scalar::Scalar;
use crate::scalar::SCALAR_ALIGN;
use crate::scalar::ZERO_BITS;
use crate::vector::Rgba;
use crate::vector::Vec2;
use crate::vector::Vec3;
use crate::vector::VEC2_ALIGN;
use crate::vector::VEC3_ALIGN;

verus! {

/// Offset of the centre in the image of a light record.
pub const LIGHT_CENTER_OFFSET: usize = 0;

/// Offset of the intensity in the image of a light record.
pub const LIGHT_INTENSITY_OFFSET: usize = 8;

/// Offset of the colour in the image of a light record.
pub const LIGHT_COLOR_OFFSET: usize = 16;

/// Offset of the falloff in the image of a light record.
pub const LIGHT_FALLOFF_OFFSET: usize = 32;

/// Size of the image of a light record, in bytes.
pub const LIGHT_STRIDE: usize = 48;

/// Alignment of a light record, in bytes: the largest among its fields.
pub const LIGHT_ALIGN: usize = 16;

/// An omnidirectional light as the scene describes it.
#[derive(Clone, Copy, Debug, PartialEq, Eq, Structural)]
pub struct OmniLightSource2D {
    /// Where the light stands in the scene.
    pub position: Vec2,
    /// How strong the light is; never less than zero.
    pub intensity: Scalar,
    /// Colour and opacity as the author chose them.
    pub color: Rgba,
    /// The three terms that shape how the light fades with distance.
    pub falloff: Vec3,
}

impl OmniLightSource2D {
    /// A light is valid when its intensity is not less than zero.
    pub open spec fn valid(self) -> bool {
        !self.intensity.is_negative()
    }

    /// Tells whether the light is valid.
    pub fn is_valid(&self) -> (r: bool)
        ensures
            r == self.valid(),
    {
        !self.intensity.negative()
    }
}

/// A light source as the device reads it.
#[derive(Clone, Copy, Debug, PartialEq, Eq, Structural)]
pub struct GpuOmniLightSource {
    /// The centre of the light, in the space the shader works in.
    pub center: Vec2,
    pub intensity: Scalar,
    /// The three colour channels; a light has no opacity.
    pub color: Vec3,
    pub falloff: Vec3,
}

impl GpuOmniLightSource {
    /// The record of a light whose centre was resolved to `center`: intensity
    /// and falloff as they are, the colour without its opacity. The light's own
    /// position does not enter the record.
    pub open spec fn packed(light: OmniLightSource2D, center: Vec2) -> GpuOmniLightSource {
        GpuOmniLightSource {
            center,
            intensity: light.intensity,
            color: light.color.channels(),
            falloff: light.falloff,
        }
    }

    /// Packs a valid light whose centre was resolved to `center`.
    pub fn new(light: OmniLightSource2D, center: Vec2) -> (r: Self)
        requires
            light.valid(),
        ensures
            r == Self::packed(light, center),
            r.center == center,
            r.intensity == light.intensity,
            r.color.x == light.color.red,
            r.color.y == light.color.green,
            r.color.z == light.color.blue,
            r.falloff == light.falloff,
    {
        GpuOmniLightSource {
            center,
            intensity: light.intensity,
            color: light.color.rgb(),
            falloff: light.falloff,
        }
    }

    /// The image written out: the fields with the padding that their
    /// alignments ask for.
    proof fn lemma_flat_image(self)
        ensures
            self.image() == self.center.image() + self.intensity.image() + zeros(4)
                + self.color.image() + zeros(4) + self.falloff.image() + zeros(4),
            self.center.image().len() == 8,
            self.intensity.image().len() == 4,
            self.color.image().len() == 12,
            self.falloff.image().len() == 12,
    {
        self.center.lemma_image(Seq::empty(), Seq::empty());
        self.intensity.lemma_image(Seq::empty(), Seq::empty());
        self.color.lemma_image(Seq::empty(), Seq::empty());
        self.falloff.lemma_image(Seq::empty(), Seq::empty());
        assert(self.image() =~= self.center.image() + self.intensity.image() + zeros(4)
            + self.color.image() + zeros(4) + self.falloff.image() + zeros(4));
    }
}

impl GpuRecord for GpuOmniLightSource {
    open spec fn stride() -> nat {
        LIGHT_STRIDE as nat
    }

    open spec fn align() -> nat {
        LIGHT_ALIGN as nat
    }

    /// The fields in order, each at the next multiple of its alignment, and the
    /// whole padded to a multiple of the record's alignment.
    open spec fn image(self) -> Seq<u8> {
        let a = place(Seq::empty(), self.center.image(), VEC2_ALIGN as nat);
        let b = place(a, self.intensity.image(), SCALAR_ALIGN as nat);
        let c = place(b, self.color.image(), VEC3_ALIGN as nat);
        let d = place(c, self.falloff.image(), VEC3_ALIGN as nat);
        close(d, LIGHT_ALIGN as nat)
    }

    open spec fn parse_at(bytes: Seq<u8>, at: int) -> Self {
        GpuOmniLightSource {
            center: Vec2::at(bytes, at + LIGHT_CENTER_OFFSET),
            intensity: Scalar::at(bytes, at + LIGHT_INTENSITY_OFFSET),
            color: Vec3::at(bytes, at + LIGHT_COLOR_OFFSET),
            falloff: Vec3::at(bytes, at + LIGHT_FALLOFF_OFFSET),
        }
    }

    proof fn lemma_layout() {
    }

    proof fn lemma_image(self, before: Seq<u8>, after: Seq<u8>) {
        let all = before + self.image() + after;
        let (c, i, k, f) = (
            self.center.image(),
            self.intensity.image(),
            self.color.image(),
            self.falloff.image(),
        );
        let p = zeros(4);
        self.lemma_flat_image();
        self.center.lemma_image(before, i + p + k + p + f + p + after);
        self.intensity.lemma_image(before + c, p + k + p + f + p + after);
        self.color.lemma_image(before + c + i + p, p + f + p + after);
        self.falloff.lemma_image(before + c + i + p + k + p, p + after);
        assert(all =~= before + c + (i + p + k + p + f + p + after));
        assert(all =~= before + c + i + (p + k + p + f + p + after));
        assert(all =~= before + c + i + p + k + (p + f + p + after));
        assert(all =~= before + c + i + p + k + p + f + (p + after));
    }

    fn stride_bytes() -> (r: usize) {
        LIGHT_STRIDE
    }

    fn align_bytes() -> (r: usize) {
        LIGHT_ALIGN
    }

    fn put(&self, out: &mut Vec<u8>) {
        proof {
            self.lemma_flat_image();
        }
        self.center.put(out);
        self.intensity.put(out);
        put_padding(out, 4);
        self.color.put(out);
        put_padding(out, 4);
        self.falloff.put(out);
        put_padding(out, 4);
        assert(out@ =~= old(out)@ + self.image());
    }

    fn get(bytes: &[u8], at: usize) -> (r: Self) {
        GpuOmniLightSource {
            center: Vec2::get(bytes, at + LIGHT_CENTER_OFFSET),
            intensity: Scalar::get(bytes, at + LIGHT_INTENSITY_OFFSET),
            color: Vec3::get(bytes, at + LIGHT_COLOR_OFFSET),
            falloff: Vec3::get(bytes, at + LIGHT_FALLOFF_OFFSET),
        }
    }
}

/// A valid light that is packed and read back from the image of its record has
/// the resolved centre, and its own intensity, falloff and three colour
/// channels, bit for bit.
pub proof fn lemma_pack_unpack(light: OmniLightSource2D, center: Vec2)
    requires
        light.valid(),
    ensures
        ({
            let image = GpuOmniLightSource::packed(light, center).image();
            let read = GpuOmniLightSource::parse_at(image, 0);
            &&& read.center == center
            &&& read.intensity == light.intensity
            &&& read.falloff == light.falloff
            &&& read.color.x == light.color.red
            &&& read.color.y == light.color.green
            &&& read.color.z == light.color.blue
        }),
{
    lemma_round_trip(GpuOmniLightSource::packed(light, center));
}

/// The opacity of a light leaves no trace in its record: two lights that
/// differ in nothing else are packed alike.
pub proof fn lemma_alpha_dropped(light: OmniLightSource2D, other: OmniLightSource2D, center: Vec2)
    requires
        other == (OmniLightSource2D {
            color: Rgba { alpha: other.color.alpha, ..light.color },
            ..light
        }),
    ensures
        GpuOmniLightSource::packed(other, center) == GpuOmniLightSource::packed(light, center),
{
}

/// The lights of one frame as the device reads them: a count, then the records.
pub type GpuLightSourceBuffer = GpuBuffer<GpuOmniLightSource>;

/// The records of a sequence of lights, each with its resolved centre, in the
/// order of the sequence.
pub open spec fn packed_lights(lights: Seq<(OmniLightSource2D, Vec2)>) -> Seq<GpuOmniLightSource> {
    Seq::new(lights.len(), |i: int| GpuOmniLightSource::packed(lights[i].0, lights[i].1))
}

/// Whether the lights before position `n` are all valid.
pub open spec fn valid_up_to(lights: Seq<(OmniLightSource2D, Vec2)>, n: int) -> bool {
    forall|j: int| 0 <= j < n ==> (#[trigger] lights[j]).0.valid()
}

impl GpuBuffer<GpuOmniLightSource> {
    /// Packs the lights of one frame, each with its resolved centre, in their
    /// order.
    ///
    /// Fails when there are more lights than a buffer holds, and otherwise at
    /// the first light whose intensity is below zero.
    pub fn from_lights(lights: &Vec<(OmniLightSource2D, Vec2)>) -> (r: Result<Self, BufferError>)
        ensures
            match r {
                Ok(buffer) => {
                    &&& lights@.len() <= max_count::<GpuOmniLightSource>()
                    &&& valid_up_to(lights@, lights@.len() as int)
                    &&& buffer@ == packed_lights(lights@)
                    &&& buffer@.len() == lights@.len()
                },
                Err(BufferError::TooManyElements) => lights@.len() > max_count::<
                    GpuOmniLightSource,
                >(),
                Err(BufferError::NegativeIntensity { index }) => {
                    &&& lights@.len() <= max_count::<GpuOmniLightSource>()
                    &&& index < lights@.len()
                    &&& valid_up_to(lights@, index as int)
                    &&& !lights@[index as int].0.valid()
                },
                Err(_) => false,
            },
    {
        let n: usize = lights.len();
        if n > Self::capacity_limit() {
            return Err(BufferError::TooManyElements);
        }
        let mut records: Vec<GpuOmniLightSource> = Vec::with_capacity(n);
        let mut i: usize = 0;
        while i < n
            invariant
                i <= n,
                n == lights@.len(),
                n <= max_count::<GpuOmniLightSource>(),
                valid_up_to(lights@, i as int),
                records@ == packed_lights(lights@.take(i as int)),
            decreases n - i,
        {
            let (light, center) = lights[i];
            if !light.is_valid() {
                return Err(BufferError::NegativeIntensity { index: i });
            }
            records.push(GpuOmniLightSource::new(light, center));
            i = i + 1;
            assert(records@ =~= packed_lights(lights@.take(i as int)));
        }
        assert(lights@.take(n as int) =~= lights@);
        Self::pack(records)
    }
}

impl Default for GpuOmniLightSource {
    /// The record with every field positive zero.
    fn default() -> (r: Self)
        ensures
            r.center == Vec2::origin(),
            r.intensity.bits == ZERO_BITS,
            r.color == Vec3::zeros(),
            r.falloff == Vec3::zeros(),
    {
        GpuOmniLightSource {
            center: Vec2::zero(),
            intensity: Scalar::zero(),
            color: Vec3::zero(),
            falloff: Vec3::zero(),
        }
    }
}

} // verus!

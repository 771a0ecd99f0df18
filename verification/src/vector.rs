//! Vectors, colours and matrices of scalars.

use vstd::prelude::*;
use crate::scalar::Scalar;
use crate::scalar::ZERO_BITS;
use crate::scalar::ONE_BITS;
use crate::scalar::SCALAR_SIZE;

verus! {

/// Size of a [`Vec2`] in a buffer, in bytes.
pub const VEC2_SIZE: usize = 8;

/// Alignment of a [`Vec2`] in a buffer, in bytes.
pub const VEC2_ALIGN: usize = 8;

/// Size of a [`Vec3`] in a buffer, in bytes.
pub const VEC3_SIZE: usize = 12;

/// Alignment of a [`Vec3`] in a buffer, in bytes: that of four scalars.
pub const VEC3_ALIGN: usize = 16;

/// Size of a [`Vec4`] in a buffer, in bytes.
pub const VEC4_SIZE: usize = 16;

/// Alignment of a [`Vec4`] in a buffer, in bytes.
pub const VEC4_ALIGN: usize = 16;

/// Size of a [`Mat4`] in a buffer, in bytes.
pub const MAT4_SIZE: usize = 64;

/// Alignment of a [`Mat4`] in a buffer, in bytes: that of its columns.
pub const MAT4_ALIGN: usize = 16;

/// A point or direction in the plane.
#[derive(Clone, Copy, Debug, PartialEq, Eq, Structural)]
pub struct Vec2 {
    pub x: Scalar,
    pub y: Scalar,
}

/// A vector of three scalars.
#[derive(Clone, Copy, Debug, PartialEq, Eq, Structural)]
pub struct Vec3 {
    pub x: Scalar,
    pub y: Scalar,
    pub z: Scalar,
}

/// A vector of four scalars; one column of a [`Mat4`].
#[derive(Clone, Copy, Debug, PartialEq, Eq, Structural)]
pub struct Vec4 {
    pub x: Scalar,
    pub y: Scalar,
    pub z: Scalar,
    pub w: Scalar,
}

/// A colour as the scene author gives it: three channels and an opacity.
#[derive(Clone, Copy, Debug, PartialEq, Eq, Structural)]
pub struct Rgba {
    pub red: Scalar,
    pub green: Scalar,
    pub blue: Scalar,
    pub alpha: Scalar,
}

/// A 4×4 matrix, stored by columns.
#[derive(Clone, Copy, Debug, PartialEq, Eq, Structural)]
pub struct Mat4 {
    pub x_axis: Vec4,
    pub y_axis: Vec4,
    pub z_axis: Vec4,
    pub w_axis: Vec4,
}

impl Vec2 {
    /// The origin: both components positive zero.
    pub open spec fn origin() -> Vec2 {
        Vec2 { x: Scalar { bits: ZERO_BITS }, y: Scalar { bits: ZERO_BITS } }
    }

    /// The vector with these components.
    pub fn new(x: Scalar, y: Scalar) -> (r: Self)
        ensures
            r == (Vec2 { x, y }),
    {
        Vec2 { x, y }
    }

    /// The vector with both components positive zero.
    pub fn zero() -> (r: Self)
        ensures
            r == Vec2::origin(),
    {
        Vec2 { x: Scalar::zero(), y: Scalar::zero() }
    }
}

impl Vec3 {
    /// The vector with all components positive zero.
    pub open spec fn zeros() -> Vec3 {
        Vec3 {
            x: Scalar { bits: ZERO_BITS },
            y: Scalar { bits: ZERO_BITS },
            z: Scalar { bits: ZERO_BITS },
        }
    }

    /// The vector with these components.
    pub fn new(x: Scalar, y: Scalar, z: Scalar) -> (r: Self)
        ensures
            r == (Vec3 { x, y, z }),
    {
        Vec3 { x, y, z }
    }

    /// The vector with all components positive zero.
    pub fn zero() -> (r: Self)
        ensures
            r == Vec3::zeros(),
    {
        Vec3 { x: Scalar::zero(), y: Scalar::zero(), z: Scalar::zero() }
    }
}

impl Vec4 {
    /// The vector with these components.
    pub fn new(x: Scalar, y: Scalar, z: Scalar, w: Scalar) -> (r: Self)
        ensures
            r == (Vec4 { x, y, z, w }),
    {
        Vec4 { x, y, z, w }
    }
}

impl Rgba {
    /// The colour with these channels and this opacity.
    pub fn new(red: Scalar, green: Scalar, blue: Scalar, alpha: Scalar) -> (r: Self)
        ensures
            r == (Rgba { red, green, blue, alpha }),
    {
        Rgba { red, green, blue, alpha }
    }

    /// The three colour channels, without the opacity.
    pub open spec fn channels(self) -> Vec3 {
        Vec3 { x: self.red, y: self.green, z: self.blue }
    }

    /// Drops the opacity and keeps the three colour channels, bit for bit.
    pub fn rgb(self) -> (r: Vec3)
        ensures
            r == self.channels(),
    {
        Vec3 { x: self.red, y: self.green, z: self.blue }
    }
}

impl Mat4 {
    /// The identity matrix: ones on the diagonal, positive zeros elsewhere.
    pub open spec fn identity_matrix() -> Mat4 {
        let o = Scalar { bits: ONE_BITS };
        let z = Scalar { bits: ZERO_BITS };
        Mat4 {
            x_axis: Vec4 { x: o, y: z, z: z, w: z },
            y_axis: Vec4 { x: z, y: o, z: z, w: z },
            z_axis: Vec4 { x: z, y: z, z: o, w: z },
            w_axis: Vec4 { x: z, y: z, z: z, w: o },
        }
    }

    /// The matrix with the given columns.
    pub fn from_cols(x_axis: Vec4, y_axis: Vec4, z_axis: Vec4, w_axis: Vec4) -> (r: Self)
        ensures
            r == (Mat4 { x_axis, y_axis, z_axis, w_axis }),
    {
        Mat4 { x_axis, y_axis, z_axis, w_axis }
    }

    /// The identity matrix.
    pub fn identity() -> (r: Self)
        ensures
            r == Mat4::identity_matrix(),
    {
        let o = Scalar::one();
        let z = Scalar::zero();
        Mat4 {
            x_axis: Vec4 { x: o, y: z, z: z, w: z },
            y_axis: Vec4 { x: z, y: o, z: z, w: z },
            z_axis: Vec4 { x: z, y: z, z: o, w: z },
            w_axis: Vec4 { x: z, y: z, z: z, w: o },
        }
    }
}

impl Vec2 {
    /// The byte image: the components in order.
    #[verifier::opaque]
    pub open spec fn image(self) -> Seq<u8> {
        self.x.image() + self.y.image()
    }

    /// The vector whose image starts at `at`.
    #[verifier::opaque]
    pub open spec fn at(bytes: Seq<u8>, at: int) -> Vec2 {
        Vec2 { x: Scalar::at(bytes, at), y: Scalar::at(bytes, at + 4) }
    }

    /// The image is two words long, and reading it back gives the vector,
    /// wherever the image stands.
    pub proof fn lemma_image(self, before: Seq<u8>, after: Seq<u8>)
        ensures
            self.image().len() == VEC2_SIZE,
            Vec2::at(before + self.image() + after, before.len() as int) == self,
    {
        reveal(Vec2::image);
        reveal(Vec2::at);
        let all = before + self.image() + after;
        self.x.lemma_image(before, self.y.image() + after);
        self.y.lemma_image(before + self.x.image(), after);
        assert(all =~= before + self.x.image() + (self.y.image() + after));
        assert(all =~= before + self.x.image() + self.y.image() + after);
    }

    /// Appends the image of the vector.
    pub fn put(&self, out: &mut Vec<u8>)
        ensures
            final(out)@ == old(out)@ + self.image(),
    {
        proof {
            reveal(Vec2::image);
        }
        self.x.put(out);
        self.y.put(out);
        assert(out@ =~= old(out)@ + self.image());
    }

    /// Reads the vector whose image starts at `at`.
    pub fn get(bytes: &[u8], at: usize) -> (r: Self)
        requires
            at + VEC2_SIZE <= bytes.len(),
        ensures
            r == Vec2::at(bytes@, at as int),
    {
        proof {
            reveal(Vec2::at);
        }
        Vec2 { x: Scalar::get(bytes, at), y: Scalar::get(bytes, at + SCALAR_SIZE) }
    }
}

impl Vec3 {
    /// The byte image: the components in order.
    #[verifier::opaque]
    pub open spec fn image(self) -> Seq<u8> {
        self.x.image() + self.y.image() + self.z.image()
    }

    /// The vector whose image starts at `at`.
    #[verifier::opaque]
    pub open spec fn at(bytes: Seq<u8>, at: int) -> Vec3 {
        Vec3 {
            x: Scalar::at(bytes, at),
            y: Scalar::at(bytes, at + 4),
            z: Scalar::at(bytes, at + 8),
        }
    }

    /// The image is three words long, and reading it back gives the vector,
    /// wherever the image stands.
    pub proof fn lemma_image(self, before: Seq<u8>, after: Seq<u8>)
        ensures
            self.image().len() == VEC3_SIZE,
            Vec3::at(before + self.image() + after, before.len() as int) == self,
    {
        reveal(Vec3::image);
        reveal(Vec3::at);
        let all = before + self.image() + after;
        self.x.lemma_image(before, self.y.image() + self.z.image() + after);
        self.y.lemma_image(before + self.x.image(), self.z.image() + after);
        self.z.lemma_image(before + self.x.image() + self.y.image(), after);
        assert(all =~= before + self.x.image() + (self.y.image() + self.z.image() + after));
        assert(all =~= before + self.x.image() + self.y.image() + (self.z.image() + after));
        assert(all =~= before + self.x.image() + self.y.image() + self.z.image() + after);
    }

    /// Appends the image of the vector.
    pub fn put(&self, out: &mut Vec<u8>)
        ensures
            final(out)@ == old(out)@ + self.image(),
    {
        proof {
            reveal(Vec3::image);
        }
        self.x.put(out);
        self.y.put(out);
        self.z.put(out);
        assert(out@ =~= old(out)@ + self.image());
    }

    /// Reads the vector whose image starts at `at`.
    pub fn get(bytes: &[u8], at: usize) -> (r: Self)
        requires
            at + VEC3_SIZE <= bytes.len(),
        ensures
            r == Vec3::at(bytes@, at as int),
    {
        proof {
            reveal(Vec3::at);
        }
        Vec3 {
            x: Scalar::get(bytes, at),
            y: Scalar::get(bytes, at + SCALAR_SIZE),
            z: Scalar::get(bytes, at + 2 * SCALAR_SIZE),
        }
    }
}

impl Vec4 {
    /// The byte image: the components in order.
    #[verifier::opaque]
    pub open spec fn image(self) -> Seq<u8> {
        self.x.image() + self.y.image() + self.z.image() + self.w.image()
    }

    /// The vector whose image starts at `at`.
    #[verifier::opaque]
    pub open spec fn at(bytes: Seq<u8>, at: int) -> Vec4 {
        Vec4 {
            x: Scalar::at(bytes, at),
            y: Scalar::at(bytes, at + 4),
            z: Scalar::at(bytes, at + 8),
            w: Scalar::at(bytes, at + 12),
        }
    }

    /// The image is four words long, and reading it back gives the vector,
    /// wherever the image stands.
    pub proof fn lemma_image(self, before: Seq<u8>, after: Seq<u8>)
        ensures
            self.image().len() == VEC4_SIZE,
            Vec4::at(before + self.image() + after, before.len() as int) == self,
    {
        reveal(Vec4::image);
        reveal(Vec4::at);
        let all = before + self.image() + after;
        let (x, y, z, w) = (self.x.image(), self.y.image(), self.z.image(), self.w.image());
        self.x.lemma_image(before, y + z + w + after);
        self.y.lemma_image(before + x, z + w + after);
        self.z.lemma_image(before + x + y, w + after);
        self.w.lemma_image(before + x + y + z, after);
        assert(all =~= before + x + (y + z + w + after));
        assert(all =~= before + x + y + (z + w + after));
        assert(all =~= before + x + y + z + (w + after));
        assert(all =~= before + x + y + z + w + after);
    }

    /// Appends the image of the vector.
    pub fn put(&self, out: &mut Vec<u8>)
        ensures
            final(out)@ == old(out)@ + self.image(),
    {
        proof {
            reveal(Vec4::image);
        }
        self.x.put(out);
        self.y.put(out);
        self.z.put(out);
        self.w.put(out);
        assert(out@ =~= old(out)@ + self.image());
    }

    /// Reads the vector whose image starts at `at`.
    pub fn get(bytes: &[u8], at: usize) -> (r: Self)
        requires
            at + VEC4_SIZE <= bytes.len(),
        ensures
            r == Vec4::at(bytes@, at as int),
    {
        proof {
            reveal(Vec4::at);
        }
        Vec4 {
            x: Scalar::get(bytes, at),
            y: Scalar::get(bytes, at + SCALAR_SIZE),
            z: Scalar::get(bytes, at + 2 * SCALAR_SIZE),
            w: Scalar::get(bytes, at + 3 * SCALAR_SIZE),
        }
    }
}

impl Mat4 {
    /// The byte image: the four columns in order, without padding.
    #[verifier::opaque]
    pub open spec fn image(self) -> Seq<u8> {
        self.x_axis.image() + self.y_axis.image() + self.z_axis.image() + self.w_axis.image()
    }

    /// The matrix whose image starts at `at`.
    #[verifier::opaque]
    pub open spec fn at(bytes: Seq<u8>, at: int) -> Mat4 {
        Mat4 {
            x_axis: Vec4::at(bytes, at),
            y_axis: Vec4::at(bytes, at + 16),
            z_axis: Vec4::at(bytes, at + 32),
            w_axis: Vec4::at(bytes, at + 48),
        }
    }

    /// The image is sixteen words long, and reading it back gives the matrix,
    /// wherever the image stands.
    pub proof fn lemma_image(self, before: Seq<u8>, after: Seq<u8>)
        ensures
            self.image().len() == MAT4_SIZE,
            Mat4::at(before + self.image() + after, before.len() as int) == self,
    {
        reveal(Mat4::image);
        reveal(Mat4::at);
        let all = before + self.image() + after;
        let (x, y, z, w) = (
            self.x_axis.image(),
            self.y_axis.image(),
            self.z_axis.image(),
            self.w_axis.image(),
        );
        self.x_axis.lemma_image(before, y + z + w + after);
        self.y_axis.lemma_image(before + x, z + w + after);
        self.z_axis.lemma_image(before + x + y, w + after);
        self.w_axis.lemma_image(before + x + y + z, after);
        assert(all =~= before + x + (y + z + w + after));
        assert(all =~= before + x + y + (z + w + after));
        assert(all =~= before + x + y + z + (w + after));
        assert(all =~= before + x + y + z + w + after);
    }

    /// Appends the image of the matrix.
    pub fn put(&self, out: &mut Vec<u8>)
        ensures
            final(out)@ == old(out)@ + self.image(),
    {
        proof {
            reveal(Mat4::image);
        }
        self.x_axis.put(out);
        self.y_axis.put(out);
        self.z_axis.put(out);
        self.w_axis.put(out);
        assert(out@ =~= old(out)@ + self.image());
    }

    /// Reads the matrix whose image starts at `at`.
    pub fn get(bytes: &[u8], at: usize) -> (r: Self)
        requires
            at + MAT4_SIZE <= bytes.len(),
        ensures
            r == Mat4::at(bytes@, at as int),
    {
        proof {
            reveal(Mat4::at);
        }
        Mat4 {
            x_axis: Vec4::get(bytes, at),
            y_axis: Vec4::get(bytes, at + VEC4_SIZE),
            z_axis: Vec4::get(bytes, at + 2 * VEC4_SIZE),
            w_axis: Vec4::get(bytes, at + 3 * VEC4_SIZE),
        }
    }
}

impl Default for Vec2 {
    /// The origin.
    fn default() -> (r: Self)
        ensures
            r == Vec2::origin(),
    {
        Vec2::zero()
    }
}

impl Default for Vec3 {
    /// The vector with all components positive zero.
    fn default() -> (r: Self)
        ensures
            r == Vec3::zeros(),
    {
        Vec3::zero()
    }
}

impl Default for Mat4 {
    /// The identity matrix.
    fn default() -> (r: Self)
        ensures
            r == Mat4::identity_matrix(),
    {
        Mat4::identity()
    }
}

} // verus!

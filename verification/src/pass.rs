//! The pass parameter block: what tunes the lighting passes of one frame.

use vstd::prelude::*;
use vstd::arithmetic::power2::lemma2_to64;
use vstd::arithmetic::power2::lemma_pow2_adds;
use vstd::arithmetic::power2::lemma_pow2_pos;
use vstd::arithmetic::power2::pow2;
use crate::number::lemma_rounds_within_binade;
use crate::number::UNIT_EXPONENT;
use crate::layout::close;
use crate::layout::from_word;
use crate::layout::get_word;
use crate::layout::lemma_signed_round_trip;
use crate::layout::lemma_word_round_trip;
use crate::layout::place;
use crate::layout::put_word;
use crate::layout::signed_word;
use crate::layout::to_word;
use crate::layout::word_at;
use crate::layout::word_image;
use crate::layout::word_signed;
use crate::record::GpuRecord;
use crate::scalar::Scalar;
use crate::scalar::SCALAR_ALIGN;
use crate::vector::Vec3;
use crate::vector::VEC3_ALIGN;

verus! {

/// Offset of the frame counter in the image of the block.
pub const PASS_FRAME_COUNTER_OFFSET: usize = 0;

/// Offset of the probe size in the image of the block.
pub const PASS_PROBE_SIZE_OFFSET: usize = 4;

/// Offset of the number of atlas columns in the image of the block.
pub const PASS_PROBE_ATLAS_COLS_OFFSET: usize = 8;

/// Offset of the number of atlas rows in the image of the block.
pub const PASS_PROBE_ATLAS_ROWS_OFFSET: usize = 12;

/// Offset of the skylight colour in the image of the block.
pub const PASS_SKYLIGHT_COLOR_OFFSET: usize = 16;

/// Offset of the reservoir size in the image of the block.
pub const PASS_RESERVOIR_SIZE_OFFSET: usize = 28;

/// Offset of the height of the smoothing kernel in the image of the block.
pub const PASS_SMOOTH_KERNEL_SIZE_H_OFFSET: usize = 32;

/// Offset of the width of the smoothing kernel in the image of the block.
pub const PASS_SMOOTH_KERNEL_SIZE_W_OFFSET: usize = 36;

/// Offset of the weight of direct light in the image of the block.
pub const PASS_DIRECT_LIGHT_CONTRIB_OFFSET: usize = 40;

/// Offset of the weight of indirect light in the image of the block.
pub const PASS_INDIRECT_LIGHT_CONTRIB_OFFSET: usize = 44;

/// Size of the image of the block, in bytes.
pub const PASS_STRIDE: usize = 48;

/// Alignment of the block, in bytes: that of its colour.
pub const PASS_ALIGN: usize = 16;

/// The scalar nearest to `0.003`: the red of the tint from which the default
/// skylight is made.
pub const SKYLIGHT_TINT_RED_BITS: u32 = 0x3B44_9BA6;

/// The scalar nearest to `0.0078`: the green of the tint.
pub const SKYLIGHT_TINT_GREEN_BITS: u32 = 0x3BFF_9724;

/// The scalar nearest to `0.058`: the blue of the tint.
pub const SKYLIGHT_TINT_BLUE_BITS: u32 = 0x3D6D_9168;

/// The scalar `100`, by which the tint is divided.
pub const SKYLIGHT_TINT_DIVISOR_BITS: u32 = 0x42C8_0000;

/// Red of the skylight where nothing else is configured: `0.003 / 100`.
pub const DEFAULT_SKYLIGHT_RED_BITS: u32 = 0x37FB_A883;

/// Green of the skylight where nothing else is configured: `0.0078 / 100`.
pub const DEFAULT_SKYLIGHT_GREEN_BITS: u32 = 0x38A3_93EE;

/// Blue of the skylight where nothing else is configured: `0.058 / 100`.
pub const DEFAULT_SKYLIGHT_BLUE_BITS: u32 = 0x3A18_0B24;

/// Samples kept for each probe where nothing else is configured.
pub const DEFAULT_RESERVOIR_SIZE: u32 = 8;

/// Height of the smoothing kernel where nothing else is configured.
pub const DEFAULT_SMOOTH_KERNEL_SIZE_H: u32 = 2;

/// Width of the smoothing kernel where nothing else is configured.
pub const DEFAULT_SMOOTH_KERNEL_SIZE_W: u32 = 1;

/// Weight of direct light where nothing else is configured: `0.2`.
pub const DEFAULT_DIRECT_LIGHT_CONTRIB_BITS: u32 = 0x3E4C_CCCD;

/// Weight of indirect light where nothing else is configured: `0.8`.
pub const DEFAULT_INDIRECT_LIGHT_CONTRIB_BITS: u32 = 0x3F4C_CCCD;

/// The pass parameters of one frame as the device reads them.
#[derive(Clone, Copy, Debug, PartialEq, Eq, Structural)]
pub struct GpuLightPassParams {
    /// Goes up by one with every frame and wraps around.
    pub frame_counter: i32,
    /// Pixels along the side of a probe; zero until it is configured.
    pub probe_size: i32,
    /// Columns of the probe atlas; zero until it is configured.
    pub probe_atlas_cols: i32,
    /// Rows of the probe atlas; zero until it is configured.
    pub probe_atlas_rows: i32,
    /// The light of the sky where nothing masks it.
    pub skylight_color: Vec3,
    /// Samples kept for each probe from frame to frame.
    pub reservoir_size: u32,
    pub smooth_kernel_size_h: u32,
    pub smooth_kernel_size_w: u32,
    /// Weight of direct light in the result.
    pub direct_light_contrib: Scalar,
    /// Weight of indirect light in the result; the two weights need not add
    /// up to one.
    pub indirect_light_contrib: Scalar,
}

impl GpuLightPassParams {
    /// The block where nothing is configured.
    pub open spec fn initial() -> GpuLightPassParams {
        GpuLightPassParams {
            frame_counter: 0,
            probe_size: 0,
            probe_atlas_cols: 0,
            probe_atlas_rows: 0,
            skylight_color: Vec3 {
                x: Scalar { bits: DEFAULT_SKYLIGHT_RED_BITS },
                y: Scalar { bits: DEFAULT_SKYLIGHT_GREEN_BITS },
                z: Scalar { bits: DEFAULT_SKYLIGHT_BLUE_BITS },
            },
            reservoir_size: DEFAULT_RESERVOIR_SIZE,
            smooth_kernel_size_h: DEFAULT_SMOOTH_KERNEL_SIZE_H,
            smooth_kernel_size_w: DEFAULT_SMOOTH_KERNEL_SIZE_W,
            direct_light_contrib: Scalar { bits: DEFAULT_DIRECT_LIGHT_CONTRIB_BITS },
            indirect_light_contrib: Scalar { bits: DEFAULT_INDIRECT_LIGHT_CONTRIB_BITS },
        }
    }

    /// The frame counter after `counter`: one more, or the least value after
    /// the greatest.
    pub open spec fn next_frame(counter: i32) -> i32 {
        if counter == i32::MAX {
            i32::MIN
        } else {
            (counter + 1) as i32
        }
    }

    /// Counts one more frame; nothing else changes.
    pub fn advance_frame(&mut self)
        ensures
            *final(self) == (GpuLightPassParams {
                frame_counter: Self::next_frame(old(self).frame_counter),
                ..*old(self)
            }),
    {
        self.frame_counter = if self.frame_counter == i32::MAX {
            i32::MIN
        } else {
            self.frame_counter + 1
        };
    }

    /// The image written out: the ten fields, which need no padding.
    proof fn lemma_flat_image(self)
        ensures
            self.image() == word_image(signed_word(self.frame_counter)) + word_image(
                signed_word(self.probe_size),
            ) + word_image(signed_word(self.probe_atlas_cols)) + word_image(
                signed_word(self.probe_atlas_rows),
            ) + self.skylight_color.image() + word_image(self.reservoir_size) + word_image(
                self.smooth_kernel_size_h,
            ) + word_image(self.smooth_kernel_size_w) + self.direct_light_contrib.image()
                + self.indirect_light_contrib.image(),
            self.skylight_color.image().len() == 12,
            self.direct_light_contrib.image().len() == 4,
            self.indirect_light_contrib.image().len() == 4,
            forall|w: u32| (#[trigger] word_image(w)).len() == 4,
    {
        let e = Seq::<u8>::empty();
        assert forall|w: u32| (#[trigger] word_image(w)).len() == 4 by {
            lemma_word_round_trip(e, w, e);
        }
        self.skylight_color.lemma_image(e, e);
        self.direct_light_contrib.lemma_image(e, e);
        self.indirect_light_contrib.lemma_image(e, e);
        assert(self.image() =~= word_image(signed_word(self.frame_counter)) + word_image(
            signed_word(self.probe_size),
        ) + word_image(signed_word(self.probe_atlas_cols)) + word_image(
            signed_word(self.probe_atlas_rows),
        ) + self.skylight_color.image() + word_image(self.reservoir_size) + word_image(
            self.smooth_kernel_size_h,
        ) + word_image(self.smooth_kernel_size_w) + self.direct_light_contrib.image()
            + self.indirect_light_contrib.image());
    }
}

/// The default weights are the scalars nearest to one fifth and to four
/// fifths.
pub proof fn lemma_default_weights()
    ensures
        (Scalar { bits: DEFAULT_DIRECT_LIGHT_CONTRIB_BITS }).rounds(1, 5),
        (Scalar { bits: DEFAULT_INDIRECT_LIGHT_CONTRIB_BITS }).rounds(4, 5),
{
    lemma2_to64();
    let direct = Scalar { bits: DEFAULT_DIRECT_LIGHT_CONTRIB_BITS };
    assert(direct.significand() == 13421773 && direct.scale() == 123);
    lemma_pow2_adds(26, 123);
    lemma_pow2_pos(123);
    lemma_fraction_rounds(direct, 13421773, pow2(123), 0x400_0000, 1, 5);
    let indirect = Scalar { bits: DEFAULT_INDIRECT_LIGHT_CONTRIB_BITS };
    assert(indirect.significand() == 13421773 && indirect.scale() == 125);
    lemma_pow2_adds(24, 125);
    lemma_pow2_pos(125);
    lemma_fraction_rounds(indirect, 13421773, pow2(125), 0x100_0000, 4, 5);
}

/// The tint of the default skylight is made of the scalars nearest to 0.003,
/// 0.0078 and 0.058, and its divisor is a hundred.
pub proof fn lemma_skylight_tint()
    ensures
        (Scalar { bits: SKYLIGHT_TINT_RED_BITS }).rounds(3, 1000),
        (Scalar { bits: SKYLIGHT_TINT_GREEN_BITS }).rounds(78, 10000),
        (Scalar { bits: SKYLIGHT_TINT_BLUE_BITS }).rounds(58, 1000),
        (Scalar { bits: SKYLIGHT_TINT_DIVISOR_BITS }).units() == 100 * pow2(149),
{
    lemma2_to64();
    let red = Scalar { bits: SKYLIGHT_TINT_RED_BITS };
    assert(red.significand() == 12884902 && red.scale() == 117);
    lemma_pow2_adds(32, 117);
    lemma_pow2_pos(117);
    lemma_fraction_rounds(red, 12884902, pow2(117), 0x1_0000_0000, 3, 1000);
    let green = Scalar { bits: SKYLIGHT_TINT_GREEN_BITS };
    assert(green.significand() == 16750372 && green.scale() == 118);
    lemma_pow2_adds(31, 118);
    lemma_pow2_pos(118);
    lemma_fraction_rounds(green, 16750372, pow2(118), 0x8000_0000, 78, 10000);
    let blue = Scalar { bits: SKYLIGHT_TINT_BLUE_BITS };
    assert(blue.significand() == 15569256 && blue.scale() == 121);
    lemma_pow2_adds(28, 121);
    lemma_pow2_pos(121);
    lemma_fraction_rounds(blue, 15569256, pow2(121), 0x1000_0000, 58, 1000);
    let divisor = Scalar { bits: SKYLIGHT_TINT_DIVISOR_BITS };
    assert(divisor.significand() == 13107200 && divisor.scale() == 132);
    lemma_pow2_adds(17, 132);
}

/// Each channel of the default skylight is the channel of the tint divided by
/// a hundred, rounded to the nearest scalar.
pub proof fn lemma_default_skylight()
    ensures
        ({
            let divisor = (Scalar { bits: SKYLIGHT_TINT_DIVISOR_BITS }).units();
            let red = (Scalar { bits: SKYLIGHT_TINT_RED_BITS }).units();
            let green = (Scalar { bits: SKYLIGHT_TINT_GREEN_BITS }).units();
            let blue = (Scalar { bits: SKYLIGHT_TINT_BLUE_BITS }).units();
            &&& (Scalar { bits: DEFAULT_SKYLIGHT_RED_BITS }).rounds(red, divisor)
            &&& (Scalar { bits: DEFAULT_SKYLIGHT_GREEN_BITS }).rounds(green, divisor)
            &&& (Scalar { bits: DEFAULT_SKYLIGHT_BLUE_BITS }).rounds(blue, divisor)
        }),
{
    lemma2_to64();
    lemma_skylight_tint();
    let divisor = Scalar { bits: SKYLIGHT_TINT_DIVISOR_BITS };
    let y = pow2(132);
    lemma_pow2_adds(17, 132);
    lemma_pow2_pos(132);
    assert(divisor.units() == 13107200 * y);

    let tint = Scalar { bits: SKYLIGHT_TINT_RED_BITS };
    let red = Scalar { bits: DEFAULT_SKYLIGHT_RED_BITS };
    let x = pow2(110);
    assert(tint.significand() == 12884902 && tint.scale() == 117);
    assert(red.significand() == 16492675 && red.scale() == 110);
    lemma_pow2_adds(7, 110);
    lemma_pow2_pos(110);
    lemma_quotient_rounds(red, 16492675, x, 12884902, 128, 13107200, y);

    let tint = Scalar { bits: SKYLIGHT_TINT_GREEN_BITS };
    let green = Scalar { bits: DEFAULT_SKYLIGHT_GREEN_BITS };
    let x = pow2(112);
    assert(tint.significand() == 16750372 && tint.scale() == 118);
    assert(green.significand() == 10720238 && green.scale() == 112);
    lemma_pow2_adds(6, 112);
    lemma_pow2_pos(112);
    lemma_quotient_rounds(green, 10720238, x, 16750372, 64, 13107200, y);

    let tint = Scalar { bits: SKYLIGHT_TINT_BLUE_BITS };
    let blue = Scalar { bits: DEFAULT_SKYLIGHT_BLUE_BITS };
    let x = pow2(115);
    assert(tint.significand() == 15569256 && tint.scale() == 121);
    assert(blue.significand() == 9964324 && blue.scale() == 115);
    lemma_pow2_adds(6, 115);
    lemma_pow2_pos(115);
    lemma_quotient_rounds(blue, 9964324, x, 15569256, 64, 13107200, y);
}

/// A scalar with significand `sig` at the scale of `x`, of which the unit
/// `2¹⁴⁹` is the multiple `lift`, rounds `num / den` when the fraction lies
/// between the midpoints, which comes down to the whole numbers in front of
/// `x`.
proof fn lemma_fraction_rounds(s: Scalar, sig: nat, x: nat, lift: nat, num: nat, den: nat)
    requires
        0 < s.exponent_field() < 255,
        0 < s.fraction(),
        !s.sign(),
        s.significand() == sig,
        pow2(s.scale()) == x,
        x > 0,
        pow2(UNIT_EXPONENT as nat) == lift * x,
        (2 * sig - 1) * den < 2 * num * lift,
        2 * num * lift < (2 * sig + 1) * den,
    ensures
        s.rounds(num, den),
{
    let a = (2 * sig - 1) * den;
    let b = 2 * num * lift;
    let c = (2 * sig + 1) * den;
    assert((2 * sig - 1) * x * den == a * x) by (nonlinear_arith)
        requires
            a == (2 * sig - 1) * den,
    ;
    assert((2 * sig + 1) * x * den == c * x) by (nonlinear_arith)
        requires
            c == (2 * sig + 1) * den,
    ;
    assert(2 * num * (lift * x) == b * x) by (nonlinear_arith)
        requires
            b == 2 * num * lift,
    ;
    assert(a * x < b * x && b * x < c * x) by (nonlinear_arith)
        requires
            a < b < c,
            x > 0,
    ;
    lemma_rounds_within_binade(s, num, den);
}

/// A scalar with significand `sig` at the scale of `x` rounds the quotient of
/// `top * lift * x` by `bottom * y` when the quotient lies between the
/// midpoints, which comes down to the whole numbers in front of `x * y`.
proof fn lemma_quotient_rounds(s: Scalar, sig: nat, x: nat, top: nat, lift: nat, bottom: nat, y: nat)
    requires
        0 < s.exponent_field() < 255,
        0 < s.fraction(),
        !s.sign(),
        s.significand() == sig,
        pow2(s.scale()) == x,
        x > 0,
        y > 0,
        pow2(UNIT_EXPONENT as nat) == 131072 * y,
        (2 * sig - 1) * bottom < 2 * top * lift * 131072,
        2 * top * lift * 131072 < (2 * sig + 1) * bottom,
    ensures
        s.rounds(top * (lift * x), bottom * y),
{
    let num = top * (lift * x);
    let den = bottom * y;
    assert((2 * sig - 1) * x * den == ((2 * sig - 1) * bottom) * (x * y)) by (nonlinear_arith)
        requires
            den == bottom * y,
    ;
    assert((2 * sig + 1) * x * den == ((2 * sig + 1) * bottom) * (x * y)) by (nonlinear_arith)
        requires
            den == bottom * y,
    ;
    assert(2 * num * (131072 * y) == (2 * top * lift * 131072) * (x * y)) by (nonlinear_arith)
        requires
            num == top * (lift * x),
    ;
    assert(x * y > 0) by (nonlinear_arith)
        requires
            x > 0,
            y > 0,
    ;
    let xy = x * y;
    let a = (2 * sig - 1) * bottom;
    let b = 2 * top * lift * 131072;
    let c = (2 * sig + 1) * bottom;
    assert(a * xy < b * xy && b * xy < c * xy) by (nonlinear_arith)
        requires
            a < b < c,
            xy > 0,
    ;
    lemma_rounds_within_binade(s, num, den);
}

impl Default for GpuLightPassParams {
    /// The block where nothing is configured: counter and probe topology zero,
    /// a reservoir of eight, a kernel of two by one, direct light at one fifth
    /// and indirect light at four fifths, and for the sky the tint divided by a
    /// hundred.
    fn default() -> (r: Self)
        ensures
            r == GpuLightPassParams::initial(),
            r.frame_counter == 0,
            r.probe_size == 0,
            r.probe_atlas_cols == 0,
            r.probe_atlas_rows == 0,
            r.reservoir_size == 8,
            r.smooth_kernel_size_h == 2,
            r.smooth_kernel_size_w == 1,
            r.direct_light_contrib.rounds(1, 5),
            r.indirect_light_contrib.rounds(4, 5),
            r.skylight_color.x.rounds(
                (Scalar { bits: SKYLIGHT_TINT_RED_BITS }).units(),
                (Scalar { bits: SKYLIGHT_TINT_DIVISOR_BITS }).units(),
            ),
            r.skylight_color.y.rounds(
                (Scalar { bits: SKYLIGHT_TINT_GREEN_BITS }).units(),
                (Scalar { bits: SKYLIGHT_TINT_DIVISOR_BITS }).units(),
            ),
            r.skylight_color.z.rounds(
                (Scalar { bits: SKYLIGHT_TINT_BLUE_BITS }).units(),
                (Scalar { bits: SKYLIGHT_TINT_DIVISOR_BITS }).units(),
            ),
    {
        proof {
            lemma_default_weights();
            lemma_default_skylight();
        }
        GpuLightPassParams {
            frame_counter: 0,
            probe_size: 0,
            probe_atlas_cols: 0,
            probe_atlas_rows: 0,
            skylight_color: Vec3::new(
                Scalar::from_bits(DEFAULT_SKYLIGHT_RED_BITS),
                Scalar::from_bits(DEFAULT_SKYLIGHT_GREEN_BITS),
                Scalar::from_bits(DEFAULT_SKYLIGHT_BLUE_BITS),
            ),
            reservoir_size: DEFAULT_RESERVOIR_SIZE,
            smooth_kernel_size_h: DEFAULT_SMOOTH_KERNEL_SIZE_H,
            smooth_kernel_size_w: DEFAULT_SMOOTH_KERNEL_SIZE_W,
            direct_light_contrib: Scalar::from_bits(DEFAULT_DIRECT_LIGHT_CONTRIB_BITS),
            indirect_light_contrib: Scalar::from_bits(DEFAULT_INDIRECT_LIGHT_CONTRIB_BITS),
        }
    }
}

impl GpuRecord for GpuLightPassParams {
    open spec fn stride() -> nat {
        PASS_STRIDE as nat
    }

    open spec fn align() -> nat {
        PASS_ALIGN as nat
    }

    /// The fields in order, each at the next multiple of its alignment, and the
    /// whole padded to a multiple of the block's alignment. A signed field is
    /// written as its two's complement.
    open spec fn image(self) -> Seq<u8> {
        let a = place(Seq::empty(), word_image(signed_word(self.frame_counter)), 4);
        let b = place(a, word_image(signed_word(self.probe_size)), 4);
        let c = place(b, word_image(signed_word(self.probe_atlas_cols)), 4);
        let d = place(c, word_image(signed_word(self.probe_atlas_rows)), 4);
        let e = place(d, self.skylight_color.image(), VEC3_ALIGN as nat);
        let f = place(e, word_image(self.reservoir_size), 4);
        let g = place(f, word_image(self.smooth_kernel_size_h), 4);
        let h = place(g, word_image(self.smooth_kernel_size_w), 4);
        let i = place(h, self.direct_light_contrib.image(), SCALAR_ALIGN as nat);
        let j = place(i, self.indirect_light_contrib.image(), SCALAR_ALIGN as nat);
        close(j, PASS_ALIGN as nat)
    }

    open spec fn parse_at(bytes: Seq<u8>, at: int) -> Self {
        GpuLightPassParams {
            frame_counter: word_signed(word_at(bytes, at + PASS_FRAME_COUNTER_OFFSET)),
            probe_size: word_signed(word_at(bytes, at + PASS_PROBE_SIZE_OFFSET)),
            probe_atlas_cols: word_signed(word_at(bytes, at + PASS_PROBE_ATLAS_COLS_OFFSET)),
            probe_atlas_rows: word_signed(word_at(bytes, at + PASS_PROBE_ATLAS_ROWS_OFFSET)),
            skylight_color: Vec3::at(bytes, at + PASS_SKYLIGHT_COLOR_OFFSET),
            reservoir_size: word_at(bytes, at + PASS_RESERVOIR_SIZE_OFFSET),
            smooth_kernel_size_h: word_at(bytes, at + PASS_SMOOTH_KERNEL_SIZE_H_OFFSET),
            smooth_kernel_size_w: word_at(bytes, at + PASS_SMOOTH_KERNEL_SIZE_W_OFFSET),
            direct_light_contrib: Scalar::at(bytes, at + PASS_DIRECT_LIGHT_CONTRIB_OFFSET),
            indirect_light_contrib: Scalar::at(bytes, at + PASS_INDIRECT_LIGHT_CONTRIB_OFFSET),
        }
    }

    proof fn lemma_layout() {
    }

    proof fn lemma_image(self, before: Seq<u8>, after: Seq<u8>) {
        let all = before + self.image() + after;
        let fc = word_image(signed_word(self.frame_counter));
        let ps = word_image(signed_word(self.probe_size));
        let pc = word_image(signed_word(self.probe_atlas_cols));
        let pr = word_image(signed_word(self.probe_atlas_rows));
        let sk = self.skylight_color.image();
        let rs = word_image(self.reservoir_size);
        let kh = word_image(self.smooth_kernel_size_h);
        let kw = word_image(self.smooth_kernel_size_w);
        let dl = self.direct_light_contrib.image();
        let il = self.indirect_light_contrib.image();
        self.lemma_flat_image();
        lemma_signed_round_trip(self.frame_counter);
        lemma_signed_round_trip(self.probe_size);
        lemma_signed_round_trip(self.probe_atlas_cols);
        lemma_signed_round_trip(self.probe_atlas_rows);
        lemma_word_round_trip(
            before,
            signed_word(self.frame_counter),
            ps + pc + pr + sk + rs + kh + kw + dl + il + after,
        );
        lemma_word_round_trip(
            before + fc,
            signed_word(self.probe_size),
            pc + pr + sk + rs + kh + kw + dl + il + after,
        );
        lemma_word_round_trip(
            before + fc + ps,
            signed_word(self.probe_atlas_cols),
            pr + sk + rs + kh + kw + dl + il + after,
        );
        lemma_word_round_trip(
            before + fc + ps + pc,
            signed_word(self.probe_atlas_rows),
            sk + rs + kh + kw + dl + il + after,
        );
        self.skylight_color.lemma_image(before + fc + ps + pc + pr, rs + kh + kw + dl + il + after);
        lemma_word_round_trip(
            before + fc + ps + pc + pr + sk,
            self.reservoir_size,
            kh + kw + dl + il + after,
        );
        lemma_word_round_trip(
            before + fc + ps + pc + pr + sk + rs,
            self.smooth_kernel_size_h,
            kw + dl + il + after,
        );
        lemma_word_round_trip(
            before + fc + ps + pc + pr + sk + rs + kh,
            self.smooth_kernel_size_w,
            dl + il + after,
        );
        self.direct_light_contrib.lemma_image(
            before + fc + ps + pc + pr + sk + rs + kh + kw,
            il + after,
        );
        self.indirect_light_contrib.lemma_image(
            before + fc + ps + pc + pr + sk + rs + kh + kw + dl,
            after,
        );
        assert(all =~= before + fc + (ps + pc + pr + sk + rs + kh + kw + dl + il + after));
        assert(all =~= before + fc + ps + (pc + pr + sk + rs + kh + kw + dl + il + after));
        assert(all =~= before + fc + ps + pc + (pr + sk + rs + kh + kw + dl + il + after));
        assert(all =~= before + fc + ps + pc + pr + (sk + rs + kh + kw + dl + il + after));
        assert(all =~= before + fc + ps + pc + pr + sk + (rs + kh + kw + dl + il + after));
        assert(all =~= before + fc + ps + pc + pr + sk + rs + (kh + kw + dl + il + after));
        assert(all =~= before + fc + ps + pc + pr + sk + rs + kh + (kw + dl + il + after));
        assert(all =~= before + fc + ps + pc + pr + sk + rs + kh + kw + (dl + il + after));
        assert(all =~= before + fc + ps + pc + pr + sk + rs + kh + kw + dl + (il + after));
        assert(all =~= before + fc + ps + pc + pr + sk + rs + kh + kw + dl + il + after);
    }

    fn stride_bytes() -> (r: usize) {
        PASS_STRIDE
    }

    fn align_bytes() -> (r: usize) {
        PASS_ALIGN
    }

    fn put(&self, out: &mut Vec<u8>) {
        proof {
            self.lemma_flat_image();
        }
        put_word(out, to_word(self.frame_counter));
        put_word(out, to_word(self.probe_size));
        put_word(out, to_word(self.probe_atlas_cols));
        put_word(out, to_word(self.probe_atlas_rows));
        self.skylight_color.put(out);
        put_word(out, self.reservoir_size);
        put_word(out, self.smooth_kernel_size_h);
        put_word(out, self.smooth_kernel_size_w);
        self.direct_light_contrib.put(out);
        self.indirect_light_contrib.put(out);
        assert(out@ =~= old(out)@ + self.image());
    }

    fn get(bytes: &[u8], at: usize) -> (r: Self) {
        GpuLightPassParams {
            frame_counter: from_word(get_word(bytes, at + PASS_FRAME_COUNTER_OFFSET)),
            probe_size: from_word(get_word(bytes, at + PASS_PROBE_SIZE_OFFSET)),
            probe_atlas_cols: from_word(get_word(bytes, at + PASS_PROBE_ATLAS_COLS_OFFSET)),
            probe_atlas_rows: from_word(get_word(bytes, at + PASS_PROBE_ATLAS_ROWS_OFFSET)),
            skylight_color: Vec3::get(bytes, at + PASS_SKYLIGHT_COLOR_OFFSET),
            reservoir_size: get_word(bytes, at + PASS_RESERVOIR_SIZE_OFFSET),
            smooth_kernel_size_h: get_word(bytes, at + PASS_SMOOTH_KERNEL_SIZE_H_OFFSET),
            smooth_kernel_size_w: get_word(bytes, at + PASS_SMOOTH_KERNEL_SIZE_W_OFFSET),
            direct_light_contrib: Scalar::get(bytes, at + PASS_DIRECT_LIGHT_CONTRIB_OFFSET),
            indirect_light_contrib: Scalar::get(bytes, at + PASS_INDIRECT_LIGHT_CONTRIB_OFFSET),
        }
    }
}

} // verus!

use gi_buffers::layout::from_word;
use gi_buffers::layout::get_word;
use gi_buffers::layout::put_padding;
use gi_buffers::layout::put_word;
use gi_buffers::layout::to_word;
use gi_buffers::scalar::Scalar;
use gi_buffers::scalar::ONE_BITS;
use gi_buffers::scalar::ZERO_BITS;
use gi_buffers::vector::Mat4;
use gi_buffers::vector::Rgba;
use gi_buffers::vector::Vec2;
use gi_buffers::vector::Vec3;
use gi_buffers::vector::Vec4;

fn s(v: f32) -> Scalar {
    Scalar::from_bits(v.to_bits())
}

fn samples() -> Vec<f32> {
    let mut out = vec![
        0.0,
        -0.0,
        1.0,
        -1.0,
        0.2,
        -0.8,
        f32::MIN_POSITIVE,
        -f32::MIN_POSITIVE,
        1.0e-45,
        -1.0e-45,
        f32::MAX,
        f32::MIN,
        f32::INFINITY,
        f32::NEG_INFINITY,
        f32::NAN,
        -f32::NAN,
        f32::from_bits(0x7F80_0001),
        f32::from_bits(0xFF80_0001),
        f32::from_bits(0x7FFF_FFFF),
        f32::from_bits(0xFFFF_FFFF),
    ];
    let mut bits: u32 = 0x9E37_79B9;
    for _ in 0..2000 {
        bits = bits.wrapping_mul(1_664_525).wrapping_add(1_013_904_223);
        out.push(f32::from_bits(bits));
    }
    out
}

#[test]
fn scalar_is_its_bits() {
    assert_eq!(Scalar::zero().to_bits(), 0);
    assert_eq!(Scalar::one().to_bits(), 1.0f32.to_bits());
    assert_eq!(ZERO_BITS, 0.0f32.to_bits());
    assert_eq!(ONE_BITS, 1.0f32.to_bits());
    assert_eq!(Scalar::default(), Scalar::zero());
    for v in samples() {
        assert_eq!(Scalar::from_bits(v.to_bits()).to_bits(), v.to_bits());
    }
    assert_ne!(s(0.0), s(-0.0));
    assert_eq!(s(f32::NAN), s(f32::NAN));
}

#[test]
fn negative_agrees_with_the_order_of_numbers() {
    for v in samples() {
        assert_eq!(s(v).negative(), v < 0.0, "value {v} with bits {:#x}", v.to_bits());
    }
}

#[test]
fn non_positive_agrees_with_the_order_of_numbers() {
    for v in samples() {
        assert_eq!(s(v).non_positive(), v <= 0.0, "value {v} with bits {:#x}", v.to_bits());
    }
}

#[test]
fn words_are_written_least_significant_byte_first() {
    let mut out = vec![0xEE];
    put_word(&mut out, 0x0403_0201);
    assert_eq!(out, vec![0xEE, 1, 2, 3, 4]);
    put_word(&mut out, u32::MAX);
    put_word(&mut out, 0);
    assert_eq!(out, vec![0xEE, 1, 2, 3, 4, 255, 255, 255, 255, 0, 0, 0, 0]);
    for v in samples() {
        let mut image = Vec::new();
        put_word(&mut image, v.to_bits());
        assert_eq!(image, v.to_le_bytes());
        assert_eq!(get_word(&image, 0), v.to_bits());
    }
}

#[test]
fn words_are_read_where_they_stand() {
    let bytes = [9u8, 0x78, 0x56, 0x34, 0x12, 0xFF, 0xFF, 0xFF, 0xFF];
    assert_eq!(get_word(&bytes, 1), 0x1234_5678);
    assert_eq!(get_word(&bytes, 5), u32::MAX);
    assert_eq!(get_word(&bytes, 0), 0x3456_7809);
}

#[test]
fn padding_is_zeros() {
    let mut out = vec![7u8];
    put_padding(&mut out, 0);
    assert_eq!(out, vec![7]);
    put_padding(&mut out, 12);
    assert_eq!(out.len(), 13);
    assert!(out[1..].iter().all(|byte| *byte == 0));
}

#[test]
fn signed_numbers_are_written_as_twos_complement() {
    for v in [0i32, 1, -1, 2, -2, 255, -256, i32::MAX, i32::MIN, i32::MIN + 1, 0x1234_5678] {
        assert_eq!(to_word(v), v as u32);
        assert_eq!(to_word(v).to_le_bytes(), v.to_le_bytes());
        assert_eq!(from_word(to_word(v)), v);
    }
    for w in [0u32, 1, 0x7FFF_FFFF, 0x8000_0000, 0x8000_0001, u32::MAX, 0xDEAD_BEEF] {
        assert_eq!(from_word(w), w as i32);
        assert_eq!(to_word(from_word(w)), w);
    }
}

#[test]
fn vectors_are_written_component_by_component() {
    let mut out = Vec::new();
    Vec2::new(s(1.0), s(2.0)).put(&mut out);
    Vec3::new(s(3.0), s(4.0), s(5.0)).put(&mut out);
    Vec4::new(s(6.0), s(7.0), s(8.0), s(9.0)).put(&mut out);
    s(10.0).put(&mut out);
    let mut expected = Vec::new();
    for i in 1..=10 {
        expected.extend_from_slice(&(i as f32).to_le_bytes());
    }
    assert_eq!(out, expected);
    assert_eq!(Vec2::get(&out, 0), Vec2::new(s(1.0), s(2.0)));
    assert_eq!(Vec3::get(&out, 8), Vec3::new(s(3.0), s(4.0), s(5.0)));
    assert_eq!(Vec4::get(&out, 20), Vec4::new(s(6.0), s(7.0), s(8.0), s(9.0)));
    assert_eq!(Scalar::get(&out, 36), s(10.0));
    assert_eq!(Vec2::get(&out, 4), Vec2::new(s(2.0), s(3.0)));
}

#[test]
fn matrices_are_written_column_by_column() {
    let col = |base: f32| Vec4::new(s(base), s(base + 1.0), s(base + 2.0), s(base + 3.0));
    let matrix = Mat4::from_cols(col(0.0), col(4.0), col(8.0), col(12.0));
    let mut out = vec![0xAA, 0xBB];
    matrix.put(&mut out);
    assert_eq!(out.len(), 2 + 64);
    for i in 0..16 {
        assert_eq!(&out[2 + 4 * i..6 + 4 * i], &(i as f32).to_le_bytes());
    }
    assert_eq!(Mat4::get(&out, 2), matrix);
    assert_eq!(matrix.y_axis, col(4.0));
}

#[test]
fn zero_vectors_and_colour_channels() {
    assert_eq!(Vec2::zero(), Vec2::new(s(0.0), s(0.0)));
    assert_eq!(Vec2::default(), Vec2::zero());
    assert_eq!(Vec3::zero(), Vec3::new(s(0.0), s(0.0), s(0.0)));
    assert_eq!(Vec3::default(), Vec3::zero());
    let colour = Rgba::new(s(0.1), s(0.2), s(0.3), s(0.4));
    assert_eq!(colour.rgb(), Vec3::new(s(0.1), s(0.2), s(0.3)));
    assert_eq!(colour.alpha, s(0.4));
}

use gi_buffers::camera::GpuCameraParams;
use gi_buffers::error::BufferError;
use gi_buffers::pass::GpuLightPassParams;
use gi_buffers::record::decode_record;
use gi_buffers::record::encode_record;
use gi_buffers::scalar::Scalar;
use gi_buffers::vector::Mat4;
use gi_buffers::vector::Vec2;
use gi_buffers::vector::Vec3;
use gi_buffers::vector::Vec4;

fn s(v: f32) -> Scalar {
    Scalar::from_bits(v.to_bits())
}

fn f(v: Scalar) -> f32 {
    f32::from_bits(v.to_bits())
}

fn v2(x: f32, y: f32) -> Vec2 {
    Vec2::new(s(x), s(y))
}

fn recip(v: Vec2) -> Vec2 {
    v2(1.0 / f(v.x), 1.0 / f(v.y))
}

fn mat(cols: [[f32; 4]; 4]) -> Mat4 {
    let col = |c: [f32; 4]| Vec4::new(s(c[0]), s(c[1]), s(c[2]), s(c[3]));
    Mat4::from_cols(col(cols[0]), col(cols[1]), col(cols[2]), col(cols[3]))
}

fn scaling(x: f32, y: f32, z: f32) -> Mat4 {
    mat([[x, 0.0, 0.0, 0.0], [0.0, y, 0.0, 0.0], [0.0, 0.0, z, 0.0], [0.0, 0.0, 0.0, 1.0]])
}

#[test]
fn default_pass_parameters_are_the_documented_ones() {
    let params = GpuLightPassParams::default();
    assert_eq!(params.frame_counter, 0);
    assert_eq!(params.probe_size, 0);
    assert_eq!(params.probe_atlas_cols, 0);
    assert_eq!(params.probe_atlas_rows, 0);
    assert_eq!(params.reservoir_size, 8);
    assert_eq!(params.smooth_kernel_size_h, 2);
    assert_eq!(params.smooth_kernel_size_w, 1);
    assert_eq!(f(params.direct_light_contrib), 0.2);
    assert_eq!(f(params.indirect_light_contrib), 0.8);
}

#[test]
fn default_skylight_is_a_dim_tint() {
    let sky = GpuLightPassParams::default().skylight_color;
    assert_eq!(f(sky.x), 0.003f32 / 100.0);
    assert_eq!(f(sky.y), 0.0078f32 / 100.0);
    assert_eq!(f(sky.z), 0.058f32 / 100.0);
    for channel in [f(sky.x), f(sky.y), f(sky.z)] {
        assert!(channel > 1.0e-5 && channel < 1.0e-2);
    }
}

#[test]
fn default_pass_parameter_bits_are_exact() {
    let params = GpuLightPassParams::default();
    assert_eq!(params.skylight_color.x.to_bits(), 0x37FB_A883);
    assert_eq!(params.skylight_color.y.to_bits(), 0x38A3_93EE);
    assert_eq!(params.skylight_color.z.to_bits(), 0x3A18_0B24);
    assert_eq!(params.direct_light_contrib.to_bits(), 0x3E4C_CCCD);
    assert_eq!(params.indirect_light_contrib.to_bits(), 0x3F4C_CCCD);
}

#[test]
fn frame_counter_goes_up_by_one() {
    let mut params = GpuLightPassParams::default();
    let before = params;
    params.advance_frame();
    assert_eq!(params.frame_counter, 1);
    params.advance_frame();
    params.advance_frame();
    assert_eq!(params.frame_counter, 3);
    assert_eq!(params, GpuLightPassParams { frame_counter: 3, ..before });
}

#[test]
fn frame_counter_wraps_around() {
    let mut params = GpuLightPassParams { frame_counter: i32::MAX - 1, ..Default::default() };
    params.advance_frame();
    assert_eq!(params.frame_counter, i32::MAX);
    params.advance_frame();
    assert_eq!(params.frame_counter, i32::MIN);
    params.advance_frame();
    assert_eq!(params.frame_counter, i32::MIN + 1);
    let mut negative = GpuLightPassParams { frame_counter: -1, ..Default::default() };
    negative.advance_frame();
    assert_eq!(negative.frame_counter, 0);
}

#[test]
fn pass_parameter_image_has_fields_at_their_offsets() {
    let params = GpuLightPassParams {
        frame_counter: -2,
        probe_size: 16,
        probe_atlas_cols: 120,
        probe_atlas_rows: 68,
        skylight_color: Vec3::new(s(0.25), s(0.5), s(0.75)),
        reservoir_size: 8,
        smooth_kernel_size_h: 2,
        smooth_kernel_size_w: 1,
        direct_light_contrib: s(0.2),
        indirect_light_contrib: s(0.8),
    };
    let mut expected = Vec::new();
    expected.extend_from_slice(&(-2i32).to_le_bytes());
    expected.extend_from_slice(&16i32.to_le_bytes());
    expected.extend_from_slice(&120i32.to_le_bytes());
    expected.extend_from_slice(&68i32.to_le_bytes());
    expected.extend_from_slice(&0.25f32.to_le_bytes());
    expected.extend_from_slice(&0.5f32.to_le_bytes());
    expected.extend_from_slice(&0.75f32.to_le_bytes());
    expected.extend_from_slice(&8u32.to_le_bytes());
    expected.extend_from_slice(&2u32.to_le_bytes());
    expected.extend_from_slice(&1u32.to_le_bytes());
    expected.extend_from_slice(&0.2f32.to_le_bytes());
    expected.extend_from_slice(&0.8f32.to_le_bytes());
    let image = encode_record(&params);
    assert_eq!(image.len(), 48);
    assert_eq!(image, expected);
    assert_eq!(decode_record::<GpuLightPassParams>(&image), Ok(params));
}

#[test]
fn pass_parameters_survive_their_image_at_the_extremes() {
    for counter in [0, 1, -1, i32::MAX, i32::MIN, 0x1234_5678, -0x1234_5678] {
        let params = GpuLightPassParams {
            frame_counter: counter,
            probe_size: i32::MIN,
            probe_atlas_cols: i32::MAX,
            probe_atlas_rows: -counter.max(-i32::MAX),
            reservoir_size: u32::MAX,
            smooth_kernel_size_h: 0x8000_0000,
            smooth_kernel_size_w: 0xDEAD_BEEF,
            ..Default::default()
        };
        assert_eq!(decode_record::<GpuLightPassParams>(&encode_record(&params)), Ok(params));
    }
}

#[test]
fn pass_parameter_image_of_the_wrong_length_is_malformed() {
    assert_eq!(
        decode_record::<GpuLightPassParams>(&[0u8; 44]),
        Err(BufferError::MalformedImage)
    );
    assert_eq!(decode_record::<GpuLightPassParams>(&[]), Err(BufferError::MalformedImage));
}

#[test]
fn default_camera_parameters_are_zero_sizes_and_identity_matrices() {
    let params = GpuCameraParams::default();
    let identity = scaling(1.0, 1.0, 1.0);
    assert_eq!(params.screen_size, v2(0.0, 0.0));
    assert_eq!(params.screen_size_inv, v2(0.0, 0.0));
    assert_eq!(params.view_proj, identity);
    assert_eq!(params.inverse_view_proj, identity);
    assert_eq!(params.sdf_scale, v2(0.0, 0.0));
    assert_eq!(params.inv_sdf_scale, v2(0.0, 0.0));
    assert_eq!(Mat4::identity(), identity);
    assert_eq!(Mat4::default(), identity);
}

#[test]
fn camera_parameters_keep_their_parts() {
    let screen = v2(1280.0, 720.0);
    let scale = v2(0.5, 0.25);
    let view_proj = scaling(2.0, 4.0, 0.5);
    let inverse = scaling(0.5, 0.25, 2.0);
    let params = GpuCameraParams::new(screen, recip(screen), view_proj, inverse, scale, recip(scale));
    assert_eq!(params.screen_size, screen);
    assert_eq!(f(params.screen_size_inv.x), 1.0 / 1280.0);
    assert_eq!(f(params.screen_size_inv.y), 1.0 / 720.0);
    assert_eq!(params.view_proj, view_proj);
    assert_eq!(params.inverse_view_proj, inverse);
    assert_eq!(params.sdf_scale, scale);
    assert_eq!(params.inv_sdf_scale, v2(2.0, 4.0));
}

#[test]
fn camera_parameters_hold_exact_reciprocals() {
    let sizes: [(f32, f32); 9] = [
        (1280.0, 720.0),
        (1920.0, 1080.0),
        (3840.0, 2160.0),
        (1.0, 1.0),
        (0.5, 3.0),
        (1366.0, 768.0),
        (7.0, 1.0e-3),
        (1.0e30, 1.0e-30),
        (-640.0, 360.5),
    ];
    for (x, y) in sizes {
        let params =
            GpuCameraParams::from_view(v2(x, y), scaling(1.0, 1.0, 1.0), scaling(1.0, 1.0, 1.0), v2(y, x));
        assert_eq!(params.screen_size, v2(x, y));
        assert_eq!(params.screen_size_inv, v2(1.0 / x, 1.0 / y));
        assert_eq!(params.sdf_scale, v2(y, x));
        assert_eq!(params.inv_sdf_scale, v2(1.0 / y, 1.0 / x));
    }
}

#[test]
fn camera_parameters_keep_the_matrices_they_are_given() {
    let view_proj = scaling(2.0, 4.0, 0.5);
    let inverse = scaling(0.5, 0.25, 2.0);
    let params = GpuCameraParams::from_view(v2(800.0, 600.0), view_proj, inverse, v2(1.0, 1.0));
    assert_eq!(params.view_proj, view_proj);
    assert_eq!(params.inverse_view_proj, inverse);
    assert_eq!(
        params,
        GpuCameraParams::new(
            v2(800.0, 600.0),
            v2(1.0 / 800.0, 1.0 / 600.0),
            view_proj,
            inverse,
            v2(1.0, 1.0),
            v2(1.0, 1.0),
        )
    );
}

#[test]
fn a_screen_without_extent_has_an_infinite_reciprocal() {
    let identity = scaling(1.0, 1.0, 1.0);
    let params = GpuCameraParams::from_view(v2(0.0, -0.0), identity, identity, v2(f32::INFINITY, 1.0));
    assert_eq!(params.screen_size_inv, v2(f32::INFINITY, f32::NEG_INFINITY));
    assert_eq!(params.inv_sdf_scale, v2(0.0, 1.0));
}

#[test]
fn camera_parameter_image_has_fields_at_their_offsets() {
    let screen = v2(1920.0, 1080.0);
    let scale = v2(2.0, 8.0);
    let view_proj = mat([
        [1.0, 2.0, 3.0, 4.0],
        [5.0, 6.0, 7.0, 8.0],
        [9.0, 10.0, 11.0, 12.0],
        [13.0, 14.0, 15.0, 16.0],
    ]);
    let inverse = mat([
        [-1.0, -2.0, -3.0, -4.0],
        [-5.0, -6.0, -7.0, -8.0],
        [-9.0, -10.0, -11.0, -12.0],
        [-13.0, -14.0, -15.0, -16.0],
    ]);
    let params = GpuCameraParams::new(screen, recip(screen), view_proj, inverse, scale, recip(scale));
    let image = encode_record(&params);
    assert_eq!(image.len(), 160);
    assert_eq!(&image[0..4], &1920.0f32.to_le_bytes());
    assert_eq!(&image[4..8], &1080.0f32.to_le_bytes());
    assert_eq!(&image[8..12], &(1.0f32 / 1920.0).to_le_bytes());
    assert_eq!(&image[12..16], &(1.0f32 / 1080.0).to_le_bytes());
    for i in 0..16 {
        let at = 16 + 4 * i;
        assert_eq!(&image[at..at + 4], &((i + 1) as f32).to_le_bytes());
        let at = 80 + 4 * i;
        assert_eq!(&image[at..at + 4], &(-((i + 1) as f32)).to_le_bytes());
    }
    assert_eq!(&image[144..148], &2.0f32.to_le_bytes());
    assert_eq!(&image[148..152], &8.0f32.to_le_bytes());
    assert_eq!(&image[152..156], &0.5f32.to_le_bytes());
    assert_eq!(&image[156..160], &0.125f32.to_le_bytes());
    assert_eq!(decode_record::<GpuCameraParams>(&image), Ok(params));
}

#[test]
fn camera_parameter_image_of_the_wrong_length_is_malformed() {
    assert_eq!(decode_record::<GpuCameraParams>(&[0u8; 159]), Err(BufferError::MalformedImage));
    assert_eq!(decode_record::<GpuCameraParams>(&[0u8; 161]), Err(BufferError::MalformedImage));
}

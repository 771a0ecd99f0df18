use bevy::math::Mat4 as DeviceMat4;
use bevy::math::Vec2 as DeviceVec2;
use bevy::math::Vec3 as DeviceVec3;
use bevy::math::Vec4 as DeviceVec4;
use bevy::render::color::Color;
use bevy::render::render_resource::encase::private::AlignmentValue;
use bevy::render::render_resource::encase::StorageBuffer;
use bevy::render::render_resource::encase::UniformBuffer;
use bevy::render::render_resource::ShaderType;
use gi_buffers::aabb;
use gi_buffers::camera;
use gi_buffers::light;
use gi_buffers::pass;
use gi_buffers::probe;
use gi_buffers::scalar::SCALAR_ALIGN;
use gi_buffers::scalar::SCALAR_SIZE;
use gi_buffers::vector::MAT4_ALIGN;
use gi_buffers::vector::MAT4_SIZE;
use gi_buffers::vector::VEC2_ALIGN;
use gi_buffers::vector::VEC2_SIZE;
use gi_buffers::vector::VEC3_ALIGN;
use gi_buffers::vector::VEC3_SIZE;
use gi_buffers::vector::VEC4_ALIGN;
use gi_buffers::vector::VEC4_SIZE;
use gi_buffers::light::GpuOmniLightSource;
use gi_buffers::light::OmniLightSource2D;
use gi_buffers::pass::GpuLightPassParams;
use gi_buffers::probe::GpuProbeDataBuffer;
use gi_buffers::camera::GpuCameraParams;
use gi_buffers::scalar::Scalar;
use gi_buffers::vector::Mat4;
use gi_buffers::vector::Rgba;
use gi_buffers::vector::Vec2;
use gi_buffers::vector::Vec3;
use gi_buffers::vector::Vec4;

fn s(v: f32) -> Scalar {
    Scalar::from_bits(v.to_bits())
}

fn vec2(v: DeviceVec2) -> Vec2 {
    Vec2::new(s(v.x), s(v.y))
}

fn vec3(v: DeviceVec3) -> Vec3 {
    Vec3::new(s(v.x), s(v.y), s(v.z))
}

fn vec4(v: DeviceVec4) -> Vec4 {
    Vec4::new(s(v.x), s(v.y), s(v.z), s(v.w))
}

fn mat4(m: DeviceMat4) -> Mat4 {
    Mat4::from_cols(vec4(m.x_axis), vec4(m.y_axis), vec4(m.z_axis), vec4(m.w_axis))
}

fn shape<T: ShaderType>() -> (u64, u64) {
    (T::METADATA.alignment().get(), T::min_size().get())
}

/// Offsets, alignment and size of a structure whose fields have the given
/// alignments and sizes.
fn structure(fields: &[(u64, u64)]) -> (Vec<u64>, u64, u64) {
    let mut offsets = Vec::new();
    let mut end = 0;
    let mut widest = 1;
    for (align, size) in fields {
        let at = AlignmentValue::new(*align).round_up(end);
        offsets.push(at);
        end = at + size;
        widest = widest.max(*align);
    }
    (offsets, widest, AlignmentValue::new(widest).round_up(end))
}

#[test]
fn sizes_and_alignments_are_those_of_the_device_library() {
    assert_eq!(shape::<f32>(), (SCALAR_ALIGN as u64, SCALAR_SIZE as u64));
    assert_eq!(shape::<u32>(), (4, 4));
    assert_eq!(shape::<i32>(), (4, 4));
    assert_eq!(shape::<DeviceVec2>(), (VEC2_ALIGN as u64, VEC2_SIZE as u64));
    assert_eq!(shape::<DeviceVec3>(), (VEC3_ALIGN as u64, VEC3_SIZE as u64));
    assert_eq!(shape::<DeviceVec4>(), (VEC4_ALIGN as u64, VEC4_SIZE as u64));
    assert_eq!(shape::<DeviceMat4>(), (MAT4_ALIGN as u64, MAT4_SIZE as u64));
}

#[test]
fn record_offsets_follow_the_alignments_of_the_device_library() {
    let word = shape::<u32>();
    let number = shape::<f32>();
    let two = shape::<DeviceVec2>();
    let three = shape::<DeviceVec3>();
    let matrix = shape::<DeviceMat4>();

    let (offsets, align, size) = structure(&[two, number, three, three]);
    assert_eq!(offsets, vec![
        light::LIGHT_CENTER_OFFSET as u64,
        light::LIGHT_INTENSITY_OFFSET as u64,
        light::LIGHT_COLOR_OFFSET as u64,
        light::LIGHT_FALLOFF_OFFSET as u64,
    ]);
    assert_eq!((align, size), (light::LIGHT_ALIGN as u64, light::LIGHT_STRIDE as u64));

    let (offsets, align, size) = structure(&[two, two]);
    assert_eq!(offsets, vec![aabb::BOX_CENTER_OFFSET as u64, aabb::BOX_EXTENT_OFFSET as u64]);
    assert_eq!((align, size), (aabb::BOX_ALIGN as u64, aabb::BOX_STRIDE as u64));

    let (offsets, align, size) = structure(&[two]);
    assert_eq!(offsets, vec![0]);
    assert_eq!((align, size), (probe::PROBE_ALIGN as u64, probe::PROBE_STRIDE as u64));

    let (offsets, align, size) = structure(&[two, two, matrix, matrix, two, two]);
    assert_eq!(offsets, vec![
        camera::CAMERA_SCREEN_SIZE_OFFSET as u64,
        camera::CAMERA_SCREEN_SIZE_INV_OFFSET as u64,
        camera::CAMERA_VIEW_PROJ_OFFSET as u64,
        camera::CAMERA_INVERSE_VIEW_PROJ_OFFSET as u64,
        camera::CAMERA_SDF_SCALE_OFFSET as u64,
        camera::CAMERA_INV_SDF_SCALE_OFFSET as u64,
    ]);
    assert_eq!((align, size), (camera::CAMERA_ALIGN as u64, camera::CAMERA_STRIDE as u64));

    let (offsets, align, size) =
        structure(&[word, word, word, word, three, word, word, word, number, number]);
    assert_eq!(offsets, vec![
        pass::PASS_FRAME_COUNTER_OFFSET as u64,
        pass::PASS_PROBE_SIZE_OFFSET as u64,
        pass::PASS_PROBE_ATLAS_COLS_OFFSET as u64,
        pass::PASS_PROBE_ATLAS_ROWS_OFFSET as u64,
        pass::PASS_SKYLIGHT_COLOR_OFFSET as u64,
        pass::PASS_RESERVOIR_SIZE_OFFSET as u64,
        pass::PASS_SMOOTH_KERNEL_SIZE_H_OFFSET as u64,
        pass::PASS_SMOOTH_KERNEL_SIZE_W_OFFSET as u64,
        pass::PASS_DIRECT_LIGHT_CONTRIB_OFFSET as u64,
        pass::PASS_INDIRECT_LIGHT_CONTRIB_OFFSET as u64,
    ]);
    assert_eq!((align, size), (pass::PASS_ALIGN as u64, pass::PASS_STRIDE as u64));
}

#[test]
fn vectors_lie_as_the_device_library_writes_them() {
    let two = DeviceVec2::new(1.5, -2.25);
    let three = DeviceVec3::new(0.1, 0.2, 0.3);
    let four = DeviceVec4::new(-1.0, 1.0e-3, 1.0e3, f32::MAX);

    let mut device = StorageBuffer::new(Vec::new());
    device.write(&two).unwrap();
    let mut ours = Vec::new();
    vec2(two).put(&mut ours);
    assert_eq!(ours, device.into_inner());

    let mut device = StorageBuffer::new(Vec::new());
    device.write(&three).unwrap();
    let mut ours = Vec::new();
    vec3(three).put(&mut ours);
    assert_eq!(ours, device.into_inner());

    let mut device = StorageBuffer::new(Vec::new());
    device.write(&four).unwrap();
    let mut ours = Vec::new();
    vec4(four).put(&mut ours);
    assert_eq!(ours, device.into_inner());
}

#[test]
fn matrices_lie_as_the_device_library_writes_them() {
    let matrix = DeviceMat4::from_cols_array(&[
        1.0, 2.0, 3.0, 4.0, 5.0, 6.0, 7.0, 8.0, 9.0, 10.0, 11.0, 12.0, 13.0, 14.0, 15.0, 16.0,
    ]);
    let mut device = UniformBuffer::new(Vec::new());
    device.write(&matrix).unwrap();
    let mut ours = Vec::new();
    mat4(matrix).put(&mut ours);
    assert_eq!(ours, device.into_inner());
    assert_eq!(mat4(DeviceMat4::IDENTITY), Mat4::identity());
    assert_eq!(mat4(DeviceMat4::default()), Mat4::default());
    assert_eq!(vec2(DeviceVec2::ZERO), Vec2::zero());
    assert_eq!(vec2(DeviceVec2::default()), Vec2::default());
    assert_eq!(vec3(DeviceVec3::default()), Vec3::default());
}

#[test]
fn probes_lie_as_an_array_of_the_device_library() {
    let poses: Vec<DeviceVec2> =
        (0..12).map(|i| DeviceVec2::new(i as f32 * 16.0, 100.0 - i as f32)).collect();
    let mut grid = GpuProbeDataBuffer::with_grid(4, 3).unwrap();
    for (index, pose) in poses.iter().enumerate() {
        grid.set_pose(index, vec2(*pose)).unwrap();
    }
    let mut device = StorageBuffer::new(Vec::new());
    device.write(&poses).unwrap();
    let image = grid.encode();
    assert_eq!(&image[8..], device.into_inner().as_slice());
}

#[test]
fn an_empty_array_keeps_room_for_one_record_on_the_device_too() {
    let none: Vec<DeviceVec2> = Vec::new();
    let mut device = StorageBuffer::new(Vec::new());
    device.write(&none).unwrap();
    let grid = GpuProbeDataBuffer::with_grid(0, 0).unwrap();
    let image = grid.encode();
    assert_eq!(&image[8..], device.into_inner().as_slice());
}

#[test]
fn a_red_half_transparent_light_packs_to_red() {
    let colour = Color::rgba(1.0, 0.0, 0.0, 0.5).as_rgba_f32();
    let light = OmniLightSource2D {
        position: vec2(DeviceVec2::new(2.0, 3.0)),
        intensity: s(1.0),
        color: Rgba::new(s(colour[0]), s(colour[1]), s(colour[2]), s(colour[3])),
        falloff: vec3(DeviceVec3::new(1.0, 0.0, 0.0)),
    };
    let record = GpuOmniLightSource::new(light, vec2(DeviceVec2::new(2.0, 3.0)));
    assert_eq!(record.center, vec2(DeviceVec2::new(2.0, 3.0)));
    assert_eq!(record.intensity, s(1.0));
    assert_eq!(record.color, vec3(DeviceVec3::new(1.0, 0.0, 0.0)));
    assert_eq!(record.falloff, vec3(DeviceVec3::new(1.0, 0.0, 0.0)));
}

#[test]
fn default_skylight_is_the_tint_divided_by_a_hundred() {
    let tint = DeviceVec3::new(0.003, 0.0078, 0.058) / 100.0;
    assert_eq!(GpuLightPassParams::default().skylight_color, vec3(tint));
}

#[test]
fn camera_block_holds_reciprocals_and_the_inverse() {
    let screen = DeviceVec2::new(1280.0, 720.0);
    let scale = DeviceVec2::new(0.5, 3.0);
    let view_proj = DeviceMat4::orthographic_rh(-640.0, 640.0, -360.0, 360.0, 0.0, 1000.0);
    let inverse = view_proj.inverse();
    let params =
        GpuCameraParams::from_view(vec2(screen), mat4(view_proj), mat4(inverse), vec2(scale));
    assert_eq!(params.screen_size_inv, vec2(screen.recip()));
    assert_eq!(params.inv_sdf_scale, vec2(scale.recip()));
    assert_eq!(vec2(screen).recip(), vec2(screen.recip()));
    assert_eq!(params.screen_size_inv, vec2(DeviceVec2::new(1.0 / 1280.0, 1.0 / 720.0)));
    assert_eq!(params.inv_sdf_scale, vec2(DeviceVec2::new(1.0 / 0.5, 1.0 / 3.0)));
    let product = inverse * view_proj;
    assert!(product.abs_diff_eq(DeviceMat4::IDENTITY, 1.0e-5));
    assert_eq!(params.inverse_view_proj, mat4(inverse));
}

use gi_buffers::error::BufferError;
use gi_buffers::probe::GpuProbeData;
use gi_buffers::probe::GpuProbeDataBuffer;
use gi_buffers::probe::GI_SCREEN_PROBE_SIZE;
use gi_buffers::record::decode_record;
use gi_buffers::record::encode_record;
use gi_buffers::scalar::Scalar;
use gi_buffers::vector::Vec2;

fn v(x: f32, y: f32) -> Vec2 {
    Vec2::new(Scalar::from_bits(x.to_bits()), Scalar::from_bits(y.to_bits()))
}

#[test]
fn eight_by_eight_grid_has_sixty_four_probes_at_the_origin() {
    let grid = GpuProbeDataBuffer::with_grid(8, 8).unwrap();
    assert_eq!(grid.capacity(), 64);
    assert_eq!(grid.count(), 64);
    assert_eq!(grid.records().len(), 64);
    for probe in grid.records() {
        assert_eq!(probe.camera_pose, v(0.0, 0.0));
        assert_eq!(f32::from_bits(probe.camera_pose.x.to_bits()), 0.0);
        assert_eq!(f32::from_bits(probe.camera_pose.y.to_bits()), 0.0);
    }
}

#[test]
fn default_grid_is_the_configured_square() {
    let grid = GpuProbeDataBuffer::default();
    assert_eq!(GI_SCREEN_PROBE_SIZE, 8);
    assert_eq!(grid.width(), GI_SCREEN_PROBE_SIZE);
    assert_eq!(grid.height(), GI_SCREEN_PROBE_SIZE);
    assert_eq!(grid.capacity(), GI_SCREEN_PROBE_SIZE * GI_SCREEN_PROBE_SIZE);
    assert_eq!(grid.count(), grid.capacity());
    assert!(grid.records().iter().all(|probe| *probe == GpuProbeData::default()));
    assert_eq!(grid, GpuProbeDataBuffer::with_grid(8, 8).unwrap());
}

#[test]
fn default_probe_is_at_the_origin() {
    assert_eq!(GpuProbeData::default().camera_pose, v(0.0, 0.0));
    assert_eq!(GpuProbeData::default().camera_pose, Vec2::zero());
}

#[test]
fn capacity_is_width_times_height() {
    for (width, height) in [(1u32, 1u32), (1, 7), (7, 1), (3, 5), (16, 9), (240, 135), (0, 4), (4, 0)]
    {
        let grid = GpuProbeDataBuffer::with_grid(width, height).unwrap();
        assert_eq!(grid.width(), width);
        assert_eq!(grid.height(), height);
        assert_eq!(grid.capacity(), width * height);
        assert_eq!(grid.count(), width * height);
        assert_eq!(grid.records().len() as u32, width * height);
        assert!(grid.records().iter().all(|probe| probe.camera_pose == v(0.0, 0.0)));
    }
}

#[test]
fn a_grid_beyond_the_limit_is_refused() {
    let too_many = Err(BufferError::TooManyElements);
    assert_eq!(GpuProbeDataBuffer::with_grid(4096, 4096), too_many);
    assert_eq!(GpuProbeDataBuffer::with_grid(65536, 65536), too_many);
    assert_eq!(GpuProbeDataBuffer::with_grid(u32::MAX, u32::MAX), too_many);
    assert_eq!(GpuProbeDataBuffer::with_grid(u32::MAX, 1), too_many);
    assert_eq!(GpuProbeDataBuffer::with_grid(1, 16_777_216), too_many);
}

#[test]
fn the_largest_grid_fills_the_limit() {
    let grid = GpuProbeDataBuffer::with_grid(4095, 4097).unwrap();
    assert_eq!(grid.capacity(), 16_777_215);
    assert_eq!(grid.byte_len(), 128 * 1024 * 1024);
}

#[test]
fn a_pose_is_set_and_the_rest_stays() {
    let mut grid = GpuProbeDataBuffer::with_grid(4, 3).unwrap();
    assert_eq!(grid.set_pose(5, v(12.0, -8.0)), Ok(()));
    assert_eq!(grid.pose(5), Some(v(12.0, -8.0)));
    assert_eq!(grid.width(), 4);
    assert_eq!(grid.height(), 3);
    assert_eq!(grid.count(), 12);
    for index in 0..12 {
        if index != 5 {
            assert_eq!(grid.pose(index), Some(v(0.0, 0.0)));
        }
    }
    assert_eq!(grid.set_pose(5, v(1.0, 1.0)), Ok(()));
    assert_eq!(grid.pose(5), Some(v(1.0, 1.0)));
}

#[test]
fn there_is_no_probe_beyond_the_grid() {
    let mut grid = GpuProbeDataBuffer::with_grid(4, 3).unwrap();
    let before = grid.clone();
    assert_eq!(grid.pose(12), None);
    assert_eq!(grid.set_pose(12, v(1.0, 1.0)), Err(BufferError::OutOfRange { index: 12 }));
    assert_eq!(grid.set_pose(usize::MAX, v(1.0, 1.0)), Err(BufferError::OutOfRange {
        index: usize::MAX,
    }));
    assert_eq!(grid, before);
    let mut none = GpuProbeDataBuffer::with_grid(0, 9).unwrap();
    assert_eq!(none.set_pose(0, v(1.0, 1.0)), Err(BufferError::OutOfRange { index: 0 }));
}

#[test]
fn probe_image_is_its_pose() {
    let probe = GpuProbeData { camera_pose: v(0.5, -0.25) };
    let mut expected = Vec::new();
    expected.extend_from_slice(&0.5f32.to_le_bytes());
    expected.extend_from_slice(&(-0.25f32).to_le_bytes());
    assert_eq!(encode_record(&probe), expected);
    assert_eq!(decode_record::<GpuProbeData>(&expected), Ok(probe));
}

#[test]
fn grid_image_is_count_padding_and_poses() {
    let mut grid = GpuProbeDataBuffer::with_grid(2, 2).unwrap();
    grid.set_pose(0, v(1.0, 2.0)).unwrap();
    grid.set_pose(3, v(-3.0, 4.0)).unwrap();
    let mut expected = Vec::new();
    expected.extend_from_slice(&4u32.to_le_bytes());
    expected.extend_from_slice(&[0u8; 4]);
    for value in [1.0f32, 2.0, 0.0, 0.0, 0.0, 0.0, -3.0, 4.0] {
        expected.extend_from_slice(&value.to_le_bytes());
    }
    assert_eq!(grid.byte_len(), 8 + 4 * 8);
    assert_eq!(grid.encode(), expected);
}

#[test]
fn default_grid_image_is_the_count_and_zeros() {
    let image = GpuProbeDataBuffer::default().encode();
    assert_eq!(image.len(), 8 + 64 * 8);
    assert_eq!(&image[0..4], &64u32.to_le_bytes());
    assert!(image[4..].iter().all(|byte| *byte == 0));
}

#[test]
fn a_grid_without_probes_still_has_room_for_one() {
    let grid = GpuProbeDataBuffer::with_grid(0, 0).unwrap();
    assert_eq!(grid.count(), 0);
    assert_eq!(grid.encode(), vec![0u8; 16]);
}

use raymarcher::camera::Camera;
use raymarcher::fx::SCALE;
use raymarcher::utils::{unpack, ComputeUniforms};
use raymarcher::vec3::Vec3Fixed;

fn sample() -> ComputeUniforms {
    ComputeUniforms::new(
        Camera::new(
            Vec3Fixed::new(SCALE, 0, -SCALE),
            Vec3Fixed::new(0, 0, 0),
            3 * SCALE / 2,
        ),
        2 * SCALE,
    )
}

#[test]
fn packed_layout_is_exact() {
    let bytes = sample().pack();
    let expected: Vec<u8> = vec![
        0, 0, 1, 0, // eye.x = 1.0
        0, 0, 0, 0, // eye.y = 0
        0, 0, 255, 255, // eye.z = -1.0, two's complement
        0, 128, 1, 0, // fov = 1.5
        0, 0, 0, 0, // target.x
        0, 0, 0, 0, // target.y
        0, 0, 0, 0, // target.z
        0, 0, 0, 0, // padding
        0, 0, 2, 0, // time = 2.0
        0, 0, 0, 0, // padding
        0, 0, 0, 0, // padding
        0, 0, 0, 0, // padding
    ];
    assert_eq!(bytes, expected);
}

#[test]
fn packed_buffer_is_48_bytes() {
    assert_eq!(sample().pack().len(), 48);
}

#[test]
fn pack_upload_readback_round_trips() {
    // upload writes the packed bytes at offset zero; the mocked GPU
    // hands the same bytes back, and they decode to the same record.
    let u = sample();
    let packed = u.pack();
    let mut gpu_buffer = vec![0u8; 48];
    gpu_buffer[..].copy_from_slice(&packed);
    let read_back = gpu_buffer.clone();
    assert_eq!(read_back, packed);
    let decoded = unpack(&read_back).unwrap();
    assert_eq!(decoded, u);
}

#[test]
fn unpack_rejects_wrong_length() {
    assert!(unpack(&vec![0u8; 47]).is_none());
    assert!(unpack(&vec![0u8; 49]).is_none());
}

#[test]
fn update_time_touches_only_time() {
    let mut u = sample();
    u.update_time(7 * SCALE);
    assert_eq!(u.time, 7 * SCALE);
    assert_eq!(u.camera, sample().camera);
}

#[test]
fn update_camera_touches_only_camera() {
    let mut u = sample();
    let cam = Camera::default();
    u.update_camera(cam);
    assert_eq!(u.camera, cam);
    assert_eq!(u.time, 2 * SCALE);
}

#[test]
fn default_uniforms_pack_round_trips() {
    let u = ComputeUniforms::default();
    assert_eq!(u.time, 0);
    let decoded = unpack(&u.pack()).unwrap();
    assert_eq!(decoded, u);
}

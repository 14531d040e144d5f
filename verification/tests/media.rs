use momo::moq::media::{
    bgra_to_i420_planes, convert_device_frame, copy_plane, nv12_to_i420_planes, yuy2_to_i420_planes,
    DeviceFrame, DevicePixelFormat,
};

#[test]
fn test_nv12_to_i420_planes() {
    let uv = [1u8, 2, 3, 4];
    let (u, v) = nv12_to_i420_planes(&uv, 4, 4, 2);
    assert_eq!(u, vec![1, 3]);
    assert_eq!(v, vec![2, 4]);
}

#[test]
fn test_yuy2_to_i420_planes() {
    let data = [
        10, 100, 11, 110, 12, 101, 13, 111, //
        20, 102, 21, 112, 22, 103, 23, 113,
    ];
    let (y, u, v) = yuy2_to_i420_planes(&data, 8, 4, 2);
    assert_eq!(y, vec![10, 11, 12, 13, 20, 21, 22, 23]);
    assert_eq!(u, vec![100, 101]);
    assert_eq!(v, vec![110, 111]);
}

#[test]
fn test_bgra_to_i420_planes() {
    let bgra = [255u8; 16];
    let (y, u, v) = bgra_to_i420_planes(&bgra, 2, 2);
    assert_eq!(y.len(), 4);
    assert_eq!(u.len(), 1);
    assert_eq!(v.len(), 1);
    assert!(y.iter().all(|value| *value > 200));
}

#[test]
fn media_test_copy_plane() {
    let src = [1u8, 2, 99, 3, 4, 99];
    let mut dst = [0u8; 4];
    copy_plane(&src, 3, &mut dst, 2, 2, 2);
    assert_eq!(dst, [1, 2, 3, 4]);
}

// Own cases.

#[test]
fn copy_plane_stops_at_first_row_that_does_not_fit() {
    let src = [1u8, 2, 3, 4, 5];
    let mut dst = [7u8; 6];
    copy_plane(&src, 3, &mut dst, 2, 2, 3);
    assert_eq!(dst, [1, 2, 4, 5, 7, 7]);
}

#[test]
fn nv12_missing_pairs_leave_zero() {
    let uv = [1u8, 2, 3];
    let (u, v) = nv12_to_i420_planes(&uv, 4, 4, 4);
    assert_eq!(u, vec![1, 0, 0, 0]);
    assert_eq!(v, vec![2, 0, 0, 0]);
}

#[test]
fn yuy2_odd_width_carries_into_next_row() {
    // 3 pixels wide: two macropixels per row, the second luma of the last one lands on
    // the first pixel of the next row until that row overwrites it.
    let data = [
        10, 100, 11, 110, 12, 101, 13, 111, //
        20, 102, 21, 112, 22, 103, 23, 113,
    ];
    let (y, u, v) = yuy2_to_i420_planes(&data, 8, 3, 2);
    assert_eq!(y, vec![10, 11, 12, 20, 21, 22]);
    assert_eq!(u, vec![100, 101]);
    assert_eq!(v, vec![110, 111]);

    // Second row missing: the carried luma stays.
    let (y, _, _) = yuy2_to_i420_planes(&data[..8], 8, 3, 2);
    assert_eq!(y, vec![10, 11, 12, 13, 0, 0]);
}

#[test]
fn bgra_colours_follow_bt601() {
    // Pure blue, green and red pixels (B, G, R, A), 2x2 so chroma comes from the first.
    let blue = [255u8, 0, 0, 255];
    let mut image = Vec::new();
    for _ in 0..4 {
        image.extend_from_slice(&blue);
    }
    let (y, u, v) = bgra_to_i420_planes(&image, 2, 2);
    assert_eq!(y, vec![40, 40, 40, 40]);
    assert_eq!(u, vec![239]);
    assert_eq!(v, vec![110]);

    let black = [0u8; 16];
    let (y, u, v) = bgra_to_i420_planes(&black, 2, 2);
    assert_eq!(y, vec![16; 4]);
    assert_eq!(u, vec![128]);
    assert_eq!(v, vec![128]);

    let (y, _, _) = bgra_to_i420_planes(&black[..6], 2, 2);
    assert_eq!(y, vec![16, 0, 0, 0]);
}

fn frame<'a>(format: DevicePixelFormat, data: &'a [u8], uv: Option<&'a [u8]>, w: i32, h: i32, s: i32, suv: i32) -> DeviceFrame<'a> {
    DeviceFrame { data, uv_data: uv, width: w, height: h, stride: s, stride_uv: suv, pixel_format: format, timestamp_us: 42 }
}

#[test]
fn device_frames_are_converted() {
    let y = [1u8, 2, 3, 4];
    let uv_i420 = [5u8, 6];
    let f = convert_device_frame(&frame(DevicePixelFormat::I420, &y, Some(&uv_i420), 2, 2, 2, 1)).unwrap();
    assert_eq!((f.y.as_slice(), f.u.as_slice(), f.v.as_slice()), (&[1u8, 2, 3, 4][..], &[5u8][..], &[6u8][..]));
    assert_eq!((f.width, f.height, f.timestamp_us), (2, 2, 42));

    let uv_nv12 = [7u8, 8];
    let f = convert_device_frame(&frame(DevicePixelFormat::Nv12, &y, Some(&uv_nv12), 2, 2, 2, 2)).unwrap();
    assert_eq!((f.u, f.v), (vec![7], vec![8]));

    let yuy2 = [10u8, 100, 11, 110, 20, 101, 21, 111];
    let f = convert_device_frame(&frame(DevicePixelFormat::Yuy2, &yuy2, None, 2, 2, 4, 0)).unwrap();
    assert_eq!((f.y, f.u, f.v), (vec![10, 11, 20, 21], vec![100], vec![110]));
}

#[test]
fn device_frames_that_are_not_converted() {
    let y = [1u8, 2, 3, 4];
    assert!(convert_device_frame(&frame(DevicePixelFormat::Mjpeg, &y, None, 2, 2, 0, 0)).is_none());
    assert!(convert_device_frame(&frame(DevicePixelFormat::Unknown(7), &y, None, 2, 2, 2, 0)).is_none());
    assert!(convert_device_frame(&frame(DevicePixelFormat::I420, &y, None, 2, 2, 2, 1)).is_none());
    assert!(convert_device_frame(&frame(DevicePixelFormat::I420, &y, Some(&[5u8]), 2, 2, 2, 1)).is_none());
    assert!(convert_device_frame(&frame(DevicePixelFormat::Nv12, &y, Some(&[5u8]), 2, 2, 3, 2)).is_none());
    assert!(convert_device_frame(&frame(DevicePixelFormat::Yuy2, &y, None, 2, 2, 4, 0)).is_none());
    assert!(convert_device_frame(&frame(DevicePixelFormat::Yuy2, &y, None, 0, 2, 4, 0)).is_none());
}

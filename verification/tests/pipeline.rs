use edgemap::buffer::ImBuffer;
use edgemap::error::ImageError;
use edgemap::pixel::{Bits, Dims, RGBPixel};
use edgemap::text::{parse_header, prelude, prelude_gray, RasterKind};

#[test]
fn test_print_prelude() {
    let expected = "P3\n\
        1024 1024\n\
        255\n"
        .to_string();
    assert_eq!(prelude(1024, 1024, 255), expected);
}

#[test]
fn test_prelude_gray() {
    assert_eq!(prelude_gray(4, 3, 255), "P2\n4 3\n255\n".to_string());
}

#[test]
fn test_dims_accessors() {
    let mut d = Dims::new(10, 20, 255);
    assert_eq!(d.width(), 10);
    assert_eq!(d.height(), 20);
    d.set_width(11);
    d.set_height(21);
    assert_eq!(d.width(), 11);
    assert_eq!(d.height(), 21);
}

#[test]
fn test_rgbpixel_new() {
    let mut p = RGBPixel::new(&[1, 2, 3, 9]);
    assert_eq!(p.red, 1);
    assert_eq!(p.green, 2);
    assert_eq!(p.blue, 3);
    assert_eq!(p.alpha, 0);
    let q = p;
    p.clamp();
    assert_eq!(p, q);
}

#[test]
fn test_bits_value() {
    assert_eq!(Bits::Eight.value(), 255);
    assert_eq!(Bits::Sixteen.value(), 65535);
}

#[test]
fn test_construct_not_multiple_of_three() {
    let r = ImBuffer::construct(vec![1, 2, 3, 4], 1, 1);
    assert!(matches!(r, Err(ImageError::MalformedInput)));
}

#[test]
fn test_construct_wrong_pixel_count() {
    let r = ImBuffer::construct(vec![1, 2, 3, 4, 5, 6], 1, 1);
    assert!(matches!(r, Err(ImageError::MalformedInput)));
}

#[test]
fn test_construct_ok() {
    let b = ImBuffer::construct(vec![9, 8, 7, 6, 5, 4], 2, 1).unwrap();
    assert_eq!(b.dims.cols, 2);
    assert_eq!(b.dims.rows, 1);
    assert_eq!(b.dims.max, 255);
    assert_eq!(b.buffer.len(), 2);
    assert_eq!(b.buffer[0], RGBPixel::new(&[9, 8, 7]));
    assert_eq!(b.buffer[1], RGBPixel::new(&[6, 5, 4]));
}

#[test]
fn test_grayscale_formula() {
    // floor((299 r + 587 g + 144 b) / 1000) for a few exact points.
    let b = ImBuffer::construct(vec![10, 20, 30, 0, 0, 255, 100, 50, 25], 3, 1).unwrap();
    let g = b.grayscale();
    assert_eq!(g.buffer, vec![19, 36, 62]);
    assert_eq!(g.dims, b.dims);
}

#[test]
fn test_grayscale_white_saturates() {
    // 3 by 3 all-white: floor(255 * 1.030) = 262 saturates to 255.
    let b = ImBuffer::construct(vec![255; 27], 3, 3).unwrap();
    let g = b.grayscale();
    assert_eq!(g.buffer, vec![255; 9]);
}

#[test]
fn test_sobel_uniform_white_is_zero() {
    // All neighbors equal: gx = gy = 0 at the single interior pixel; the
    // eight border pixels take the default sentinel 0.
    let b = ImBuffer::construct(vec![255; 27], 3, 3).unwrap();
    let g = b.grayscale();
    let e = g.sobel();
    assert_eq!(e.buffer, vec![0; 9]);
    assert_eq!(e.dims, g.dims);
}

#[test]
fn test_sobel_vertical_split() {
    // 4 by 4 luma raster split into black (columns 0-1) and white
    // (columns 2-3). The vertical gradient cancels row against row, so
    // gy = 0 at every interior pixel; with the fixed horizontal kernel
    // [-1 0 1 / 2 0 -2 / -1 0 1] the middle row cancels the outer rows on
    // any vertical stripe pattern, so gx = 0 as well.
    let row = [0u8, 0, 255, 255];
    let mut vals = Vec::new();
    for _ in 0..4 {
        vals.extend_from_slice(&row);
    }
    let l = ImBuffer::new(vals, Dims::new(4, 4, 255));
    let e = l.sobel();
    assert_eq!(e.buffer, vec![0; 16]);
}

#[test]
fn test_sobel_corner_step() {
    // A single bright top-right neighbor drives both gradients: at the
    // center, gx = 100 and gy = 100, so the magnitude is 200.
    let vals = vec![0, 0, 100, 0, 0, 0, 0, 0, 0];
    let l = ImBuffer::new(vals, Dims::new(3, 3, 255));
    let e = l.sobel();
    assert_eq!(e.buffer, vec![0, 0, 0, 0, 200, 0, 0, 0, 0]);
}

#[test]
fn test_sobel_saturates_at_255() {
    // Top-right at 255 gives |gx| + |gy| = 510, clamped to 255.
    let vals = vec![0, 0, 255, 0, 0, 0, 0, 0, 0];
    let l = ImBuffer::new(vals, Dims::new(3, 3, 255));
    let e = l.sobel();
    assert_eq!(e.buffer[4], 255);
}

#[test]
fn test_sobel_sentinel_policy() {
    // Every cell of a 2 by 2 raster is a border cell, so all take the
    // configured sentinel.
    let l = ImBuffer::new(vec![5, 9, 1, 3], Dims::new(2, 2, 255));
    let e = l.sobel_with_sentinel(255);
    assert_eq!(e.buffer, vec![255; 4]);
    let z = l.sobel();
    assert_eq!(z.buffer, vec![0; 4]);
}

#[test]
fn test_sobel_two_runs_equal() {
    let vals = vec![3, 1, 4, 1, 5, 9, 2, 6, 5, 3, 5, 8, 9, 7, 9, 3];
    let l = ImBuffer::new(vals, Dims::new(4, 4, 255));
    let e1 = l.sobel();
    let e2 = l.sobel();
    assert_eq!(e1.buffer, e2.buffer);
    assert_eq!(e1.dims, e2.dims);
}

#[test]
fn test_header_round_trip() {
    let s = prelude(640, 480, 255);
    assert_eq!(
        parse_header(&s),
        Some((RasterKind::Color, 640, 480, 255))
    );
    let g = prelude_gray(1, 4294967295, 0);
    assert_eq!(parse_header(&g), Some((RasterKind::Gray, 1, 4294967295, 0)));
}

#[test]
fn test_parse_header_rejects() {
    assert_eq!(parse_header("P4\n1 1\n255\n"), None);
    assert_eq!(parse_header("P3\n 1 2\n255\n"), None);
    assert_eq!(parse_header("P3\n1 2\n255"), None);
    // A width beyond the 32-bit range is rejected.
    assert_eq!(parse_header("P3\n4294967296 1\n255\n"), None);
}

#[test]
fn test_from_png_unsupported() {
    let r = ImBuffer::from_png(&[1, 2, 3]);
    assert!(matches!(r, Err(ImageError::Decode)));
}

#[test]
fn test_from_jpeg_rejects_garbage() {
    let r = ImBuffer::from_jpeg(&[0, 1, 2, 3]);
    assert!(matches!(r, Err(ImageError::Decode)));
}

#[test]
fn test_blur_leaves_raster_unchanged() {
    let mut b = ImBuffer::construct(vec![9, 8, 7], 1, 1).unwrap();
    b.blur(3);
    assert_eq!(b.buffer, vec![RGBPixel::new(&[9, 8, 7])]);
    assert_eq!(b.dims, Dims::new(1, 1, 255));
}

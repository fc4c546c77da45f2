use edgemap::buffer::ImBuffer;
use edgemap::pixel::Dims;
use edgemap::text::{parse_header, RasterKind};

#[test]
fn test_to_ppm_text() {
    let b = ImBuffer::construct(vec![1, 2, 3, 4, 5, 6], 2, 1).unwrap();
    assert_eq!(b.to_ppm(), "P3\n2 1\n255\n1 2 3 4 5 6 \n".to_string());
}

#[test]
fn test_to_ppm_rows() {
    let b = ImBuffer::construct(vec![0, 0, 0, 255, 255, 255, 10, 20, 30, 40, 50, 60], 2, 2)
        .unwrap();
    assert_eq!(
        b.to_ppm(),
        "P3\n2 2\n255\n0 0 0 255 255 255 \n10 20 30 40 50 60 \n".to_string()
    );
}

#[test]
fn test_to_ppm_gray_text() {
    let g = ImBuffer::new(vec![7, 200, 13, 255], Dims::new(2, 2, 255));
    assert_eq!(g.to_ppm_gray(), "P2\n2 2\n255\n7 200 \n13 255 \n".to_string());
}

#[test]
fn test_ppm_file_round_trip() {
    // The header written in front of a full pixel body parses back exactly.
    let b = ImBuffer::construct(vec![1, 2, 3, 4, 5, 6, 7, 8, 9], 3, 1).unwrap();
    let text = b.to_ppm();
    assert_eq!(parse_header(&text), Some((RasterKind::Color, 3, 1, 255)));
    let g = b.grayscale();
    let gray_text = g.to_ppm_gray();
    assert_eq!(parse_header(&gray_text), Some((RasterKind::Gray, 3, 1, 255)));
}

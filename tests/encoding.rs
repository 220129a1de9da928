use path_tracer::ppm::{pfm_header, ppm_header, ppm_pixel, push_decimal};
use path_tracer::sampling::sqrt_samples;
use path_tracer::texture::checker_is_even;

#[test]
fn pixmap_header_lists_size_and_maximum() {
    let mut expected = vec![b'P', b'3'];
    expected.extend_from_slice(b"\n400 225\n255\n");
    assert_eq!(ppm_header(400, 225), expected);
    let mut tiny = vec![b'P', b'3'];
    tiny.extend_from_slice(b"\n1 0\n255\n");
    assert_eq!(ppm_header(1, 0), tiny);
}

#[test]
fn pixmap_pixel_is_one_line_of_three_values() {
    assert_eq!(ppm_pixel(255, 0, 7), b"255 0 7\n".to_vec());
    assert_eq!(ppm_pixel(0, 0, 0), b"0 0 0\n".to_vec());
    assert_eq!(ppm_pixel(10, 99, 100), b"10 99 100\n".to_vec());
}

#[test]
fn float_pixmap_header_has_negative_scale() {
    assert_eq!(pfm_header(600, 600), b"PF\n600 600\n-1.0\n".to_vec());
}

#[test]
fn decimal_digits_have_no_leading_zeros() {
    let mut out = b"x=".to_vec();
    push_decimal(&mut out, 0);
    assert_eq!(out, b"x=0".to_vec());
    let mut big = Vec::new();
    push_decimal(&mut big, usize::MAX);
    assert_eq!(big, usize::MAX.to_string().into_bytes());
    let mut mid = Vec::new();
    push_decimal(&mut mid, 1000);
    assert_eq!(mid, b"1000".to_vec());
}

#[test]
fn sample_grid_side_is_the_integer_square_root() {
    assert_eq!(sqrt_samples(0), 0);
    assert_eq!(sqrt_samples(1), 1);
    assert_eq!(sqrt_samples(3), 1);
    assert_eq!(sqrt_samples(4), 2);
    assert_eq!(sqrt_samples(10), 3);
    assert_eq!(sqrt_samples(99), 9);
    assert_eq!(sqrt_samples(100), 10);
    assert_eq!(sqrt_samples(1_000_000), 1000);
    assert_eq!(sqrt_samples(999_999), 999);
}

#[test]
fn checker_cells_alternate_by_index_sum() {
    assert!(checker_is_even(0, 0, 0));
    assert!(!checker_is_even(1, 0, 0));
    assert!(checker_is_even(-1, -1, 0));
    assert!(!checker_is_even(-1, 0, 0));
    assert!(!checker_is_even(-3, 1, 1));
    assert!(!checker_is_even(i32::MAX, i32::MAX, i32::MAX));
    assert!(checker_is_even(i32::MIN, i32::MIN, 0));
}

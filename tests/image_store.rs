use path_tracer::image::{image_search_paths, RtwImage, BYTES_PER_PIXEL};
use path_tracer::texture::ImageTexture;

/// A binary pixmap file (magic `P` `6`) of `w` by `h` pixels with the given RGB bytes.
fn binary_pixmap(w: usize, h: usize, rgb: &[u8]) -> Vec<u8> {
    let mut file = vec![b'P', b'6'];
    file.extend_from_slice(format!("\n{} {}\n255\n", w, h).as_bytes());
    file.extend_from_slice(rgb);
    file
}

fn two_by_two() -> RtwImage {
    let rgb = [1, 2, 3, 4, 5, 6, 7, 8, 9, 10, 11, 12];
    let mut img = RtwImage::empty();
    assert!(img.load(&binary_pixmap(2, 2, &rgb)));
    img
}

#[test]
fn empty_image_has_no_size_and_is_magenta() {
    let img = RtwImage::empty();
    assert_eq!(img.width(), 0);
    assert_eq!(img.height(), 0);
    assert_eq!(img.pixel_data(0, 0), [255, 0, 255]);
    assert_eq!(img.pixel_data(7, 3), [255, 0, 255]);
    assert_eq!(BYTES_PER_PIXEL, 3);
}

#[test]
fn load_decodes_pixels_row_by_row() {
    let img = two_by_two();
    assert_eq!(img.width(), 2);
    assert_eq!(img.height(), 2);
    assert_eq!(img.pixel_data(0, 0), [1, 2, 3]);
    assert_eq!(img.pixel_data(1, 0), [4, 5, 6]);
    assert_eq!(img.pixel_data(0, 1), [7, 8, 9]);
    assert_eq!(img.pixel_data(1, 1), [10, 11, 12]);
}

#[test]
fn pixel_coordinates_are_clamped_into_the_image() {
    let img = two_by_two();
    assert_eq!(img.pixel_data(5, 0), [4, 5, 6]);
    assert_eq!(img.pixel_data(0, 9), [7, 8, 9]);
    assert_eq!(img.pixel_data(usize::MAX, usize::MAX), [10, 11, 12]);
}

#[test]
fn undecodable_bytes_leave_the_image_unchanged() {
    let mut img = two_by_two();
    assert!(!img.load(&[0, 1, 2, 3, 4, 5]));
    assert_eq!(img.width(), 2);
    assert_eq!(img.pixel_data(1, 1), [10, 11, 12]);
    let mut empty = RtwImage::empty();
    assert!(!empty.load(&[]));
    assert_eq!(empty.height(), 0);
}

#[test]
fn search_paths_start_with_the_configured_directory() {
    let paths = image_search_paths("textures", "earthmap.jpg");
    let expected = vec![
        "textures/earthmap.jpg",
        "earthmap.jpg",
        "images/earthmap.jpg",
        "../images/earthmap.jpg",
        "../../images/earthmap.jpg",
        "../../../images/earthmap.jpg",
        "../../../../images/earthmap.jpg",
        "../../../../../images/earthmap.jpg",
        "../../../../../../images/earthmap.jpg",
    ];
    assert_eq!(paths, expected);
}

#[test]
fn search_paths_without_a_directory_start_with_the_bare_name() {
    let paths = image_search_paths("", "a.png");
    assert_eq!(paths.len(), 8);
    assert_eq!(paths[0], "a.png");
    assert_eq!(paths[1], "images/a.png");
    assert_eq!(paths[7], "../../../../../../images/a.png");
}

#[test]
fn image_texture_reads_texels_or_reports_missing_data() {
    let missing = ImageTexture::new(RtwImage::empty());
    assert_eq!(missing.height(), 0);
    assert_eq!(missing.texel(0, 0), None);
    let tex = ImageTexture::new(two_by_two());
    assert_eq!(tex.width(), 2);
    assert_eq!(tex.height(), 2);
    assert_eq!(tex.texel(1, 0), Some([4, 5, 6]));
    assert_eq!(tex.texel(3, 3), Some([10, 11, 12]));
}

#[test]
fn from_rgb8_needs_exactly_three_bytes_per_pixel() {
    let img = RtwImage::from_rgb8(vec![1, 2, 3, 4, 5, 6], 2, 1).expect("six bytes make two pixels");
    assert_eq!(img.width(), 2);
    assert_eq!(img.height(), 1);
    assert_eq!(img.pixel_data(1, 0), [4, 5, 6]);
    assert_eq!(img.pixel_data(0, 3), [1, 2, 3]);
    assert!(RtwImage::from_rgb8(vec![0; 5], 2, 1).is_none());
    assert!(RtwImage::from_rgb8(vec![0; 9], 2, 1).is_none());
    assert!(RtwImage::from_rgb8(vec![1, 2, 3], 0, 1).is_none());
    assert!(RtwImage::from_rgb8(vec![0; 6], usize::MAX, 2).is_none());
}

#[test]
fn from_rgb8_of_no_pixels_is_an_empty_image() {
    let img = RtwImage::from_rgb8(Vec::new(), 0, 5).expect("no pixels, no bytes");
    assert_eq!(img.width(), 0);
    assert_eq!(img.height(), 0);
    assert_eq!(img.pixel_data(0, 0), [255, 0, 255]);
}

#[test]
fn default_image_is_empty() {
    let img = RtwImage::default();
    assert_eq!(img.width(), 0);
    assert_eq!(img.height(), 0);
    assert_eq!(img.pixel_data(2, 2), [255, 0, 255]);
}

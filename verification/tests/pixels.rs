use pathtracer::image::buffer_len;
use pathtracer::image::pixel_coords;
use pathtracer::image::CHANNELS;

#[test]
fn buffer_len_counts_three_bytes_a_pixel() {
    assert_eq!(CHANNELS, 3);
    assert_eq!(buffer_len(960, 540), Some(1_555_200));
    assert_eq!(buffer_len(1, 1), Some(3));
    assert_eq!(buffer_len(0, 540), Some(0));
    assert_eq!(buffer_len(960, 0), Some(0));
}

#[test]
fn buffer_len_is_nothing_beyond_a_length() {
    assert_eq!(buffer_len(usize::MAX, 2), None);
    assert_eq!(buffer_len(usize::MAX, 1), None);
    assert_eq!(buffer_len(usize::MAX / 3, 1), Some(usize::MAX / 3 * 3));
    assert_eq!(buffer_len(usize::MAX / 3 + 1, 1), None);
    assert_eq!(buffer_len(0, usize::MAX), Some(0));
}

#[test]
fn pixel_coords_number_pixels_row_by_row() {
    assert_eq!(pixel_coords(0, 960), (0, 0));
    assert_eq!(pixel_coords(959, 960), (959, 0));
    assert_eq!(pixel_coords(960, 960), (0, 1));
    assert_eq!(pixel_coords(960 * 540 - 1, 960), (959, 539));
    assert_eq!(pixel_coords(7, 1), (0, 7));
}

#[test]
fn pixel_coords_cover_the_image_once() {
    let (width, height) = (7usize, 5usize);
    let mut seen = vec![false; width * height];
    for index in 0..width * height {
        let (column, row) = pixel_coords(index, width);
        assert!(column < width && row < height);
        assert_eq!(row * width + column, index);
        assert!(!seen[row * width + column]);
        seen[row * width + column] = true;
    }
    assert!(seen.iter().all(|&s| s));
}

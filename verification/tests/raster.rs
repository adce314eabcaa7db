use image::{Rgb, RgbImage};
use pathtracer::pixel::Rgb8;
use pathtracer::raster::rgb_bytes;

fn px(r: u8, g: u8, b: u8) -> Rgb8 {
    Rgb8 { r, g, b }
}

#[test]
fn empty_grid_has_no_bytes() {
    assert_eq!(rgb_bytes(0, 0, &Vec::new()), Vec::<u8>::new());
    assert_eq!(rgb_bytes(0, 3, &vec![Vec::new(), Vec::new(), Vec::new()]), Vec::<u8>::new());
}

#[test]
fn single_pixel_is_red_green_blue() {
    assert_eq!(rgb_bytes(1, 1, &vec![vec![px(10, 20, 30)]]), vec![10, 20, 30]);
}

#[test]
fn last_row_comes_first() {
    let grid = vec![
        vec![px(1, 2, 3), px(4, 5, 6)],
        vec![px(7, 8, 9), px(10, 11, 12)],
        vec![px(13, 14, 15), px(16, 17, 18)],
    ];
    assert_eq!(
        rgb_bytes(2, 3, &grid),
        vec![13, 14, 15, 16, 17, 18, 7, 8, 9, 10, 11, 12, 1, 2, 3, 4, 5, 6]
    );
}

#[test]
fn bytes_are_not_left_black() {
    let grid = vec![vec![px(255, 254, 253); 4]; 2];
    let bytes = rgb_bytes(4, 2, &grid);
    assert_eq!(bytes.len(), 24);
    for pixel in bytes.chunks(3) {
        assert_eq!(pixel, [255, 254, 253]);
    }
}

#[test]
fn bytes_are_those_of_an_image_filled_from_the_top() {
    let width: u32 = 5;
    let height: u32 = 4;
    let grid: Vec<Vec<Rgb8>> = (0..height)
        .map(|j| (0..width).map(|i| px(i as u8 * 10, j as u8 * 20, (i + j) as u8)).collect())
        .collect();
    let mut img = RgbImage::new(width, height);
    for (y, row) in grid.iter().rev().enumerate() {
        for (x, pixel) in row.iter().enumerate() {
            img.put_pixel(x as u32, y as u32, Rgb([pixel.r, pixel.g, pixel.b]));
        }
    }
    assert_eq!(rgb_bytes(width, height, &grid), img.into_raw());
}

#[test]
fn bytes_read_back_as_an_image() {
    let width: u32 = 3;
    let height: u32 = 6;
    let grid: Vec<Vec<Rgb8>> = (0..height)
        .map(|j| (0..width).map(|i| px(i as u8, j as u8, 200)).collect())
        .collect();
    let img = RgbImage::from_raw(width, height, rgb_bytes(width, height, &grid)).unwrap();
    for y in 0..height {
        for x in 0..width {
            let expected = grid[(height - 1 - y) as usize][x as usize];
            assert_eq!(*img.get_pixel(x, y), Rgb([expected.r, expected.g, expected.b]));
        }
    }
}

#[test]
fn widest_row_without_rows_has_no_bytes() {
    let widest = (usize::MAX / 3).min(u32::MAX as usize) as u32;
    assert_eq!(rgb_bytes(widest, 0, &Vec::new()), Vec::<u8>::new());
}

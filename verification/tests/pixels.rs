use cch23_challenge::pixels::count_red;
use cch23_challenge::pixels::is_picture_part;
use cch23_challenge::pixels::red_pixels;

fn png(width: u32, height: u32, pixels: &[[u8; 4]]) -> Vec<u8> {
    let mut picture = image::RgbaImage::new(width, height);
    for (i, pixel) in pixels.iter().enumerate() {
        picture.put_pixel(i as u32 % width, i as u32 / width, image::Rgba(*pixel));
    }
    let mut bytes = Vec::new();
    picture.write_to(&mut std::io::Cursor::new(&mut bytes), image::ImageFormat::Png).unwrap();
    bytes
}

#[test]
fn red_pixels_of_a_picture_are_counted() {
    let data = png(3, 2, &[
        [255, 0, 0, 255],
        [200, 100, 99, 0],
        [200, 100, 100, 255],
        [0, 255, 0, 255],
        [1, 0, 0, 255],
        [0, 0, 0, 255],
    ]);
    assert_eq!(red_pixels(&data), Some(3));
}

#[test]
fn what_is_no_picture_has_no_count() {
    assert_eq!(red_pixels(b"not a picture"), None);
    assert_eq!(red_pixels(&[]), None);
}

#[test]
fn red_is_more_than_green_and_blue_together() {
    assert_eq!(count_red(&vec![(255, 255, 0), (255, 254, 0), (255, 128, 127), (255, 128, 126)]), 2);
    assert_eq!(count_red(&vec![(255, 255, 255), (0, 0, 0), (1, 0, 0)]), 1);
    assert_eq!(count_red(&vec![]), 0);
}

#[test]
fn only_the_part_called_image_counts() {
    assert!(is_picture_part("image", "image/png"));
    assert!(!is_picture_part("image", "image/jpeg"));
    assert!(!is_picture_part("picture", "image/png"));
    assert!(!is_picture_part("", ""));
}

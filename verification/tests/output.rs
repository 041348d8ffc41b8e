use raylib::file::{header, pixel_line};
use raylib::image::{Image, Pixel};

#[test]
fn header_names_format_size_and_depth() {
    assert_eq!(header(400, 225), format!("P3\n{} {}\n255\n", 400, 225).into_bytes());
    assert_eq!(header(256, 128), b"P3\n256 128\n255\n".to_vec());
    assert_eq!(header(0, 0), b"P3\n0 0\n255\n".to_vec());
}

#[test]
fn header_writes_any_size_in_decimal() {
    for (width, height) in [(1, 9), (10, 99), (100, 1200), (i64::MAX, i64::MIN), (-1, -10)] {
        assert_eq!(header(width, height), format!("P3\n{} {}\n255\n", width, height).into_bytes());
    }
}

#[test]
fn line_holds_three_channels() {
    assert_eq!(pixel_line(255, 0, 128), b"255 0 128\n".to_vec());
    assert_eq!(pixel_line(0, 0, 0), b"0 0 0\n".to_vec());
    assert_eq!(pixel_line(9, 10, 11), b"9 10 11\n".to_vec());
}

#[test]
fn line_writes_any_channel_in_decimal() {
    let values = [i32::MIN, -100, -1, 0, 7, 63, 255, 256, 1000, i32::MAX];
    for &r in values.iter() {
        for &g in values.iter() {
            assert_eq!(pixel_line(r, g, 5), format!("{} {} {}\n", r, g, 5).into_bytes());
        }
    }
}

#[test]
fn height_follows_from_width_and_aspect() {
    assert_eq!(Image::with_aspect(400, 16, 9), Some(Image { width: 400, height: 225 }));
    assert_eq!(Image::with_aspect(1200, 3, 2), Some(Image { width: 1200, height: 800 }));
    assert_eq!(Image::with_aspect(100, 3, 1), Some(Image { width: 100, height: 33 }));
    assert_eq!(Image::with_aspect(0, 16, 9), Some(Image { width: 0, height: 0 }));
    assert_eq!(Image::with_aspect(i64::MAX, 1, 1), Some(Image { width: i64::MAX, height: i64::MAX }));
}

#[test]
fn height_is_refused_where_it_is_undefined() {
    assert_eq!(Image::with_aspect(-1, 16, 9), None);
    assert_eq!(Image::with_aspect(400, 0, 9), None);
    assert_eq!(Image::with_aspect(400, 16, 0), None);
    assert_eq!(Image::with_aspect(400, -16, 9), None);
    assert_eq!(Image::with_aspect(400, 16, -9), None);
    assert_eq!(Image::with_aspect(i64::MAX, 1, 2), None);
}

#[test]
fn pixels_run_from_the_top_row_left_to_right() {
    let image = Image { width: 3, height: 2 };
    let mut seen = Vec::new();
    let mut at = image.first();
    while let Some(pixel) = at {
        seen.push((pixel.column, pixel.row));
        at = image.next(pixel);
    }
    assert_eq!(seen, vec![(0, 1), (1, 1), (2, 1), (0, 0), (1, 0), (2, 0)]);
}

#[test]
fn every_pixel_is_written_once() {
    let image = Image { width: 7, height: 5 };
    let mut count = 0;
    let mut at = image.first();
    let mut expected_row = 4;
    let mut expected_column = 0;
    while let Some(pixel) = at {
        assert_eq!((pixel.column, pixel.row), (expected_column, expected_row));
        expected_column += 1;
        if expected_column == 7 {
            expected_column = 0;
            expected_row -= 1;
        }
        count += 1;
        at = image.next(pixel);
    }
    assert_eq!(count, 35);
}

#[test]
fn image_without_pixels_has_no_first() {
    assert_eq!(Image { width: 0, height: 5 }.first(), None);
    assert_eq!(Image { width: 5, height: 0 }.first(), None);
    assert_eq!(Image { width: -2, height: -2 }.first(), None);
    assert_eq!(Image { width: 1, height: 1 }.first(), Some(Pixel { column: 0, row: 0 }));
}

#[test]
fn next_stops_after_the_last_and_outside_the_image() {
    let image = Image { width: 3, height: 2 };
    assert_eq!(image.next(Pixel { column: 2, row: 0 }), None);
    assert_eq!(image.next(Pixel { column: 3, row: 1 }), None);
    assert_eq!(image.next(Pixel { column: 0, row: 2 }), None);
    assert_eq!(image.next(Pixel { column: -1, row: 0 }), None);
    assert_eq!(image.next(Pixel { column: 0, row: -1 }), None);
    assert_eq!(image.next(Pixel { column: 2, row: 1 }), Some(Pixel { column: 0, row: 0 }));
}

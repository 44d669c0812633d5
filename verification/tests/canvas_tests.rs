use ground_heatmap::canvas::Canvas;
use ground_heatmap::plot::{bg, circle, draw_points, grid, img_bg};
use ground_heatmap::error::Error;

#[test]
fn new_canvas_is_transparent_black() {
    let canvas = Canvas::new(4, 3).expect("small canvas");
    assert_eq!(canvas.width(), 4);
    assert_eq!(canvas.height(), 3);
    assert_eq!(canvas.get_pixel(0, 0), (0, 0, 0, 0));
    assert_eq!(canvas.get_pixel(3, 2), (0, 0, 0, 0));
}

#[test]
fn new_canvas_may_be_empty() {
    let canvas = Canvas::new(0, 7).expect("empty canvas");
    assert_eq!(canvas.width(), 0);
    assert_eq!(canvas.height(), 7);
    assert_eq!(canvas.pixel(0, 0), None);
}

#[test]
fn pixel_is_none_outside_the_canvas() {
    let canvas = Canvas::new(4, 3).expect("small canvas");
    assert_eq!(canvas.pixel(3, 2), Some((0, 0, 0, 0)));
    assert_eq!(canvas.pixel(4, 2), None);
    assert_eq!(canvas.pixel(3, 3), None);
}

#[test]
fn put_pixel_changes_one_pixel_only() {
    let mut canvas = Canvas::new(3, 2).expect("small canvas");
    canvas.put_pixel(1, 1, (9, 8, 7, 6));
    assert_eq!(canvas.get_pixel(1, 1), (9, 8, 7, 6));
    assert_eq!(canvas.get_pixel(0, 1), (0, 0, 0, 0));
    assert_eq!(canvas.get_pixel(1, 0), (0, 0, 0, 0));
    assert_eq!(canvas.get_pixel(2, 1), (0, 0, 0, 0));
    assert_eq!(canvas.width(), 3);
    assert_eq!(canvas.height(), 2);
}

#[test]
fn from_bytes_reads_pixels_row_by_row() {
    let bytes: Vec<u8> = (0u8..24).collect();
    let canvas = Canvas::from_bytes(3, 2, bytes).expect("matching length");
    assert_eq!(canvas.width(), 3);
    assert_eq!(canvas.height(), 2);
    assert_eq!(canvas.get_pixel(0, 0), (0, 1, 2, 3));
    assert_eq!(canvas.get_pixel(2, 0), (8, 9, 10, 11));
    assert_eq!(canvas.get_pixel(0, 1), (12, 13, 14, 15));
    assert_eq!(canvas.get_pixel(2, 1), (20, 21, 22, 23));
}

#[test]
fn from_bytes_rejects_other_lengths() {
    assert!(Canvas::from_bytes(3, 2, vec![0u8; 23]).is_none());
    assert!(Canvas::from_bytes(3, 2, vec![0u8; 25]).is_none());
    assert!(Canvas::from_bytes(3, 2, Vec::new()).is_none());
    assert!(Canvas::from_bytes(0, 0, Vec::new()).is_some());
}

#[test]
fn into_bytes_lays_pixels_out_row_by_row() {
    let mut canvas = Canvas::new(2, 2).expect("small canvas");
    canvas.put_pixel(1, 0, (1, 2, 3, 4));
    canvas.put_pixel(0, 1, (5, 6, 7, 8));
    let bytes = canvas.into_bytes();
    assert_eq!(bytes, vec![0, 0, 0, 0, 1, 2, 3, 4, 5, 6, 7, 8, 0, 0, 0, 0]);
}

#[test]
fn bg_fills_every_pixel() {
    let mut canvas = Canvas::new(5, 4).expect("small canvas");
    bg((1, 2, 3, 4), &mut canvas);
    for y in 0u32..4 {
        for x in 0u32..5 {
            assert_eq!(canvas.get_pixel(x, y), (1, 2, 3, 4));
        }
    }
    assert_eq!(canvas.width(), 5);
    assert_eq!(canvas.height(), 4);
}

#[test]
fn img_bg_copies_a_background_of_the_same_size() {
    let bytes: Vec<u8> = (0u8..32).collect();
    let background = Canvas::from_bytes(4, 2, bytes.clone()).expect("matching length");
    let mut canvas = Canvas::new(4, 2).expect("small canvas");
    assert!(img_bg(&mut canvas, &background).is_ok());
    assert_eq!(canvas.into_bytes(), bytes);
}

#[test]
fn img_bg_rejects_a_background_of_another_size() {
    let background = Canvas::new(100, 100).expect("small canvas");
    let mut canvas = Canvas::new(192, 108).expect("small canvas");
    bg((7, 7, 7, 7), &mut canvas);
    let err = img_bg(&mut canvas, &background).expect_err("sizes differ");
    match &err {
        Error::ImageSizeError(text) => assert_eq!(
            text,
            "Background image size does not match: expected 192x108, got 100x100"
        ),
        other => panic!("unexpected error {:?}", other),
    }
    assert_eq!(
        err.message(),
        "Image size error, Background image size does not match: expected 192x108, got 100x100"
    );
    assert_eq!(canvas.get_pixel(0, 0), (7, 7, 7, 7));
    assert_eq!(canvas.get_pixel(99, 99), (7, 7, 7, 7));
    assert_eq!(canvas.get_pixel(191, 107), (7, 7, 7, 7));
}

#[test]
fn img_bg_rejects_a_transposed_background() {
    let background = Canvas::new(2, 4).expect("small canvas");
    let mut canvas = Canvas::new(4, 2).expect("small canvas");
    assert!(matches!(img_bg(&mut canvas, &background), Err(Error::ImageSizeError(_))));
}

#[test]
fn grid_draws_every_nth_column_and_row() {
    let mut canvas = Canvas::new(7, 5).expect("small canvas");
    bg((9, 9, 9, 9), &mut canvas);
    assert!(grid(&mut canvas, 3).is_ok());
    for y in 0u32..5 {
        for x in 0u32..7 {
            let expected = if x % 3 == 0 || y % 3 == 0 { (0, 255, 0, 255) } else { (9, 9, 9, 9) };
            assert_eq!(canvas.get_pixel(x, y), expected, "pixel ({}, {})", x, y);
        }
    }
}

#[test]
fn grid_with_cell_size_one_covers_the_canvas() {
    let mut canvas = Canvas::new(3, 3).expect("small canvas");
    assert!(grid(&mut canvas, 1).is_ok());
    for y in 0u32..3 {
        for x in 0u32..3 {
            assert_eq!(canvas.get_pixel(x, y), (0, 255, 0, 255));
        }
    }
}

#[test]
fn grid_rejects_a_zero_cell_size() {
    let mut canvas = Canvas::new(3, 3).expect("small canvas");
    bg((9, 9, 9, 9), &mut canvas);
    assert!(matches!(grid(&mut canvas, 0), Err(Error::ConfigurationError)));
    assert_eq!(canvas.get_pixel(0, 0), (9, 9, 9, 9));
}

#[test]
fn draw_points_marks_points_on_the_canvas() {
    let mut canvas = Canvas::new(4, 4).expect("small canvas");
    let points: Vec<(i64, i64)> = vec![(1, 2), (-1, 0), (0, -1), (4, 0), (0, 4), (3, 3), (1, 2)];
    assert!(draw_points(&mut canvas, &points).is_ok());
    for y in 0u32..4 {
        for x in 0u32..4 {
            let expected =
                if (x, y) == (1, 2) || (x, y) == (3, 3) { (255, 0, 0, 255) } else { (0, 0, 0, 0) };
            assert_eq!(canvas.get_pixel(x, y), expected, "pixel ({}, {})", x, y);
        }
    }
}

#[test]
fn draw_points_ignores_far_away_points() {
    let mut canvas = Canvas::new(2, 2).expect("small canvas");
    let points: Vec<(i64, i64)> =
        vec![(i64::MAX, 0), (i64::MIN, 0), (0, i64::MAX), (4294967296, 0), (0, 4294967297)];
    assert!(draw_points(&mut canvas, &points).is_ok());
    assert_eq!(canvas.into_bytes(), vec![0u8; 16]);
}

#[test]
fn circle_fills_the_disc_around_its_centre() {
    let mut canvas = Canvas::new(7, 7).expect("small canvas");
    bg((9, 9, 9, 9), &mut canvas);
    circle(&mut canvas, 2, (3, 3), (1, 2, 3, 4));
    for y in 0i64..7 {
        for x in 0i64..7 {
            let inside = (x - 3) * (x - 3) + (y - 3) * (y - 3) <= 4;
            let expected = if inside { (1, 2, 3, 4) } else { (9, 9, 9, 9) };
            assert_eq!(canvas.get_pixel(x as u32, y as u32), expected, "pixel ({}, {})", x, y);
        }
    }
    assert_eq!(canvas.get_pixel(3, 1), (1, 2, 3, 4));
    assert_eq!(canvas.get_pixel(4, 4), (1, 2, 3, 4));
    assert_eq!(canvas.get_pixel(5, 4), (9, 9, 9, 9));
}

#[test]
fn circle_of_radius_zero_is_one_pixel() {
    let mut canvas = Canvas::new(3, 3).expect("small canvas");
    circle(&mut canvas, 0, (1, 1), (1, 2, 3, 4));
    let mut expected = vec![0u8; 36];
    expected[16..20].copy_from_slice(&[1, 2, 3, 4]);
    assert_eq!(canvas.into_bytes(), expected);
}

#[test]
fn circle_is_clipped_by_the_canvas() {
    let mut canvas = Canvas::new(3, 2).expect("small canvas");
    circle(&mut canvas, 1, (0, 5), (1, 2, 3, 4));
    assert_eq!(canvas.into_bytes(), vec![0u8; 24]);
    let mut corner = Canvas::new(3, 2).expect("small canvas");
    circle(&mut corner, 1, (3, 0), (1, 2, 3, 4));
    assert_eq!(corner.get_pixel(2, 0), (1, 2, 3, 4));
    assert_eq!(corner.get_pixel(1, 0), (0, 0, 0, 0));
    assert_eq!(corner.get_pixel(2, 1), (0, 0, 0, 0));
    let mut all = Canvas::new(3, 2).expect("small canvas");
    circle(&mut all, u32::MAX, (u32::MAX, u32::MAX), (1, 2, 3, 4));
    assert_eq!(all.get_pixel(0, 0), (0, 0, 0, 0));
    assert_eq!(all.get_pixel(2, 1), (0, 0, 0, 0));
    circle(&mut all, u32::MAX, (u32::MAX, 0), (1, 2, 3, 4));
    assert_eq!(all.get_pixel(0, 0), (1, 2, 3, 4));
    assert_eq!(all.get_pixel(0, 1), (0, 0, 0, 0));
}

use raytrace::raster::{image_height, scanline_order};

#[test]
fn height_of_sixteen_by_nine() {
    assert_eq!(image_height(400, 16, 9), 225);
}

#[test]
fn height_rounds_down() {
    assert_eq!(image_height(100, 3, 2), 66);
    assert_eq!(image_height(256, 1, 1), 256);
    assert_eq!(image_height(u32::MAX, 1, u32::MAX), (u32::MAX as u64) * (u32::MAX as u64));
}

#[test]
fn top_row_is_emitted_first() {
    let order = scanline_order(3, 2);
    assert_eq!(order, vec![(0, 1), (1, 1), (2, 1), (0, 0), (1, 0), (2, 0)]);
}

#[test]
fn order_covers_every_pixel_once() {
    let order = scanline_order(256, 256);
    assert_eq!(order.len(), 256 * 256);
    assert_eq!(order[0], (0, 255));
    assert_eq!(order[255], (255, 255));
    assert_eq!(order[256], (0, 254));
    assert_eq!(order[256 * 256 - 1], (255, 0));
    let mut seen = vec![false; 256 * 256];
    for (x, y) in order {
        let i = (y * 256 + x) as usize;
        assert!(!seen[i]);
        seen[i] = true;
    }
    assert!(seen.iter().all(|s| *s));
}

#[test]
fn empty_image_has_no_pixels() {
    assert!(scanline_order(0, 5).is_empty());
    assert!(scanline_order(5, 0).is_empty());
}

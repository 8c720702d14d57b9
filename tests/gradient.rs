use raytrace::gradient::{gradient_color, gradient_image, quantize_fraction};

#[test]
fn quantize_truncates() {
    assert_eq!(quantize_fraction(0, 255), 0);
    assert_eq!(quantize_fraction(255, 255), 255);
    assert_eq!(quantize_fraction(1, 4), 63);
    assert_eq!(quantize_fraction(1, 2), 127);
    assert_eq!(quantize_fraction(1, 1), 255);
    assert_eq!(quantize_fraction(224, 224), 255);
    assert_eq!(quantize_fraction(1, 224), 1);
}

#[test]
fn quantize_steps_one_level_per_255th() {
    for n in 0..=255u32 {
        assert_eq!(quantize_fraction(n, 255) as u32, n);
    }
}

#[test]
fn top_left_pixel_of_256_square() {
    assert_eq!(gradient_color(0, 255, 256, 256), (0, 255, 63));
    assert_eq!(gradient_color(255, 0, 256, 256), (255, 0, 63));
    assert_eq!(gradient_color(100, 37, 256, 256), (100, 37, 63));
}

#[test]
fn first_emitted_pixel_of_256_square() {
    let image = gradient_image(256, 256);
    let text = String::from_utf8(image).unwrap();
    let mut lines = text.lines();
    assert_eq!(lines.next(), Some("P3"));
    assert_eq!(lines.next(), Some("256 256"));
    assert_eq!(lines.next(), Some("255"));
    assert_eq!(lines.next(), Some("0 255 63"));
    assert_eq!(lines.next(), Some("1 255 63"));
    assert_eq!(text.lines().count(), 3 + 256 * 256);
    assert_eq!(text.lines().last(), Some("255 0 63"));
}

#[test]
fn small_image_golden_output() {
    let image = gradient_image(2, 2);
    assert_eq!(
        image,
        b"P3\n2 2\n255\n0 255 63\n255 255 63\n0 0 63\n255 0 63\n".to_vec()
    );
}

#[test]
fn three_by_two_golden_output() {
    let image = gradient_image(3, 2);
    assert_eq!(
        image,
        b"P3\n3 2\n255\n0 255 63\n127 255 63\n255 255 63\n0 0 63\n127 0 63\n255 0 63\n"
            .to_vec()
    );
}

use raytrace::img::PPMEncoder;

fn encode(enc: &PPMEncoder) -> String {
    let mut out: Vec<u8> = Vec::new();
    enc.write_to(&mut out);
    String::from_utf8(out).unwrap()
}

#[test]
fn empty_image_is_header_only() {
    let enc = PPMEncoder::new(2, 3);
    assert_eq!(encode(&enc), "P3\n2 3\n255\n");
}

#[test]
fn single_pixel() {
    let mut enc = PPMEncoder::new(1, 1);
    enc.put_pixel(255, 0, 0);
    assert_eq!(encode(&enc), "P3\n1 1\n255\n255 0 0\n");
}

#[test]
fn pixel_order_is_kept() {
    let mut enc = PPMEncoder::new(2, 1);
    enc.put_pixel(1, 2, 3);
    enc.put_pixel(4, 5, 6);
    assert_eq!(encode(&enc), "P3\n2 1\n255\n1 2 3\n4 5 6\n");
}

#[test]
fn channel_digit_widths() {
    let mut enc = PPMEncoder::new(2, 2);
    enc.put_pixel(0, 7, 9);
    enc.put_pixel(10, 42, 99);
    enc.put_pixel(100, 199, 255);
    enc.put_pixel(200, 0, 128);
    assert_eq!(
        encode(&enc),
        "P3\n2 2\n255\n0 7 9\n10 42 99\n100 199 255\n200 0 128\n"
    );
}

#[test]
fn negative_dimensions_keep_their_sign() {
    let enc = PPMEncoder::new(-3, -1);
    assert_eq!(encode(&enc), "P3\n-3 -1\n255\n");
}

#[test]
fn extreme_dimensions() {
    let enc = PPMEncoder::new(i32::MAX, i32::MIN);
    assert_eq!(encode(&enc), "P3\n2147483647 -2147483648\n255\n");
}

#[test]
fn zero_dimensions() {
    let enc = PPMEncoder::new(0, 0);
    assert_eq!(encode(&enc), "P3\n0 0\n255\n");
}

#[test]
fn write_to_appends_after_existing_bytes() {
    let mut enc = PPMEncoder::new(1, 1);
    enc.put_pixel(8, 16, 32);
    let mut out: Vec<u8> = b"prefix:".to_vec();
    enc.write_to(&mut out);
    assert_eq!(
        String::from_utf8(out).unwrap(),
        "prefix:P3\n1 1\n255\n8 16 32\n"
    );
}

#[test]
fn render_sized_header() {
    let enc = PPMEncoder::new(1200, 675);
    assert_eq!(encode(&enc), "P3\n1200 675\n255\n");
}

#[test]
fn more_pixels_than_announced_are_still_written() {
    let mut enc = PPMEncoder::new(1, 1);
    enc.put_pixel(1, 1, 1);
    enc.put_pixel(2, 2, 2);
    assert_eq!(encode(&enc), "P3\n1 1\n255\n1 1 1\n2 2 2\n");
}

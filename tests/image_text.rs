use raytracer::decimal::{push_decimal, push_signed_decimal};
use raytracer::ppm::{color_line, encode_image, ppm_header, push_color_line, ColorBytes};
use raytracer::scan::{scan_order, Pixel};

fn text(bytes: Vec<u8>) -> String {
    String::from_utf8(bytes).unwrap()
}

fn rgb(r: i64, g: i64, b: i64) -> ColorBytes {
    ColorBytes { r, g, b }
}

#[test]
fn decimal_digits() {
    let mut out: Vec<u8> = Vec::new();
    push_decimal(&mut out, 0);
    out.push(b',');
    push_decimal(&mut out, 7);
    out.push(b',');
    push_decimal(&mut out, 10);
    out.push(b',');
    push_decimal(&mut out, 90210);
    out.push(b',');
    push_decimal(&mut out, u64::MAX);
    assert_eq!(text(out), "0,7,10,90210,18446744073709551615");
}

#[test]
fn signed_decimal_digits() {
    let mut out: Vec<u8> = b"x=".to_vec();
    push_signed_decimal(&mut out, -42);
    out.push(b' ');
    push_signed_decimal(&mut out, 42);
    out.push(b' ');
    push_signed_decimal(&mut out, i64::MIN);
    out.push(b' ');
    push_signed_decimal(&mut out, i64::MAX);
    assert_eq!(
        text(out),
        "x=-42 42 -9223372036854775808 9223372036854775807"
    );
}

#[test]
fn white_pixel_line() {
    assert_eq!(text(color_line(rgb(255, 255, 255))), "255 255 255\n");
}

#[test]
fn black_pixel_line() {
    assert_eq!(text(color_line(rgb(0, 0, 0))), "0 0 0\n");
}

#[test]
fn white_pixel_from_unit_channels() {
    // A channel of 1.0 scales to floor(255.999) = 255.
    let channel = (255.999_f64 * 1.0) as i64;
    assert_eq!(text(color_line(rgb(channel, channel, channel))), "255 255 255\n");
}

#[test]
fn out_of_gamut_pixel_line() {
    assert_eq!(text(color_line(rgb(-1, 256, 127))), "-1 256 127\n");
}

#[test]
fn pixel_line_appends() {
    let mut out: Vec<u8> = b"P3\n".to_vec();
    push_color_line(&mut out, rgb(1, 22, 133));
    assert_eq!(text(out), "P3\n1 22 133\n");
}

#[test]
fn header_of_default_image() {
    assert_eq!(text(ppm_header(400, 225)), "P3\n400 225\n255\n");
}

#[test]
fn header_of_small_image() {
    assert_eq!(text(ppm_header(2, 2)), "P3\n2 2\n255\n");
}

#[test]
fn scan_order_two_by_two() {
    let order = scan_order(2, 2);
    assert_eq!(
        order,
        vec![
            Pixel { row: 1, col: 0 },
            Pixel { row: 1, col: 1 },
            Pixel { row: 0, col: 0 },
            Pixel { row: 0, col: 1 },
        ]
    );
}

#[test]
fn scan_order_wide_image() {
    let order = scan_order(3, 2);
    assert_eq!(order.len(), 6);
    assert_eq!(order[0], Pixel { row: 1, col: 0 });
    assert_eq!(order[2], Pixel { row: 1, col: 2 });
    assert_eq!(order[3], Pixel { row: 0, col: 0 });
    assert_eq!(order[5], Pixel { row: 0, col: 2 });
}

#[test]
fn scan_order_default_image_covers_grid() {
    let (width, height) = (400u64, 225u64);
    let order = scan_order(width, height);
    assert_eq!(order.len(), 90000);
    for row in 0..height {
        for col in 0..width {
            let k = ((height - 1 - row) * width + col) as usize;
            assert_eq!(order[k], Pixel { row, col });
        }
    }
}

#[test]
fn scan_order_empty_grid() {
    assert!(scan_order(0, 5).is_empty());
    assert!(scan_order(5, 0).is_empty());
}

#[test]
fn encode_two_by_two_image() {
    let pixels = vec![rgb(255, 255, 255), rgb(0, 0, 0), rgb(127, 178, 255), rgb(-1, 0, 256)];
    assert_eq!(
        text(encode_image(2, 2, &pixels)),
        "P3\n2 2\n255\n255 255 255\n0 0 0\n127 178 255\n-1 0 256\n"
    );
}

#[test]
fn encode_is_reproducible() {
    let pixels = vec![rgb(191, 216, 255), rgb(191, 216, 255), rgb(255, 255, 255), rgb(255, 255, 255)];
    let first = encode_image(2, 2, &pixels);
    let second = encode_image(2, 2, &pixels);
    assert_eq!(first, second);
}

#[test]
fn encode_rows_apart_and_join() {
    let top = vec![rgb(1, 2, 3), rgb(4, 5, 6)];
    let bottom = vec![rgb(7, 8, 9), rgb(10, 11, 12)];
    let mut joined: Vec<u8> = ppm_header(2, 2);
    for c in top.iter().chain(bottom.iter()) {
        push_color_line(&mut joined, *c);
    }
    let all: Vec<ColorBytes> = top.iter().chain(bottom.iter()).copied().collect();
    assert_eq!(encode_image(2, 2, &all), joined);
}

#[test]
fn encode_empty_image() {
    assert_eq!(text(encode_image(0, 3, &Vec::new())), "P3\n0 3\n255\n");
}

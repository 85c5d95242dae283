use raycast::color::{clamp, clamp_channel, Color, Rgb};
use raycast::ppm::{encode_ppm, ppm_header, push_decimal, push_pixel_line};
use raycast::render::{next_color, render, shade_pixels};

fn rgb(r: u8, g: u8, b: u8) -> Rgb {
    Rgb { r, g, b }
}

#[test]
fn header_is_exact_for_reference_size() {
    let h = ppm_header(600, 600);
    assert_eq!(String::from_utf8(h).unwrap(), "P3\n600 600\n255\n");
}

#[test]
fn header_of_small_sizes() {
    assert_eq!(ppm_header(0, 7), b"P3\n0 7\n255\n".to_vec());
    assert_eq!(ppm_header(4294967295, 10), b"P3\n4294967295 10\n255\n".to_vec());
}

#[test]
fn decimal_has_no_leading_zero() {
    let mut out = b"x".to_vec();
    push_decimal(&mut out, 0);
    push_decimal(&mut out, 9);
    push_decimal(&mut out, 10);
    push_decimal(&mut out, 18446744073709551615);
    assert_eq!(out, b"x091018446744073709551615".to_vec());
}

#[test]
fn pixel_line_format() {
    let mut out = Vec::new();
    push_pixel_line(&mut out, rgb(255, 0, 128));
    push_pixel_line(&mut out, rgb(7, 10, 100));
    assert_eq!(out, b"255 0 128\n7 10 100\n".to_vec());
}

#[test]
fn clamp_limits_each_channel() {
    let mut c = Color { r: 300, g: -10, b: 128 };
    clamp(&mut c);
    assert_eq!(c, Color { r: 255, g: 0, b: 128 });
}

#[test]
fn clamp_in_range_is_no_op() {
    let mut c = Color { r: 255, g: 0, b: 255 };
    clamp(&mut c);
    assert_eq!(c, Color { r: 255, g: 0, b: 255 });
    let mut d = Color { r: 1, g: 254, b: 77 };
    clamp(&mut d);
    assert_eq!(d, Color { r: 1, g: 254, b: 77 });
}

#[test]
fn clamp_extreme_values() {
    assert_eq!(clamp_channel(i64::MAX), 255);
    assert_eq!(clamp_channel(i64::MIN), 0);
    assert_eq!(clamp_channel(256), 255);
    assert_eq!(clamp_channel(-1), 0);
    assert_eq!(clamp_channel(0), 0);
    assert_eq!(clamp_channel(255), 255);
}

#[test]
fn to_rgb_keeps_channels() {
    let c = Color { r: 12, g: 0, b: 255 };
    assert_eq!(c.to_rgb(), rgb(12, 0, 255));
    assert_eq!(Rgb::black(), rgb(0, 0, 0));
}

#[test]
fn hit_shows_clamped_shade() {
    let prev = rgb(1, 2, 3);
    let shade = Some(Color { r: 400, g: -3, b: 20 });
    assert_eq!(next_color(prev, shade), rgb(255, 0, 20));
}

#[test]
fn miss_keeps_previous_colour() {
    let prev = rgb(191, 63, 63);
    assert_eq!(next_color(prev, None), prev);
}

#[test]
fn misses_carry_last_hit_and_start_black() {
    let shades = vec![
        None,
        Some(Color { r: 200, g: 50, b: 50 }),
        None,
        None,
        Some(Color { r: -20, g: 300, b: 9 }),
        None,
    ];
    let shown = shade_pixels(&shades);
    assert_eq!(
        shown,
        vec![
            rgb(0, 0, 0),
            rgb(200, 50, 50),
            rgb(200, 50, 50),
            rgb(200, 50, 50),
            rgb(0, 255, 9),
            rgb(0, 255, 9),
        ]
    );
}

#[test]
fn encode_small_image() {
    let pixels = vec![rgb(255, 0, 0), rgb(0, 0, 0), rgb(10, 20, 30), rgb(1, 2, 3)];
    let bytes = encode_ppm(2, 2, &pixels).unwrap();
    assert_eq!(
        String::from_utf8(bytes).unwrap(),
        "P3\n2 2\n255\n255 0 0\n0 0 0\n10 20 30\n1 2 3\n"
    );
}

#[test]
fn encode_rejects_wrong_pixel_count() {
    let pixels = vec![rgb(1, 1, 1); 3];
    assert!(encode_ppm(2, 2, &pixels).is_none());
    assert!(encode_ppm(1, 4, &pixels).is_none());
    assert!(encode_ppm(0, 0, &Vec::new()).is_some());
}

#[test]
fn render_rejects_wrong_shade_count() {
    let shades = vec![None; 5];
    assert!(render(2, 3, &shades).is_none());
}

#[test]
fn reference_size_has_one_line_per_pixel() {
    let mut shades = vec![None; 600 * 600];
    shades[1000] = Some(Color { r: 191, g: 63, b: 63 });
    let bytes = render(600, 600, &shades).unwrap();
    let text = String::from_utf8(bytes).unwrap();
    let lines: Vec<&str> = text.lines().collect();
    assert_eq!(&lines[..3], &["P3", "600 600", "255"]);
    assert_eq!(lines.len() - 3, 360000);
    assert_eq!(text.matches('\n').count(), 3 + 360000);
    assert_eq!(lines[3], "0 0 0");
    assert_eq!(lines[3 + 999], "0 0 0");
    assert_eq!(lines[3 + 1000], "191 63 63");
    assert_eq!(lines[3 + 359999], "191 63 63");
}

#[test]
fn render_twice_gives_identical_bytes() {
    let mut shades = Vec::new();
    for k in 0..(30 * 20) {
        if k % 7 == 3 {
            shades.push(Some(Color { r: k as i64 - 100, g: 2 * k as i64, b: 128 }));
        } else {
            shades.push(None);
        }
    }
    let first = render(30, 20, &shades).unwrap();
    let second = render(30, 20, &shades).unwrap();
    assert_eq!(first, second);
}

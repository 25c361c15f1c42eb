use msi_klc::{
    brightness_from_lowercase, color_from_lowercase, mode_from_lowercase, parse_brightness,
    parse_color, parse_mode, parse_region, parse_rgb_colors, region_from_lowercase, Brightness,
    Color, Mode, Region,
};

fn chars(s: &str) -> Vec<char> {
    s.chars().collect()
}

#[test]
fn rgb_from_hash_hex() {
    assert_eq!(parse_rgb_colors(&"#ff0000".to_string()), [255, 0, 0]);
}

#[test]
fn rgb_from_0x_hex() {
    assert_eq!(parse_rgb_colors(&"0x00ff00".to_string()), [0, 255, 0]);
}

#[test]
fn rgb_from_decimal_triple() {
    assert_eq!(parse_rgb_colors(&"10;20;30".to_string()), [10, 20, 30]);
}

#[test]
fn rgb_from_bogus_is_black() {
    assert_eq!(parse_rgb_colors(&"bogus".to_string()), [0, 0, 0]);
}

#[test]
fn rgb_hex_is_case_insensitive_and_bad_pairs_are_zero() {
    assert_eq!(parse_rgb_colors(&"#AbCdEf".to_string()), [0xab, 0xcd, 0xef]);
    assert_eq!(parse_rgb_colors(&"#zz10g1".to_string()), [0, 16, 0]);
    assert_eq!(parse_rgb_colors(&"0x0A0b0C".to_string()), [10, 11, 12]);
}

#[test]
fn rgb_decimal_missing_and_out_of_range_channels_are_zero() {
    assert_eq!(parse_rgb_colors(&"10;20".to_string()), [10, 20, 0]);
    assert_eq!(parse_rgb_colors(&"300;1;2".to_string()), [0, 1, 2]);
    assert_eq!(parse_rgb_colors(&"1;2;3;4".to_string()), [1, 2, 3]);
    assert_eq!(parse_rgb_colors(&"".to_string()), [0, 0, 0]);
    assert_eq!(parse_rgb_colors(&"+7;-1;255".to_string()), [7, 0, 255]);
}

#[test]
fn rgb_hash_of_wrong_length_is_read_as_decimal() {
    assert_eq!(parse_rgb_colors(&"#fff".to_string()), [0, 0, 0]);
    assert_eq!(parse_rgb_colors(&"0xfff".to_string()), [0, 0, 0]);
}

#[test]
fn color_names_any_case() {
    assert_eq!(parse_color(&"RED".to_string()), Color::Red);
    assert_eq!(parse_color(&"nonexistent".to_string()), Color::Off);
    assert_eq!(parse_color(&"Purple".to_string()), Color::Purple);
    assert_eq!(parse_color(&"white".to_string()), Color::White);
}

#[test]
fn color_from_each_lowercase_word() {
    let words = [
        ("off", Color::Off),
        ("red", Color::Red),
        ("orange", Color::Orange),
        ("yellow", Color::Yellow),
        ("green", Color::Green),
        ("sky", Color::Sky),
        ("blue", Color::Blue),
        ("purple", Color::Purple),
        ("white", Color::White),
        ("", Color::Off),
        ("RED", Color::Off),
    ];
    for (w, c) in words {
        assert_eq!(color_from_lowercase(&chars(w)), c);
    }
}

#[test]
fn region_names_and_default() {
    assert_eq!(parse_region(&"LEFT".to_string()), Region::Left);
    assert_eq!(parse_region(&"middle".to_string()), Region::Middle);
    assert_eq!(parse_region(&"Right".to_string()), Region::Right);
    assert_eq!(parse_region(&"all".to_string()), Region::All);
    assert_eq!(parse_region(&"top".to_string()), Region::All);
    assert_eq!(region_from_lowercase(&chars("right")), Region::Right);
}

#[test]
fn brightness_names_and_default() {
    assert_eq!(parse_brightness(&"Dark".to_string()), Brightness::Dark);
    assert_eq!(parse_brightness(&"low".to_string()), Brightness::Low);
    assert_eq!(parse_brightness(&"medium".to_string()), Brightness::Medium);
    assert_eq!(parse_brightness(&"HIGH".to_string()), Brightness::High);
    assert_eq!(parse_brightness(&"blinding".to_string()), Brightness::Medium);
    assert_eq!(brightness_from_lowercase(&chars("low")), Brightness::Low);
}

#[test]
fn mode_names_and_default() {
    assert_eq!(parse_mode(&"Gaming".to_string()), Mode::Gaming);
    assert_eq!(parse_mode(&"RGB".to_string()), Mode::RGB);
    assert_eq!(parse_mode(&"normal".to_string()), Mode::Normal);
    assert_eq!(parse_mode(&"wave".to_string()), Mode::Normal);
    assert_eq!(mode_from_lowercase(&chars("gaming")), Mode::Gaming);
}

#[test]
fn rgb_hex_channel_with_sign_is_zero() {
    assert_eq!(parse_rgb_colors(&"#+f0000".to_string()), [0, 0, 0]);
    assert_eq!(parse_rgb_colors(&"0x+f00ff".to_string()), [0, 0, 255]);
    assert_eq!(parse_rgb_colors(&"#-10a0b".to_string()), [0, 10, 11]);
}

#[test]
fn rgb_forms_are_told_by_byte_length() {
    // seven characters, eight bytes: not the `#` form
    assert_eq!(parse_rgb_colors(&"#fffff\u{e9}".to_string()), [0, 0, 0]);
    // six characters, seven bytes: the `#` form, last channel cut short
    assert_eq!(parse_rgb_colors(&"#ffff\u{e9}".to_string()), [255, 255, 0]);
    // seven characters, eight bytes: the `0x` form
    assert_eq!(parse_rgb_colors(&"0x1020\u{e9}".to_string()), [16, 32, 0]);
    assert_eq!(parse_rgb_colors(&"1;2;\u{e9}".to_string()), [1, 2, 0]);
}

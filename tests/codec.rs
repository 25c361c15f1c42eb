use msi_klc::{
    command_kind, Brightness, Color, CommandKind, KeyboardLightData, KeyboardModeData,
    KeyboardRGBLightData, Mode, Region,
};

#[test]
fn light_report_carries_region_color_brightness() {
    let d = KeyboardLightData::new(&Region::Middle, &Color::Sky, &Brightness::High);
    assert_eq!(d.encode(), [1, 2, 66, 2, 5, 3, 0, 236]);
}

#[test]
fn light_report_codes_of_every_value() {
    let regions = [(Region::Left, 1u8), (Region::Middle, 2), (Region::Right, 3)];
    let colors = [
        (Color::Off, 0u8),
        (Color::Red, 1),
        (Color::Orange, 2),
        (Color::Yellow, 3),
        (Color::Green, 4),
        (Color::Sky, 5),
        (Color::Blue, 6),
        (Color::Purple, 7),
        (Color::White, 8),
    ];
    let levels = [
        (Brightness::Dark, 0u8),
        (Brightness::Low, 1),
        (Brightness::Medium, 2),
        (Brightness::High, 3),
    ];
    for (r, rc) in regions {
        for (c, cc) in colors {
            for (b, bc) in levels {
                let report = KeyboardLightData::new(&r, &c, &b).encode();
                assert_eq!(report, [1, 2, 66, rc, cc, bc, 0, 236]);
            }
        }
    }
}

#[test]
fn rgb_report_carries_raw_channels() {
    let d = KeyboardRGBLightData::new(&Region::Right, &(10, 200, 255));
    assert_eq!(d.encode(), [1, 2, 64, 3, 10, 200, 255, 236]);
}

#[test]
fn mode_reports_of_normal_and_gaming() {
    assert_eq!(KeyboardModeData::new(&Mode::Normal).encode(), [1, 2, 65, 1, 0, 0, 0, 236]);
    assert_eq!(KeyboardModeData::new(&Mode::Gaming).encode(), [1, 2, 65, 2, 0, 0, 0, 236]);
}

#[test]
fn rgb_mode_is_sent_as_normal() {
    let rgb = KeyboardModeData::new(&Mode::RGB).encode();
    let normal = KeyboardModeData::new(&Mode::Normal).encode();
    assert_eq!(rgb, normal);
}

#[test]
fn into_gives_the_encoded_bytes() {
    let light: [u8; 8] = KeyboardLightData::new(&Region::Left, &Color::Red, &Brightness::Low).into();
    assert_eq!(light, [1, 2, 66, 1, 1, 1, 0, 236]);
    let rgb: [u8; 8] = KeyboardRGBLightData::new(&Region::Left, &(1, 2, 3)).into();
    assert_eq!(rgb, [1, 2, 64, 1, 1, 2, 3, 236]);
    let mode: [u8; 8] = KeyboardModeData::new(&Mode::RGB).into();
    assert_eq!(mode, [1, 2, 65, 1, 0, 0, 0, 236]);
}

#[test]
fn all_region_code_is_the_marker() {
    assert_eq!(Region::All.code(), 255);
    assert_eq!(Mode::RGB.code(), 255);
    assert_eq!(Mode::RGB.on_wire(), Mode::Normal);
}

#[test]
fn tag_byte_reads_back_the_command_kind() {
    let light = KeyboardLightData::new(&Region::Left, &Color::Blue, &Brightness::Dark).encode();
    let rgb = KeyboardRGBLightData::new(&Region::Middle, &(0, 0, 0)).encode();
    let mode = KeyboardModeData::new(&Mode::Gaming).encode();
    assert_eq!(command_kind(&light), Some(CommandKind::Light));
    assert_eq!(command_kind(&rgb), Some(CommandKind::RgbLight));
    assert_eq!(command_kind(&mode), Some(CommandKind::Mode));
    assert_eq!(command_kind(&[1, 2, 67, 0, 0, 0, 0, 236]), None);
}

use msi_klc::{
    light_reports, mode_reports, off_reports, reset_reports, rgb_light_reports, set_reports, targets,
    Brightness, Color, KeyboardLightData, KeyboardModeData, KeyboardRGBLightData, Mode, Region,
};

#[test]
fn all_expands_to_left_middle_right() {
    assert_eq!(targets(Region::All), vec![Region::Left, Region::Middle, Region::Right]);
    assert_eq!(targets(Region::Middle), vec![Region::Middle]);
}

#[test]
fn set_color_all_sends_three_reports_in_order() {
    let all = KeyboardLightData::new(&Region::All, &Color::Green, &Brightness::Low);
    let sent = light_reports(&all);
    assert_eq!(sent.len(), 3);
    for (i, region) in [Region::Left, Region::Middle, Region::Right].iter().enumerate() {
        let single = KeyboardLightData::new(region, &Color::Green, &Brightness::Low);
        assert_eq!(light_reports(&single), vec![single.encode()]);
        assert_eq!(sent[i], single.encode());
    }
}

#[test]
fn set_rgb_color_all_sends_three_reports_in_order() {
    let all = KeyboardRGBLightData::new(&Region::All, &(9, 8, 7));
    assert_eq!(
        rgb_light_reports(&all),
        vec![
            [1, 2, 64, 1, 9, 8, 7, 236],
            [1, 2, 64, 2, 9, 8, 7, 236],
            [1, 2, 64, 3, 9, 8, 7, 236],
        ]
    );
}

#[test]
fn set_rgb_color_single_region_sends_one_report() {
    let d = KeyboardRGBLightData::new(&Region::Left, &(255, 0, 0));
    assert_eq!(rgb_light_reports(&d), vec![[1, 2, 64, 1, 255, 0, 0, 236]]);
}

#[test]
fn set_mode_rgb_sends_normal() {
    assert_eq!(
        mode_reports(&KeyboardModeData::new(&Mode::RGB)),
        vec![[1, 2, 65, 1, 0, 0, 0, 236]]
    );
}

#[test]
fn reset_sends_white_dark_then_normal() {
    assert_eq!(
        reset_reports(),
        vec![
            [1, 2, 66, 1, 8, 0, 0, 236],
            [1, 2, 66, 2, 8, 0, 0, 236],
            [1, 2, 66, 3, 8, 0, 0, 236],
            [1, 2, 65, 1, 0, 0, 0, 236],
        ]
    );
}

#[test]
fn off_sends_off_medium_then_normal() {
    assert_eq!(
        off_reports(),
        vec![
            [1, 2, 66, 1, 0, 2, 0, 236],
            [1, 2, 66, 2, 0, 2, 0, 236],
            [1, 2, 66, 3, 0, 2, 0, 236],
            [1, 2, 65, 1, 0, 0, 0, 236],
        ]
    );
}

#[test]
fn set_palette_color_is_followed_by_the_mode() {
    assert_eq!(
        set_reports(Region::Right, &"Blue".to_string(), Brightness::High, Mode::Gaming),
        vec![[1, 2, 66, 3, 6, 3, 0, 236], [1, 2, 65, 2, 0, 0, 0, 236]]
    );
}

#[test]
fn set_rgb_color_sends_no_mode() {
    assert_eq!(
        set_reports(Region::All, &"0x102030".to_string(), Brightness::Low, Mode::RGB),
        vec![
            [1, 2, 64, 1, 16, 32, 48, 236],
            [1, 2, 64, 2, 16, 32, 48, 236],
            [1, 2, 64, 3, 16, 32, 48, 236],
        ]
    );
}

#[test]
fn set_color_single_region_sends_one_report() {
    let d = KeyboardLightData::new(&Region::Middle, &Color::Yellow, &Brightness::Medium);
    assert_eq!(light_reports(&d), vec![[1, 2, 66, 2, 3, 2, 0, 236]]);
}

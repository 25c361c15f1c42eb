use msi_klc::{parse_script, Directive, KeyboardRGBLightData, Player, Region};

fn set(region: Region, rgb: (u8, u8, u8)) -> Directive {
    Directive::SetColor(KeyboardRGBLightData::new(&region, &rgb))
}

fn play_up_to(text: &str, limit: usize) -> Vec<Directive> {
    let mut player = Player::new(parse_script(&text.to_string()));
    let mut out = Vec::new();
    while out.len() < limit {
        match player.next_directive() {
            Some(d) => out.push(d),
            None => break,
        }
    }
    out
}

#[test]
fn two_colors_and_one_pause_then_done() {
    let text = "region:left, color:#ff0000\nsleep:10\nregion:right,color:#00ff00";
    let script = parse_script(&text.to_string());
    assert!(!script.looping);
    assert_eq!(
        play_up_to(text, 100),
        vec![set(Region::Left, (255, 0, 0)), Directive::Sleep(10), set(Region::Right, (0, 255, 0))]
    );
}

#[test]
fn loop_forever_repeats_the_directives() {
    let text = "region:middle,color:1;2;3\nloop_forever\nsleep:5";
    let script = parse_script(&text.to_string());
    assert!(script.looping);
    let played = play_up_to(text, 7);
    let one = set(Region::Middle, (1, 2, 3));
    let two = Directive::Sleep(5);
    assert_eq!(played, vec![one, two, one, two, one, two, one]);
}

#[test]
fn reset_and_off_run_at_once_before_the_color() {
    let text = "color:#010203, reset, region:LEFT, off";
    assert_eq!(
        play_up_to(text, 10),
        vec![Directive::Reset, Directive::Off, set(Region::Left, (1, 2, 3))]
    );
}

#[test]
fn region_and_color_must_share_a_line() {
    assert_eq!(play_up_to("region:left\ncolor:#ffffff\n\n", 10), vec![]);
}

#[test]
fn bad_sleep_is_zero_and_unknown_tokens_do_nothing() {
    assert_eq!(
        play_up_to("sleep:soon\nblink:3\njump\n sleep : 7 ", 10),
        vec![Directive::Sleep(0), Directive::Sleep(7)]
    );
}

#[test]
fn last_setting_of_a_line_wins() {
    assert_eq!(
        play_up_to("region:left,color:#000001,region:sky,color:#000002", 10),
        vec![set(Region::All, (0, 0, 2))]
    );
}

#[test]
fn loop_forever_with_nothing_to_play_ends() {
    let script = parse_script(&"loop_forever\r\n".to_string());
    assert!(script.looping);
    assert!(script.directives.is_empty());
    assert_eq!(play_up_to("loop_forever", 10), vec![]);
}

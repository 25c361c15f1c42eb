//! What each keyboard operation sends: the reports, in the order in which they
//! go out. A session sends them one after another and stops at the first
//! failed write.
use crate::codec::{
    Brightness, Color, KeyboardLightData, KeyboardModeData, KeyboardRGBLightData, Mode, Region,
};
use crate::parser::{color_named, parse_color, parse_rgb_colors, rgb_written};
use crate::text::lower_of;
use vstd::prelude::*;

verus! {

/// USB vendor ID of the keyboard controller.
pub const VENDOR_ID: u16 = 0x1770;

/// USB product ID of the keyboard controller.
pub const PRODUCT_ID: u16 = 0xff00;

/// The bytes of each report of a list.
pub open spec fn reports_view(v: Seq<[u8; 8]>) -> Seq<Seq<u8>> {
    v.map_values(|a: [u8; 8]| a@)
}

/// The single regions that a command for `region` goes to, in order.
pub open spec fn spec_targets(region: Region) -> Seq<Region> {
    if region == Region::All {
        seq![Region::Left, Region::Middle, Region::Right]
    } else {
        seq![region]
    }
}

pub open spec fn light_in(d: KeyboardLightData, region: Region) -> KeyboardLightData {
    KeyboardLightData { region, ..d }
}

pub open spec fn rgb_in(d: KeyboardRGBLightData, region: Region) -> KeyboardRGBLightData {
    KeyboardRGBLightData { region, ..d }
}

/// The reports of a palette color command: one for each target region.
pub open spec fn spec_light_reports(d: KeyboardLightData) -> Seq<Seq<u8>> {
    spec_targets(d.region).map_values(|r: Region| light_in(d, r).spec_encode())
}

/// The reports of a raw RGB color command: one for each target region.
pub open spec fn spec_rgb_light_reports(d: KeyboardRGBLightData) -> Seq<Seq<u8>> {
    spec_targets(d.region).map_values(|r: Region| rgb_in(d, r).spec_encode())
}

/// The reports that set the three regions to one palette color, then the
/// `Normal` mode.
pub open spec fn spec_all_regions_then_normal(color: Color, brightness: Brightness) -> Seq<
    Seq<u8>,
> {
    spec_light_reports(KeyboardLightData { region: Region::All, color, brightness }).push(
        KeyboardModeData { mode: Mode::Normal }.spec_encode(),
    )
}

/// The reports of `reset`: the three regions white and dark, then `Normal`.
pub open spec fn spec_reset_reports() -> Seq<Seq<u8>> {
    spec_all_regions_then_normal(Color::White, Brightness::Dark)
}

/// The reports of `off`: the three regions off at medium brightness, then
/// `Normal`.
pub open spec fn spec_off_reports() -> Seq<Seq<u8>> {
    spec_all_regions_then_normal(Color::Off, Brightness::Medium)
}

/// The single regions that a command for `region` goes to: `All` becomes
/// `Left`, `Middle`, `Right`, in that order.
pub fn targets(region: Region) -> (r: Vec<Region>)
    ensures
        r@ == spec_targets(region),
{
    let r = if region == Region::All {
        vec![Region::Left, Region::Middle, Region::Right]
    } else {
        vec![region]
    };
    assert(r@ =~= spec_targets(region));
    r
}

/// The reports that set a palette color, in the order in which they are sent.
pub fn light_reports(d: &KeyboardLightData) -> (r: Vec<[u8; 8]>)
    ensures
        reports_view(r@) == spec_light_reports(*d),
{
    let regions = targets(d.region);
    let mut r: Vec<[u8; 8]> = Vec::new();
    for i in 0..regions.len()
        invariant
            regions@ == spec_targets(d.region),
            reports_view(r@) == spec_light_reports(*d).take(i as int),
    {
        let one = KeyboardLightData { region: regions[i], ..*d };
        let report = one.encode();
        let ghost before = r@;
        r.push(report);
        assert(spec_light_reports(*d)[i as int] == light_in(*d, regions@[i as int]).spec_encode());
        assert(reports_view(r@) =~= reports_view(before).push(report@));
        assert(reports_view(r@) =~= spec_light_reports(*d).take(i + 1));
    }
    assert(spec_light_reports(*d).take(regions.len() as int) =~= spec_light_reports(*d));
    r
}

/// The reports that set a raw RGB color, in the order in which they are sent.
pub fn rgb_light_reports(d: &KeyboardRGBLightData) -> (r: Vec<[u8; 8]>)
    ensures
        reports_view(r@) == spec_rgb_light_reports(*d),
{
    let regions = targets(d.region);
    let mut r: Vec<[u8; 8]> = Vec::new();
    for i in 0..regions.len()
        invariant
            regions@ == spec_targets(d.region),
            reports_view(r@) == spec_rgb_light_reports(*d).take(i as int),
    {
        let one = KeyboardRGBLightData { region: regions[i], ..*d };
        let report = one.encode();
        let ghost before = r@;
        r.push(report);
        assert(spec_rgb_light_reports(*d)[i as int] == rgb_in(*d, regions@[i as int]).spec_encode());
        assert(reports_view(r@) =~= reports_view(before).push(report@));
        assert(reports_view(r@) =~= spec_rgb_light_reports(*d).take(i + 1));
    }
    assert(spec_rgb_light_reports(*d).take(regions.len() as int) =~= spec_rgb_light_reports(*d));
    r
}

/// The report that sets the mode; `RGB` goes out as `Normal`.
pub fn mode_reports(d: &KeyboardModeData) -> (r: Vec<[u8; 8]>)
    ensures
        reports_view(r@) == seq![d.spec_encode()],
{
    let r = vec![d.encode()];
    assert(reports_view(r@) =~= seq![d.spec_encode()]);
    r
}

fn all_regions_then_normal(color: Color, brightness: Brightness) -> (r: Vec<[u8; 8]>)
    ensures
        reports_view(r@) == spec_all_regions_then_normal(color, brightness),
{
    let d = KeyboardLightData { region: Region::All, color, brightness };
    let mut r = light_reports(&d);
    let mode = KeyboardModeData { mode: Mode::Normal };
    let ghost before = r@;
    r.push(mode.encode());
    assert(reports_view(r@) =~= reports_view(before).push(mode.spec_encode()));
    r
}

/// The reports of `reset`: every region white and dark, then the `Normal` mode.
pub fn reset_reports() -> (r: Vec<[u8; 8]>)
    ensures
        reports_view(r@) == spec_reset_reports(),
{
    all_regions_then_normal(Color::White, Brightness::Dark)
}

/// The reports of `off`: every region off at medium brightness, then the
/// `Normal` mode.
pub fn off_reports() -> (r: Vec<[u8; 8]>)
    ensures
        reports_view(r@) == spec_off_reports(),
{
    all_regions_then_normal(Color::Off, Brightness::Medium)
}

/// The reports of a `set` command whose color text is `color` and reads
/// `lowered` once lowercased. In the `RGB` mode the text is a raw color and
/// no mode report follows, the controller having no such mode; in any other
/// mode it names a palette color, and the mode report follows the color.
pub open spec fn spec_set_reports(
    region: Region,
    color: Seq<char>,
    lowered: Seq<char>,
    brightness: Brightness,
    mode: Mode,
) -> Seq<Seq<u8>> {
    if mode == Mode::RGB {
        let rgb = rgb_written(color);
        spec_rgb_light_reports(KeyboardRGBLightData { region, color: (rgb[0], rgb[1], rgb[2]) })
    } else {
        spec_light_reports(
            KeyboardLightData { region, color: color_named(lowered), brightness },
        ).push(KeyboardModeData { mode }.spec_encode())
    }
}

/// The reports of a `set` command, in the order in which they are sent.
pub fn set_reports(region: Region, color: &String, brightness: Brightness, mode: Mode) -> (r: Vec<
    [u8; 8],
>)
    ensures
        reports_view(r@) == spec_set_reports(region, color@, lower_of(color@), brightness, mode),
{
    if mode == Mode::RGB {
        let rgb = parse_rgb_colors(color);
        rgb_light_reports(&KeyboardRGBLightData { region, color: (rgb[0], rgb[1], rgb[2]) })
    } else {
        let light = KeyboardLightData { region, color: parse_color(color), brightness };
        let mut r = light_reports(&light);
        let mode_data = KeyboardModeData { mode };
        let ghost before = r@;
        r.push(mode_data.encode());
        assert(reports_view(r@) =~= reports_view(before).push(mode_data.spec_encode()));
        r
    }
}

/// A color command for `All` sends exactly three reports: those of the same
/// command for `Left`, `Middle` and `Right`, in that order.
pub proof fn lemma_all_fans_out(d: KeyboardLightData, e: KeyboardRGBLightData)
    requires
        d.region == Region::All,
        e.region == Region::All,
    ensures
        spec_light_reports(d).len() == 3,
        spec_light_reports(d) == spec_light_reports(light_in(d, Region::Left))
            + spec_light_reports(light_in(d, Region::Middle)) + spec_light_reports(
            light_in(d, Region::Right),
        ),
        spec_rgb_light_reports(e).len() == 3,
        spec_rgb_light_reports(e) == spec_rgb_light_reports(rgb_in(e, Region::Left))
            + spec_rgb_light_reports(rgb_in(e, Region::Middle)) + spec_rgb_light_reports(
            rgb_in(e, Region::Right),
        ),
{
    assert(spec_light_reports(d) =~= spec_light_reports(light_in(d, Region::Left))
        + spec_light_reports(light_in(d, Region::Middle)) + spec_light_reports(
        light_in(d, Region::Right),
    ));
    assert(spec_rgb_light_reports(e) =~= spec_rgb_light_reports(rgb_in(e, Region::Left))
        + spec_rgb_light_reports(rgb_in(e, Region::Middle)) + spec_rgb_light_reports(
        rgb_in(e, Region::Right),
    ));
}

/// No report that a session sends names `All` or the `RGB` mode: byte 3 is
/// always one of the device's own codes.
pub proof fn lemma_no_meta_value_on_wire(
    d: KeyboardLightData,
    e: KeyboardRGBLightData,
    m: KeyboardModeData,
)
    ensures
        forall|i: int| 0 <= i < spec_light_reports(d).len() ==> 1 <= #[trigger] spec_light_reports(d)[i][3] <= 3,
        forall|i: int| 0 <= i < spec_rgb_light_reports(e).len() ==> 1 <= #[trigger] spec_rgb_light_reports(e)[i][3] <= 3,
        1 <= m.spec_encode()[3] <= 2,
{
}

} // verus!

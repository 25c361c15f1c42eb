//! The wire format of the keyboard controller: every command travels as one
//! 8-byte HID feature report.
use vstd::prelude::*;

verus! {

broadcast use vstd::array::group_array_axioms;

/// First byte of every report.
pub const HEADER_0: u8 = 1;

/// Second byte of every report.
pub const HEADER_1: u8 = 2;

/// Last byte of every report.
pub const TRAILER: u8 = 236;

/// Command tag of a palette light report.
pub const TAG_LIGHT: u8 = 66;

/// Command tag of a raw RGB light report.
pub const TAG_RGB_LIGHT: u8 = 64;

/// Command tag of a mode report.
pub const TAG_MODE: u8 = 65;

/// The three lit zones of the keyboard. `All` stands for the three of them and
/// is expanded into `Left`, `Middle`, `Right` before anything is sent.
#[derive(Debug, Clone, Copy, PartialEq, Eq, Structural)]
pub enum Region {
    Left,
    Middle,
    Right,
    All,
}

impl Region {
    pub open spec fn spec_code(self) -> u8 {
        match self {
            Region::Left => 1,
            Region::Middle => 2,
            Region::Right => 3,
            Region::All => 255,
        }
    }

    /// The byte that names this region on the wire.
    #[verifier::when_used_as_spec(spec_code)]
    pub fn code(self) -> (r: u8)
        ensures
            r == self.spec_code(),
    {
        match self {
            Region::Left => 1,
            Region::Middle => 2,
            Region::Right => 3,
            Region::All => 255,
        }
    }
}

/// The eight palette colors of the controller, and `Off`.
#[derive(Debug, Clone, Copy, PartialEq, Eq, Structural)]
pub enum Color {
    Off,
    Red,
    Orange,
    Yellow,
    Green,
    Sky,
    Blue,
    Purple,
    White,
}

impl Color {
    pub open spec fn spec_code(self) -> u8 {
        match self {
            Color::Off => 0,
            Color::Red => 1,
            Color::Orange => 2,
            Color::Yellow => 3,
            Color::Green => 4,
            Color::Sky => 5,
            Color::Blue => 6,
            Color::Purple => 7,
            Color::White => 8,
        }
    }

    /// The byte that names this color on the wire.
    #[verifier::when_used_as_spec(spec_code)]
    pub fn code(self) -> (r: u8)
        ensures
            r == self.spec_code(),
    {
        match self {
            Color::Off => 0,
            Color::Red => 1,
            Color::Orange => 2,
            Color::Yellow => 3,
            Color::Green => 4,
            Color::Sky => 5,
            Color::Blue => 6,
            Color::Purple => 7,
            Color::White => 8,
        }
    }
}

/// Saturation of the palette colors. Raw RGB colors ignore it.
#[derive(Debug, Clone, Copy, PartialEq, Eq, Structural)]
pub enum Brightness {
    Dark,
    Low,
    Medium,
    High,
}

impl Brightness {
    pub open spec fn spec_code(self) -> u8 {
        match self {
            Brightness::Dark => 0,
            Brightness::Low => 1,
            Brightness::Medium => 2,
            Brightness::High => 3,
        }
    }

    /// The byte that names this brightness on the wire.
    #[verifier::when_used_as_spec(spec_code)]
    pub fn code(self) -> (r: u8)
        ensures
            r == self.spec_code(),
    {
        match self {
            Brightness::Dark => 0,
            Brightness::Low => 1,
            Brightness::Medium => 2,
            Brightness::High => 3,
        }
    }
}

/// Global mode of the keyboard. `RGB` only says that raw colors are in use:
/// the controller has no such mode, and it is sent as `Normal`.
#[derive(Debug, Clone, Copy, PartialEq, Eq, Structural)]
pub enum Mode {
    /// All lights on the keyboard.
    Normal,
    /// Only the left side of the keyboard.
    Gaming,
    /// Raw RGB colors; sent as `Normal`.
    RGB,
}

impl Mode {
    pub open spec fn spec_code(self) -> u8 {
        match self {
            Mode::Normal => 1,
            Mode::Gaming => 2,
            Mode::RGB => 255,
        }
    }

    /// The byte that names this mode; `RGB` keeps its marker value here and is
    /// replaced by `Normal` when a report is built.
    #[verifier::when_used_as_spec(spec_code)]
    pub fn code(self) -> (r: u8)
        ensures
            r == self.spec_code(),
    {
        match self {
            Mode::Normal => 1,
            Mode::Gaming => 2,
            Mode::RGB => 255,
        }
    }

    /// The mode that is actually sent: `RGB` becomes `Normal`.
    pub open spec fn spec_on_wire(self) -> Mode {
        match self {
            Mode::RGB => Mode::Normal,
            _ => self,
        }
    }

    #[verifier::when_used_as_spec(spec_on_wire)]
    pub fn on_wire(self) -> (r: Mode)
        ensures
            r == self.spec_on_wire(),
    {
        match self {
            Mode::RGB => Mode::Normal,
            _ => self,
        }
    }
}

/// The report `[1, 2, tag, a, b, c, d, 236]`.
pub open spec fn report(tag: u8, a: u8, b: u8, c: u8, d: u8) -> Seq<u8> {
    seq![HEADER_0, HEADER_1, tag, a, b, c, d, TRAILER]
}

/// Regular keyboard light data: region, palette color and brightness.
#[derive(Debug, Clone, Copy, PartialEq, Eq, Structural)]
pub struct KeyboardLightData {
    pub region: Region,
    pub color: Color,
    pub brightness: Brightness,
}

impl KeyboardLightData {
    pub fn new(region: &Region, color: &Color, brightness: &Brightness) -> (r: Self)
        ensures
            r == (KeyboardLightData { region: *region, color: *color, brightness: *brightness }),
    {
        KeyboardLightData { region: *region, color: *color, brightness: *brightness }
    }

    /// The bytes of this command: `[1, 2, 66, region, color, brightness, 0, 236]`.
    pub open spec fn spec_encode(self) -> Seq<u8> {
        report(
            TAG_LIGHT,
            self.region.spec_code(),
            self.color.spec_code(),
            self.brightness.spec_code(),
            0,
        )
    }

    pub fn encode(&self) -> (r: [u8; 8])
        ensures
            r@ == self.spec_encode(),
    {
        let r = [
            HEADER_0,
            HEADER_1,
            TAG_LIGHT,
            self.region.code(),
            self.color.code(),
            self.brightness.code(),
            0,
            TRAILER,
        ];
        assert(r@ =~= self.spec_encode());
        r
    }
}

/// Raw RGB keyboard light data: region and (red, green, blue).
#[derive(Debug, Clone, Copy)]
pub struct KeyboardRGBLightData {
    pub region: Region,
    pub color: (u8, u8, u8),
}

impl KeyboardRGBLightData {
    pub fn new(region: &Region, color: &(u8, u8, u8)) -> (r: Self)
        ensures
            r == (KeyboardRGBLightData { region: *region, color: *color }),
    {
        KeyboardRGBLightData { region: *region, color: *color }
    }

    /// The bytes of this command: `[1, 2, 64, region, r, g, b, 236]`.
    pub open spec fn spec_encode(self) -> Seq<u8> {
        report(TAG_RGB_LIGHT, self.region.spec_code(), self.color.0, self.color.1, self.color.2)
    }

    pub fn encode(&self) -> (r: [u8; 8])
        ensures
            r@ == self.spec_encode(),
    {
        let r = [
            HEADER_0,
            HEADER_1,
            TAG_RGB_LIGHT,
            self.region.code(),
            self.color.0,
            self.color.1,
            self.color.2,
            TRAILER,
        ];
        assert(r@ =~= self.spec_encode());
        r
    }
}

impl PartialEq for KeyboardRGBLightData {
    fn eq(&self, o: &KeyboardRGBLightData) -> (r: bool) {
        self.region == o.region && self.color.0 == o.color.0 && self.color.1 == o.color.1
            && self.color.2 == o.color.2
    }
}

impl vstd::std_specs::cmp::PartialEqSpecImpl for KeyboardRGBLightData {
    open spec fn obeys_eq_spec() -> bool {
        true
    }

    open spec fn eq_spec(&self, o: &KeyboardRGBLightData) -> bool {
        *self == *o
    }
}

impl Eq for KeyboardRGBLightData {

}

/// Keyboard mode data.
#[derive(Debug, Clone, Copy, PartialEq, Eq, Structural)]
pub struct KeyboardModeData {
    pub mode: Mode,
}

impl KeyboardModeData {
    pub fn new(mode: &Mode) -> (r: Self)
        ensures
            r == (KeyboardModeData { mode: *mode }),
    {
        KeyboardModeData { mode: *mode }
    }

    /// The bytes of this command: `[1, 2, 65, mode, 0, 0, 0, 236]`, where
    /// `RGB` is sent as `Normal`.
    pub open spec fn spec_encode(self) -> Seq<u8> {
        report(TAG_MODE, self.mode.spec_on_wire().spec_code(), 0, 0, 0)
    }

    pub fn encode(&self) -> (r: [u8; 8])
        ensures
            r@ == self.spec_encode(),
    {
        let r = [HEADER_0, HEADER_1, TAG_MODE, self.mode.on_wire().code(), 0, 0, 0, TRAILER];
        assert(r@ =~= self.spec_encode());
        r
    }
}

/// The array whose bytes are `s`.
pub open spec fn report_array(s: Seq<u8>) -> [u8; 8] {
    choose|a: [u8; 8]| a@ == s
}

proof fn lemma_report_array(a: [u8; 8], s: Seq<u8>)
    requires
        a@ == s,
    ensures
        report_array(s) == a,
{
    let b = report_array(s);
    assert(b@ == s);
    assert(a@ =~= b@);
}

impl From<KeyboardLightData> for [u8; 8] {
    fn from(d: KeyboardLightData) -> (r: [u8; 8]) {
        let r = d.encode();
        proof {
            lemma_report_array(r, d.spec_encode());
        }
        r
    }
}

impl vstd::std_specs::convert::FromSpecImpl<KeyboardLightData> for [u8; 8] {
    open spec fn obeys_from_spec() -> bool {
        true
    }

    open spec fn from_spec(d: KeyboardLightData) -> [u8; 8] {
        report_array(d.spec_encode())
    }
}

impl From<KeyboardRGBLightData> for [u8; 8] {
    fn from(d: KeyboardRGBLightData) -> (r: [u8; 8]) {
        let r = d.encode();
        proof {
            lemma_report_array(r, d.spec_encode());
        }
        r
    }
}

impl vstd::std_specs::convert::FromSpecImpl<KeyboardRGBLightData> for [u8; 8] {
    open spec fn obeys_from_spec() -> bool {
        true
    }

    open spec fn from_spec(d: KeyboardRGBLightData) -> [u8; 8] {
        report_array(d.spec_encode())
    }
}

impl From<KeyboardModeData> for [u8; 8] {
    fn from(d: KeyboardModeData) -> (r: [u8; 8]) {
        let r = d.encode();
        proof {
            lemma_report_array(r, d.spec_encode());
        }
        r
    }
}

impl vstd::std_specs::convert::FromSpecImpl<KeyboardModeData> for [u8; 8] {
    open spec fn obeys_from_spec() -> bool {
        true
    }

    open spec fn from_spec(d: KeyboardModeData) -> [u8; 8] {
        report_array(d.spec_encode())
    }
}

/// The kind of command that a report carries.
#[derive(Debug, Clone, Copy, PartialEq, Eq, Structural)]
pub enum CommandKind {
    Light,
    RgbLight,
    Mode,
}

/// The kind named by the tag byte of a report, if the tag is a known one.
pub open spec fn spec_command_kind(report: Seq<u8>) -> Option<CommandKind>
    recommends
        report.len() == 8,
{
    if report[2] == TAG_LIGHT {
        Some(CommandKind::Light)
    } else if report[2] == TAG_RGB_LIGHT {
        Some(CommandKind::RgbLight)
    } else if report[2] == TAG_MODE {
        Some(CommandKind::Mode)
    } else {
        None
    }
}

/// Reads back the kind of command from the tag byte of a report.
pub fn command_kind(report: &[u8; 8]) -> (r: Option<CommandKind>)
    ensures
        r == spec_command_kind(report@),
{
    let tag = report[2];
    if tag == TAG_LIGHT {
        Some(CommandKind::Light)
    } else if tag == TAG_RGB_LIGHT {
        Some(CommandKind::RgbLight)
    } else if tag == TAG_MODE {
        Some(CommandKind::Mode)
    } else {
        None
    }
}

/// Every report starts with the header `1, 2`, ends with `236`, and its tag
/// byte reads back as the kind of command that was encoded.
pub proof fn lemma_encode_kind_round_trip(
    light: KeyboardLightData,
    rgb: KeyboardRGBLightData,
    mode: KeyboardModeData,
)
    ensures
        spec_command_kind(light.spec_encode()) == Some(CommandKind::Light),
        spec_command_kind(rgb.spec_encode()) == Some(CommandKind::RgbLight),
        spec_command_kind(mode.spec_encode()) == Some(CommandKind::Mode),
        light.spec_encode().len() == 8 && rgb.spec_encode().len() == 8
            && mode.spec_encode().len() == 8,
        light.spec_encode()[0] == 1 && rgb.spec_encode()[0] == 1 && mode.spec_encode()[0] == 1,
        light.spec_encode()[1] == 2 && rgb.spec_encode()[1] == 2 && mode.spec_encode()[1] == 2,
        light.spec_encode()[7] == 236 && rgb.spec_encode()[7] == 236 && mode.spec_encode()[7]
            == 236,
{
}

} // verus!

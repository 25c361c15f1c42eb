//! Lighting control for the three-zone keyboards of MSI laptops. Commands
//! are encoded as 8-byte HID feature reports; user input and animation
//! scripts are read into those commands.
pub mod animation;
pub mod codec;
pub mod parser;
pub mod session;
pub mod text;

pub use animation::{parse_script, Directive, Player, Script};
pub use codec::{
    command_kind, Brightness, Color, CommandKind, KeyboardLightData, KeyboardModeData,
    KeyboardRGBLightData, Mode, Region,
};
pub use parser::{
    brightness_from_lowercase, color_from_lowercase, mode_from_lowercase, parse_brightness,
    parse_color, parse_mode, parse_region, parse_rgb_colors, region_from_lowercase,
};
pub use session::{
    light_reports, mode_reports, off_reports, reset_reports, rgb_light_reports, set_reports,
    targets, PRODUCT_ID, VENDOR_ID,
};

use vstd::prelude::*;
use crate::highlight::Color;

verus! {

/// A named palette.
pub struct Theme {
    pub rosewater: Color,
    pub flamingo: Color,
    pub pink: Color,
    pub mauve: Color,
    pub red: Color,
    pub maroon: Color,
    pub peach: Color,
    pub yellow: Color,
    pub green: Color,
    pub teal: Color,
    pub sky: Color,
    pub sapphire: Color,
    pub blue: Color,
    pub lavender: Color,
    pub text: Color,
    pub subtext1: Color,
    pub subtext0: Color,
    pub overlay2: Color,
    pub overlay1: Color,
    pub overlay0: Color,
    pub surface2: Color,
    pub surface1: Color,
    pub surface0: Color,
    pub base: Color,
    pub mantle: Color,
    pub crust: Color,
}

pub open spec fn hex_color(hex: u32) -> Color {
    Color { r: ((hex / 0x10000) % 0x100) as u8, g: ((hex / 0x100) % 0x100) as u8, b: (hex % 0x100) as u8, a: 255 }
}

impl Theme {
    /// The Catppuccin Mocha palette.
    pub fn mocha() -> (t: Theme)
        ensures
            t.rosewater == hex_color(0xf5e0dc),
            t.flamingo == hex_color(0xf2cdcd),
            t.pink == hex_color(0xf5c2e7),
            t.mauve == hex_color(0xcba6f7),
            t.red == hex_color(0xf38ba8),
            t.maroon == hex_color(0xeba0ac),
            t.peach == hex_color(0xfab387),
            t.yellow == hex_color(0xf9e2af),
            t.green == hex_color(0xa6e3a1),
            t.teal == hex_color(0x94e2d5),
            t.sky == hex_color(0x89dceb),
            t.sapphire == hex_color(0x74c7ec),
            t.blue == hex_color(0x89b4fa),
            t.lavender == hex_color(0xb4befe),
            t.text == hex_color(0xcdd6f4),
            t.subtext1 == hex_color(0xbac2de),
            t.subtext0 == hex_color(0xa6adc8),
            t.overlay2 == hex_color(0x9399b2),
            t.overlay1 == hex_color(0x7f849c),
            t.overlay0 == hex_color(0x6c7086),
            t.surface2 == hex_color(0x585b70),
            t.surface1 == hex_color(0x45475a),
            t.surface0 == hex_color(0x313244),
            t.base == hex_color(0x1e1e2e),
            t.mantle == hex_color(0x181825),
            t.crust == hex_color(0x11111b),
    {
        Theme {
            rosewater: Color::from_hex(0xf5e0dc),
            flamingo: Color::from_hex(0xf2cdcd),
            pink: Color::from_hex(0xf5c2e7),
            mauve: Color::from_hex(0xcba6f7),
            red: Color::from_hex(0xf38ba8),
            maroon: Color::from_hex(0xeba0ac),
            peach: Color::from_hex(0xfab387),
            yellow: Color::from_hex(0xf9e2af),
            green: Color::from_hex(0xa6e3a1),
            teal: Color::from_hex(0x94e2d5),
            sky: Color::from_hex(0x89dceb),
            sapphire: Color::from_hex(0x74c7ec),
            blue: Color::from_hex(0x89b4fa),
            lavender: Color::from_hex(0xb4befe),
            text: Color::from_hex(0xcdd6f4),
            subtext1: Color::from_hex(0xbac2de),
            subtext0: Color::from_hex(0xa6adc8),
            overlay2: Color::from_hex(0x9399b2),
            overlay1: Color::from_hex(0x7f849c),
            overlay0: Color::from_hex(0x6c7086),
            surface2: Color::from_hex(0x585b70),
            surface1: Color::from_hex(0x45475a),
            surface0: Color::from_hex(0x313244),
            base: Color::from_hex(0x1e1e2e),
            mantle: Color::from_hex(0x181825),
            crust: Color::from_hex(0x11111b),
        }
    }
}

} // verus!

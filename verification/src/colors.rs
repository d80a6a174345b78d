//! Colors of the interface: the palette written as hexadecimal RGB, and the
//! colors of marks and teams.
use crate::player_database::PlayerAttribute;
use crate::scoreboard::Team;
use vstd::prelude::*;

verus! {

/// A color given by its red, green and blue parts.
#[derive(Debug, Clone, Copy, PartialEq, Eq, Structural)]
pub struct Rgb {
    pub r: u8,
    pub g: u8,
    pub b: u8,
}

/// A color: one of the toolkit's named colors, or red, green and blue parts.
#[derive(Debug, Clone, Copy, PartialEq, Eq, Structural)]
pub enum NamedColor {
    Black,
    White,
    Gold,
    Gray,
    LightGray,
    LightGreen,
    Custom(Rgb),
}

/// The color written `0xRRGGBB`.
pub open spec fn rgb_of_hex(hex: u32) -> Rgb {
    Rgb {
        r: ((hex as int / 65536) % 256) as u8,
        g: ((hex as int / 256) % 256) as u8,
        b: (hex as int % 256) as u8,
    }
}

pub fn hex_to_rgb(hex: u32) -> (r: Rgb)
    ensures
        r == rgb_of_hex(hex),
{
    let r = ((hex >> 16) & 0xFF) as u8;
    let g = ((hex >> 8) & 0xFF) as u8;
    let b = (hex & 0xFF) as u8;
    assert(((hex >> 16) & 0xFF) == (hex / 65536) % 256) by (bit_vector);
    assert(((hex >> 8) & 0xFF) == (hex / 256) % 256) by (bit_vector);
    assert((hex & 0xFF) == hex % 256) by (bit_vector);
    Rgb { r, g, b }
}

/// The (text color, background color) of the badge of a mark.
pub open spec fn flag_colors(a: PlayerAttribute) -> (NamedColor, NamedColor) {
    match a {
        PlayerAttribute::Cool => (NamedColor::Black, NamedColor::Gold),
        PlayerAttribute::Cheater => (NamedColor::Black, NamedColor::Custom(rgb_of_hex(0xff006e))),
        PlayerAttribute::Bot => (NamedColor::Black, NamedColor::Custom(rgb_of_hex(0xff0000))),
        PlayerAttribute::Suspicious => (
            NamedColor::Black,
            NamedColor::Custom(Rgb { r: 0xf0, g: 0x81, b: 0x49 }),
        ),
        PlayerAttribute::Toxic => (NamedColor::Black, NamedColor::White),
        PlayerAttribute::Exploiter => (NamedColor::Black, NamedColor::LightGreen),
    }
}

/// Returns the (text color, background color) for a given PlayerAttribute.
pub fn color_for_flag(player_attribute: PlayerAttribute) -> (r: (NamedColor, NamedColor))
    ensures
        r == flag_colors(player_attribute),
{
    match player_attribute {
        PlayerAttribute::Cool => (NamedColor::Black, NamedColor::Gold),
        PlayerAttribute::Cheater => (NamedColor::Black, NamedColor::Custom(hex_to_rgb(0xff006e))),
        PlayerAttribute::Bot => (NamedColor::Black, NamedColor::Custom(hex_to_rgb(0xff0000))),
        PlayerAttribute::Suspicious => (
            NamedColor::Black,
            NamedColor::Custom(Rgb { r: 0xf0, g: 0x81, b: 0x49 }),
        ),
        PlayerAttribute::Toxic => (NamedColor::Black, NamedColor::White),
        PlayerAttribute::Exploiter => (NamedColor::Black, NamedColor::LightGreen),
    }
}

/// The color of a player's name in the chat and kill feed, by team.
pub open spec fn feed_team_color(team: Team) -> NamedColor {
    match team {
        Team::Blue => NamedColor::Custom(rgb_of_hex(0x99CCFF)),
        Team::Red => NamedColor::Custom(rgb_of_hex(0xFF4040)),
        _ => NamedColor::Gray,
    }
}

pub fn chat_team_color(team: Team) -> (r: NamedColor)
    ensures
        r == feed_team_color(team),
{
    match team {
        Team::Blue => NamedColor::Custom(hex_to_rgb(0x99CCFF)),
        Team::Red => NamedColor::Custom(hex_to_rgb(0xFF4040)),
        _ => NamedColor::Gray,
    }
}

/// The color of a player's team mark on the scoreboard.
pub open spec fn scoreboard_team_color(team: Team) -> NamedColor {
    match team {
        Team::Blue => NamedColor::Custom(rgb_of_hex(0x5b7a8c)),
        Team::Red => NamedColor::Custom(rgb_of_hex(0xbd3b3b)),
        _ => NamedColor::Gray,
    }
}

pub fn team_symbol_color(team: Team) -> (r: NamedColor)
    ensures
        r == scoreboard_team_color(team),
{
    match team {
        Team::Blue => NamedColor::Custom(hex_to_rgb(0x5b7a8c)),
        Team::Red => NamedColor::Custom(hex_to_rgb(0xbd3b3b)),
        _ => NamedColor::Gray,
    }
}

} // verus!

use vstd::prelude::*;
use vstd::std_specs::convert::FromSpecImpl;

verus! {

/// A colour given by its red, green and blue channels.
#[derive(Debug, Clone, Copy, PartialEq, Eq, Structural)]
pub struct Rgb {
    pub r: u8,
    pub g: u8,
    pub b: u8,
}

impl Rgb {
    pub fn new(r: u8, g: u8, b: u8) -> (rgb: Self)
        ensures
            rgb == (Rgb { r, g, b }),
    {
        Rgb { r, g, b }
    }
}

/// A colour of a cell: an entry of the 256-colour palette, or a direct value
/// with 8-bit channels.
#[derive(Debug, Clone, Copy, PartialEq, Eq, Structural)]
pub enum Color {
    Indexed(u8),
    RGB(Rgb),
}

/// The low eight bits of a parameter.
pub open spec fn low_byte(value: u16) -> u8 {
    (value % 256) as u8
}

/// The low eight bits of a parameter.
pub fn channel(value: u16) -> (r: u8)
    ensures
        r == low_byte(value),
{
    (value % 256) as u8
}

impl From<u16> for Color {
    fn from(value: u16) -> (r: Self) {
        Color::Indexed(channel(value))
    }
}

impl FromSpecImpl<u16> for Color {
    open spec fn obeys_from_spec() -> bool {
        true
    }

    open spec fn from_spec(value: u16) -> Self {
        Color::Indexed(low_byte(value))
    }
}

impl From<(u16, u16, u16)> for Color {
    fn from(value: (u16, u16, u16)) -> (r: Self) {
        Color::RGB(Rgb::new(channel(value.0), channel(value.1), channel(value.2)))
    }
}

impl FromSpecImpl<(u16, u16, u16)> for Color {
    open spec fn obeys_from_spec() -> bool {
        true
    }

    open spec fn from_spec(value: (u16, u16, u16)) -> Self {
        Color::RGB(Rgb { r: low_byte(value.0), g: low_byte(value.1), b: low_byte(value.2) })
    }
}

} // verus!

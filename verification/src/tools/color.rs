//! Colours of three channels and their packed form.

use vstd::prelude::*;
use vstd::std_specs::convert::FromSpecImpl;

verus! {

/// A colour of three channels of eight bits each.
#[derive(Debug, Clone, Copy)]
pub struct Color {
    pub red: u8,
    pub green: u8,
    pub blue: u8,
}

/// The colour that a packed value stands for: blue in the lowest eight
/// bits, green in the next eight, red in the eight above; higher bits do
/// not count.
pub open spec fn unpack(value: u32) -> Color {
    Color {
        red: ((value / 0x1_0000) % 0x100) as u8,
        green: ((value / 0x100) % 0x100) as u8,
        blue: (value % 0x100) as u8,
    }
}

/// The packed value of a colour.
pub open spec fn pack(color: Color) -> u32 {
    (color.red * 0x1_0000 + color.green * 0x100 + color.blue) as u32
}

/// How far two channels are apart.
pub open spec fn gap(a: u8, b: u8) -> int {
    if a > b {
        a - b
    } else {
        b - a
    }
}

/// The sum of the distances of the three channels.
pub open spec fn distance(a: Color, b: Color) -> int {
    gap(a.red, b.red) + gap(a.green, b.green) + gap(a.blue, b.blue)
}

impl Default for Color {
    /// Black.
    fn default() -> (black: Self)
        ensures
            black == (Color { red: 0, green: 0, blue: 0 }),
    {
        Color { red: 0, green: 0, blue: 0 }
    }
}

impl FromSpecImpl<u32> for Color {
    open spec fn obeys_from_spec() -> bool {
        true
    }

    open spec fn from_spec(value: u32) -> Color {
        unpack(value)
    }
}

impl From<u32> for Color {
    fn from(value: u32) -> (color: Self) {
        let red: u8 = #[verifier::truncate]
        ((value >> 16) as u8);
        let green: u8 = #[verifier::truncate]
        ((value >> 8) as u8);
        let blue: u8 = #[verifier::truncate]
        (value as u8);
        assert(((value >> 16) as u8) == ((value / 0x1_0000) % 0x100) as u8) by (bit_vector);
        assert(((value >> 8) as u8) == ((value / 0x100) % 0x100) as u8) by (bit_vector);
        assert((value as u8) == (value % 0x100) as u8) by (bit_vector);
        Color { red, green, blue }
    }
}

impl Color {
    /// The sum of the distances of the three channels, where it fits in
    /// eight bits.
    pub fn distance_from(&self, rhs: Self) -> (sum: u8)
        requires
            distance(*self, rhs) <= u8::MAX,
        ensures
            sum == distance(*self, rhs),
    {
        let red: u8 = if self.red > rhs.red {
            self.red - rhs.red
        } else {
            rhs.red - self.red
        };
        let green: u8 = if self.green > rhs.green {
            self.green - rhs.green
        } else {
            rhs.green - self.green
        };
        let blue: u8 = if self.blue > rhs.blue {
            self.blue - rhs.blue
        } else {
            rhs.blue - self.blue
        };
        red + green + blue
    }
}

impl FromSpecImpl<Color> for u32 {
    open spec fn obeys_from_spec() -> bool {
        true
    }

    open spec fn from_spec(value: Color) -> u32 {
        pack(value)
    }
}

impl From<Color> for u32 {
    fn from(value: Color) -> (packed: Self) {
        let red: u32 = value.red as u32;
        let green: u32 = value.green as u32;
        let blue: u32 = value.blue as u32;
        assert((red << 16) | (green << 8) | blue == red * 0x1_0000 + green * 0x100 + blue)
            by (bit_vector)
            requires
                red < 0x100,
                green < 0x100,
                blue < 0x100,
        ;
        (red << 16) | (green << 8) | blue
    }
}

/// A colour packed and unpacked again is the same colour.
pub proof fn lemma_pack_unpack(color: Color)
    ensures
        unpack(pack(color)) == color,
{
    let red = color.red;
    let green = color.green;
    let blue = color.blue;
    let packed: u32 = (red * 0x1_0000 + green * 0x100 + blue) as u32;
    assert(packed == pack(color));
    assert((packed / 0x1_0000) % 0x100 == red && (packed / 0x100) % 0x100 == green && packed
        % 0x100 == blue) by (bit_vector)
        requires
            packed == red * 0x1_0000 + green * 0x100 + blue,
    ;
}

/// A value unpacked and packed again keeps its lowest 24 bits.
pub proof fn lemma_unpack_pack(value: u32)
    ensures
        pack(unpack(value)) == value % 0x100_0000,
{
    let red: u32 = (value / 0x1_0000) % 0x100;
    let green: u32 = (value / 0x100) % 0x100;
    let blue: u32 = value % 0x100;
    assert(red * 0x1_0000 + green * 0x100 + blue == value % 0x100_0000) by (bit_vector)
        requires
            red == (value / 0x1_0000) % 0x100,
            green == (value / 0x100) % 0x100,
            blue == value % 0x100,
    ;
}

/// The distance between two colours is the same from either side, and it
/// is zero between equal colours only.
pub proof fn lemma_distance(a: Color, b: Color)
    ensures
        distance(a, b) == distance(b, a),
        0 <= distance(a, b) <= 3 * 0xff,
        distance(a, b) == 0 <==> a == b,
{
}

} // verus!

use crate::text::{push_hex_byte, spec_hex_byte, string_from_chars};
use vstd::prelude::*;

verus! {

/// A set of textures the game can be drawn with.
#[derive(Debug, Copy, Clone, Eq, PartialEq, Structural, Hash)]
pub enum Tileset {
    TinyPlatformQuestTiles,
    Classic,
    Antarctica,
}

impl Default for Tileset {
    fn default() -> (r: Self)
        ensures
            r == Tileset::TinyPlatformQuestTiles,
    {
        Tileset::TinyPlatformQuestTiles
    }
}

/// An RGB color.
#[derive(Debug, Copy, Clone, Eq, PartialEq, Structural)]
pub struct Color {
    pub r: u8,
    pub g: u8,
    pub b: u8,
}

impl From<(u8, u8, u8)> for Color {
    fn from(c: (u8, u8, u8)) -> (r: Self) {
        Color { r: c.0, g: c.1, b: c.2 }
    }
}

impl vstd::std_specs::convert::FromSpecImpl<(u8, u8, u8)> for Color {
    open spec fn obeys_from_spec() -> bool {
        true
    }

    open spec fn from_spec(c: (u8, u8, u8)) -> Color {
        Color { r: c.0, g: c.1, b: c.2 }
    }
}

impl Color {
    /// The HTML notation `#RRGGBB` of a color, in upper-case hexadecimal digits.
    pub open spec fn spec_html(self) -> Seq<char> {
        seq!['#'] + spec_hex_byte(self.r) + spec_hex_byte(self.g) + spec_hex_byte(self.b)
    }

    /// Get the HTML Color in #RRGGBB format
    pub fn to_string(&self) -> (s: String)
        ensures
            s@ == self.spec_html(),
    {
        let mut v: Vec<char> = Vec::new();
        v.push('#');
        push_hex_byte(&mut v, self.r);
        push_hex_byte(&mut v, self.g);
        push_hex_byte(&mut v, self.b);
        assert(v@ =~= self.spec_html());
        string_from_chars(&v)
    }
}

impl Tileset {
    /// The background color drawn behind each tile set.
    pub open spec fn spec_background_color(self) -> Color {
        match self {
            Tileset::TinyPlatformQuestTiles => Color { r: 0x90, g: 0x90, b: 0x90 },
            Tileset::Classic => Color { r: 0xff, g: 0xff, b: 0xff },
            Tileset::Antarctica => Color { r: 0x87, g: 0xce, b: 0xeb },
        }
    }

    /// The edge length of one texture of each tile set, in pixels.
    pub open spec fn spec_texture_size(self) -> u32 {
        match self {
            Tileset::TinyPlatformQuestTiles => 16,
            Tileset::Classic => 16,
            Tileset::Antarctica => 32,
        }
    }

    /// The name of each tile set.
    pub open spec fn spec_name(self) -> Seq<char> {
        match self {
            Tileset::TinyPlatformQuestTiles => "Tiny Platform Quest Tiles"@,
            Tileset::Classic => "Classic"@,
            Tileset::Antarctica => "Antarctica"@,
        }
    }

    pub fn background_color(&self) -> (r: Color)
        ensures
            r == self.spec_background_color(),
    {
        Color::from(
            match self {
                Tileset::TinyPlatformQuestTiles => (0x90, 0x90, 0x90),
                Tileset::Classic => (0xff, 0xff, 0xff),
                Tileset::Antarctica => (0x87, 0xce, 0xeb),
            },
        )
    }

    pub fn texture_size(&self) -> (r: u32)
        ensures
            r == self.spec_texture_size(),
    {
        match self {
            Tileset::TinyPlatformQuestTiles => 16,
            Tileset::Classic => 16,
            Tileset::Antarctica => 32,
        }
    }

    /// The name of this tile set.
    pub fn to_string(&self) -> (r: String)
        ensures
            r@ == self.spec_name(),
    {
        String::from_str(
            match self {
                Tileset::TinyPlatformQuestTiles => "Tiny Platform Quest Tiles",
                Tileset::Classic => "Classic",
                Tileset::Antarctica => "Antarctica",
            },
        )
    }

    /// All tile sets, in the order of their declaration.
    pub fn iter() -> (r: Vec<Tileset>)
        ensures
            r@ == seq![Tileset::TinyPlatformQuestTiles, Tileset::Classic, Tileset::Antarctica],
    {
        let r = vec![Tileset::TinyPlatformQuestTiles, Tileset::Classic, Tileset::Antarctica];
        assert(r@ =~= seq![Tileset::TinyPlatformQuestTiles, Tileset::Classic, Tileset::Antarctica]);
        r
    }
}

} // verus!

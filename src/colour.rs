//! Element colours, the colour policy options, and the temperature bands.
use vstd::prelude::*;
use crate::frame::{Command, CommandView, frame_of};
use crate::text::{ascii_chars, string_of_bytes, same_text};

verus! {

/// An RGBA colour with eight bits per channel.
#[derive(Clone, Copy, PartialEq, Eq, Structural, Debug)]
pub struct ElementColour {
    pub r: u8,
    pub g: u8,
    pub b: u8,
    pub a: u8,
}

impl Default for ElementColour {
    /// Opaque white.
    fn default() -> (r: Self)
        ensures
            r == white(),
    {
        ElementColour { r: 0xFF, g: 0xFF, b: 0xFF, a: 0xFF }
    }
}

pub open spec fn white() -> ElementColour {
    ElementColour { r: 0xFF, g: 0xFF, b: 0xFF, a: 0xFF }
}

/// The colour frame for a colour: the high nibble of each channel.
pub open spec fn colour_command(c: ElementColour) -> CommandView {
    CommandView::Colour { r: c.r / 16, g: c.g / 16, b: c.b / 16 }
}

impl ElementColour {
    /// The `c` command that selects this colour.
    pub fn command(&self) -> (r: Command)
        ensures
            r@ == colour_command(*self),
    {
        let (r, g, b) = (self.r, self.g, self.b);
        assert(r >> 4 == r / 16) by (bit_vector);
        assert(g >> 4 == g / 16) by (bit_vector);
        assert(b >> 4 == b / 16) by (bit_vector);
        Command::Colour { r: r >> 4, g: g >> 4, b: b >> 4 }
    }

    /// The colour frame as text.
    pub fn to_string(&self) -> (r: String)
        ensures
            r@ == ascii_chars(frame_of(colour_command(*self))),
    {
        let c = self.command();
        let bytes = c.encode();
        string_of_bytes(&bytes)
    }
}

/// How an element picks its draw colour.
#[derive(Clone, Copy, PartialEq, Eq, Structural, Debug)]
pub enum ColourOption {
    Default,
    Specific(ElementColour),
    ParseTemperature,
}

impl Default for ColourOption {
    fn default() -> (r: Self)
        ensures
            r == ColourOption::Default,
    {
        ColourOption::Default
    }
}

pub open spec fn option_label(i: int) -> Seq<char> {
    if i == 0 {
        "Default"@
    } else if i == 1 {
        "Specific"@
    } else {
        "Parse Temperature"@
    }
}

pub open spec fn option_index(o: ColourOption) -> int {
    match o {
        ColourOption::Default => 0,
        ColourOption::Specific(_) => 1,
        ColourOption::ParseTemperature => 2,
    }
}

impl ColourOption {
    /// The label of this option's kind.
    pub fn get_option(&self) -> (r: String)
        ensures
            r@ == option_label(option_index(*self)),
    {
        let options = ColourOption::get_options();
        match self {
            ColourOption::Default => options[0].clone(),
            ColourOption::Specific(_) => options[1].clone(),
            ColourOption::ParseTemperature => options[2].clone(),
        }
    }

    /// The labels of the three kinds, in order.
    pub fn get_options() -> (r: Vec<String>)
        ensures
            r@.len() == 3,
            forall|i: int| 0 <= i < 3 ==> #[trigger] r@[i]@ == option_label(i),
    {
        let mut v: Vec<String> = Vec::new();
        v.push("Default".to_owned());
        v.push("Specific".to_owned());
        v.push("Parse Temperature".to_owned());
        v
    }

    /// The option named by a label; an unknown label and "Specific" give the
    /// default kind and opaque white respectively.
    pub fn from_str(type_str: &str) -> (r: ColourOption)
        ensures
            type_str@ == "Specific"@ ==> r == ColourOption::Specific(white()),
            type_str@ == "Parse Temperature"@ ==> r == ColourOption::ParseTemperature,
            type_str@ != "Specific"@ && type_str@ != "Parse Temperature"@ ==> r == ColourOption::Default,
    {
        proof {
            reveal_strlit("Specific");
            reveal_strlit("Parse Temperature");
            assert("Specific"@.len() != "Parse Temperature"@.len());
        }
        if same_text(type_str, "Specific") {
            ColourOption::Specific(ElementColour::default())
        } else if same_text(type_str, "Parse Temperature") {
            ColourOption::ParseTemperature
        } else {
            ColourOption::Default
        }
    }
}

/// Upper bounds of the four lower temperature bands.
#[derive(Clone, Copy, PartialEq, Eq, Structural, Debug)]
pub struct TemperatureColours {
    pub freezing: i16,
    pub cold: i16,
    pub neutral: i16,
    pub warm: i16,
}

impl Default for TemperatureColours {
    fn default() -> (r: Self)
        ensures
            r == (TemperatureColours { freezing: 32, cold: 40, neutral: 72, warm: 82 }),
    {
        TemperatureColours { freezing: 32, cold: 40, neutral: 72, warm: 82 }
    }
}

/// The band of `temp`: 0 freezing, 1 cold, 2 neutral, 3 warm, 4 above all.
pub open spec fn temperature_band(t: TemperatureColours, temp: int) -> int {
    if temp <= t.freezing {
        0
    } else if temp <= t.cold {
        1
    } else if temp <= t.neutral {
        2
    } else if temp <= t.warm {
        3
    } else {
        4
    }
}

/// The fixed colour of each band, as the nibbles of a colour frame.
pub open spec fn band_command(band: int) -> CommandView {
    if band == 0 {
        CommandView::Colour { r: 0x0, g: 0xF, b: 0xF }
    } else if band == 1 {
        CommandView::Colour { r: 0x4, g: 0x8, b: 0xF }
    } else if band == 2 {
        CommandView::Colour { r: 0xD, g: 0xD, b: 0x2 }
    } else if band == 3 {
        CommandView::Colour { r: 0xD, g: 0x9, b: 0x1 }
    } else {
        CommandView::Colour { r: 0xF, g: 0x0, b: 0x0 }
    }
}

/// Every temperature falls in exactly one of the five bands, and a higher
/// temperature never falls in a lower band.
pub proof fn lemma_band_total_monotonic(t: TemperatureColours, t1: int, t2: int)
    requires
        t1 <= t2,
    ensures
        0 <= temperature_band(t, t1) <= 4,
        temperature_band(t, t1) <= temperature_band(t, t2),
{
}

impl TemperatureColours {
    /// The colour command of the band that `temp` falls in.
    pub fn band_colour(&self, temp: i32) -> (r: Command)
        ensures
            r@ == band_command(temperature_band(*self, temp as int)),
    {
        if temp <= self.freezing as i32 {
            Command::Colour { r: 0x0, g: 0xF, b: 0xF }
        } else if temp <= self.cold as i32 {
            Command::Colour { r: 0x4, g: 0x8, b: 0xF }
        } else if temp <= self.neutral as i32 {
            Command::Colour { r: 0xD, g: 0xD, b: 0x2 }
        } else if temp <= self.warm as i32 {
            Command::Colour { r: 0xD, g: 0x9, b: 0x1 }
        } else {
            Command::Colour { r: 0xF, g: 0x0, b: 0x0 }
        }
    }

    /// The colour frame, as text, of the band that `temp` falls in.
    pub fn get_colour(self, temp: i32) -> (r: String)
        ensures
            r@ == ascii_chars(frame_of(band_command(temperature_band(self, temp as int)))),
    {
        let c = self.band_colour(temp);
        let bytes = c.encode();
        string_of_bytes(&bytes)
    }
}

} // verus!

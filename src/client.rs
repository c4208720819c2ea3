//! The client's command interpreter: each frame updates the draw state and
//! yields at most one drawing operation for the surface.
use vstd::prelude::*;
use crate::frame::{parse_frame, Command, CommandView, FRAME_LEN};

verus! {

/// A 24-bit colour.
#[derive(Clone, Copy, PartialEq, Eq, Structural, Debug)]
pub struct Rgb {
    pub r: u8,
    pub g: u8,
    pub b: u8,
}

/// The fonts a client has.
#[derive(Clone, Copy, PartialEq, Eq, Structural, Debug)]
pub enum FontId {
    /// `5x8`, the baseline font.
    Small,
    /// `7x14B`.
    Bold,
}

/// The client's draw state.
#[derive(Debug)]
pub struct CanvasState {
    pub colour: Rgb,
    pub font: FontId,
    /// Rows from a glyph's top to its baseline.
    pub font_offset: u8,
    pub brightness: u8,
    pub server_http_uri: String,
}

impl CanvasState {
    /// White, the baseline font with no offset, full brightness.
    pub fn new(server_http_uri: String) -> (r: CanvasState)
        ensures
            r.colour == (Rgb { r: 255, g: 255, b: 255 }),
            r.font == FontId::Small,
            r.font_offset == 0,
            r.brightness == 100,
            r.server_http_uri == server_http_uri,
    {
        CanvasState { colour: Rgb { r: 255, g: 255, b: 255 }, font: FontId::Small, font_offset: 0, brightness: 100, server_http_uri }
    }
}

/// A drawing operation for the surface.
#[derive(Debug, PartialEq, Eq)]
pub enum DrawOp {
    /// Nothing to draw.
    Nothing,
    /// Set the panel's brightness.
    SetBrightness(u8),
    /// Clear to black.
    Clear,
    Line { x1: u8, y1: u8, x2: u8, y2: u8, colour: Rgb },
    Pixel { x: u8, y: u8, colour: Rgb },
    /// One character of the given font, its top-left corner at `(x, y)` less the
    /// font's baseline offset already applied to `y`.
    Glyph { x: u8, y: u8, ch: char, font: FontId, colour: Rgb },
    /// The bitmap under a five-byte key.
    Image { x: u8, y: u8, key: Vec<u8> },
}

/// Channels sent as nibbles are widened by sixteen.
pub open spec fn widen(r: u8, g: u8, b: u8) -> Rgb {
    Rgb { r: (r * 16) as u8, g: (g * 16) as u8, b: (b * 16) as u8 }
}

/// The font a name selects, with its baseline offset; an unknown name falls
/// back to the baseline font.
pub open spec fn font_of(name: Seq<u8>) -> (FontId, u8) {
    if name == seq![0x37u8, 0x78, 0x31, 0x34, 0x42] {
        (FontId::Bold, 12u8)
    } else {
        (FontId::Small, 6u8)
    }
}

/// The degree sign, selector `1` of the special table.
pub open spec fn special_char(selector: u8) -> Option<char> {
    if selector == 0x31 {
        Some('\u{b0}')
    } else {
        None
    }
}

/// How a frame changes the draw state and what it draws. `hardware` is whether
/// the client drives a panel, which alone honours brightness frames. A frame
/// whose fields do not decode, an end-of-board frame and an unknown opcode
/// change nothing and draw nothing.
pub open spec fn interprets(f: Seq<u8>, old_s: CanvasState, new_s: CanvasState, hw: bool, op: DrawOp) -> bool {
    let same_font = new_s.font == old_s.font && new_s.font_offset == old_s.font_offset;
    let same_colour = new_s.colour == old_s.colour;
    let same_brightness = new_s.brightness == old_s.brightness;
    &&& new_s.server_http_uri == old_s.server_http_uri
    &&& match parse_frame(f) {
        Some(CommandView::Brightness { percent }) => if hw {
            same_font && same_colour && new_s.brightness == percent && op == DrawOp::SetBrightness(percent)
        } else {
            same_font && same_colour && same_brightness && op == DrawOp::Nothing
        },
        Some(CommandView::Clear) => same_font && same_colour && same_brightness && op == DrawOp::Clear,
        Some(CommandView::Colour { r, g, b }) => same_font && same_brightness && new_s.colour == widen(r, g, b)
            && op == DrawOp::Nothing,
        Some(CommandView::Line { x1, y1, x2, y2 }) => same_font && same_colour && same_brightness
            && op == (DrawOp::Line { x1, y1, x2, y2, colour: old_s.colour }),
        Some(CommandView::Pixel { x, y }) => same_font && same_colour && same_brightness
            && op == (DrawOp::Pixel { x, y, colour: old_s.colour }),
        Some(CommandView::ColouredPixel { x, y, r, g, b }) => same_font && same_colour && same_brightness
            && op == (DrawOp::Pixel { x, y, colour: widen(r, g, b) }),
        Some(CommandView::Font { name }) => same_colour && same_brightness && op == DrawOp::Nothing
            && new_s.font == font_of(name).0 && new_s.font_offset == font_of(name).1,
        Some(CommandView::Glyph { x, y, ch }) => same_font && same_colour && same_brightness
            && op == (DrawOp::Glyph { x, y: (y + old_s.font_offset) as u8, ch: ch as char, font: old_s.font, colour: old_s.colour }),
        Some(CommandView::Special { x, y, selector }) => same_font && same_colour && same_brightness
            && match special_char(selector) {
            Some(c) => op == (DrawOp::Glyph { x, y: (y + old_s.font_offset) as u8, ch: c, font: old_s.font, colour: old_s.colour }),
            None => op == DrawOp::Nothing,
        },
        Some(CommandView::Image { x, y, key }) => same_font && same_colour && same_brightness
            && (match op {
            DrawOp::Image { x: ix, y: iy, key: k } => ix == x && iy == y && k@ == key,
            _ => false,
        }),
        _ => same_font && same_colour && same_brightness && op == DrawOp::Nothing,
    }
}

fn select_font(name: &Vec<u8>) -> (r: (FontId, u8))
    ensures
        r == font_of(name@),
{
    if name.len() == 5 && name[0] == 0x37 && name[1] == 0x78 && name[2] == 0x31 && name[3] == 0x34
        && name[4] == 0x42 {
        assert(name@ =~= seq![0x37u8, 0x78, 0x31, 0x34, 0x42]);
        (FontId::Bold, 12)
    } else {
        proof {
            if name@ == seq![0x37u8, 0x78, 0x31, 0x34, 0x42] {
                assert(name@[0] == 0x37);
            }
        }
        (FontId::Small, 6)
    }
}

/// Interprets one frame against the draw state (see `interprets`).
pub fn interpret(frame: &[u8], state: &mut CanvasState, hardware: bool) -> (op: DrawOp)
    requires
        frame@.len() == FRAME_LEN,
        old(state).font_offset <= 12,
    ensures
        interprets(frame@, *old(state), *final(state), hardware, op),
        final(state).font_offset <= 12,
{
    match Command::decode(frame) {
        Some(Command::Brightness { percent }) => {
            if hardware {
                state.brightness = percent;
                DrawOp::SetBrightness(percent)
            } else {
                DrawOp::Nothing
            }
        },
        Some(Command::Clear) => DrawOp::Clear,
        Some(Command::Colour { r, g, b }) => {
            state.colour = Rgb { r: r * 16, g: g * 16, b: b * 16 };
            DrawOp::Nothing
        },
        Some(Command::Line { x1, y1, x2, y2 }) => DrawOp::Line { x1, y1, x2, y2, colour: state.colour },
        Some(Command::Pixel { x, y }) => DrawOp::Pixel { x, y, colour: state.colour },
        Some(Command::ColouredPixel { x, y, r, g, b }) => DrawOp::Pixel { x, y, colour: Rgb { r: r * 16, g: g * 16, b: b * 16 } },
        Some(Command::Font { name }) => {
            let (font, offset) = select_font(&name);
            state.font = font;
            state.font_offset = offset;
            DrawOp::Nothing
        },
        Some(Command::Glyph { x, y, ch }) => DrawOp::Glyph { x, y: y + state.font_offset, ch: ch as char, font: state.font, colour: state.colour },
        Some(Command::Special { x, y, selector }) => {
            if selector == 0x31 {
                DrawOp::Glyph { x, y: y + state.font_offset, ch: '\u{b0}', font: state.font, colour: state.colour }
            } else {
                DrawOp::Nothing
            }
        },
        Some(Command::Image { x, y, key }) => DrawOp::Image { x, y, key },
        _ => DrawOp::Nothing,
    }
}

} // verus!

//! The board render engine: a board definition and its resolved element texts
//! become one stream of frames.
use vstd::prelude::*;
use crate::boards::{BoardDefinition, BoardElement, BoardElementValue};
use crate::colour::{band_command, colour_command, temperature_band, white, ColourOption, ElementColour, TemperatureColours};
use crate::device::DeviceConfig;
use crate::frame::{encodable, frame_of, Command, CommandView, FILL};
use crate::images::{key_search, ImageIndex};
use crate::json::{parse_index, parse_index_exec};
use crate::text::chars_of;
use crate::clock::time_text;

verus! {

/// The first run of decimal digits in a text.
pub uninterp spec fn first_digit_run_of(s: Seq<char>) -> Option<Seq<char>>;

/// Relies on `regex::Regex::find` with the pattern `\d+`: the leftmost run of
/// digits, which depends on the text alone.
#[verifier::external_body]
fn first_digit_run(text: &str) -> (r: Option<String>)
    ensures
        match r {
            Some(d) => first_digit_run_of(text@) == Some(d@),
            None => first_digit_run_of(text@) is None,
        },
{
    let re = regex::Regex::new(r"\d+").unwrap();
    match re.find(text) {
        Some(m) => Some(m.as_str().to_string()),
        None => None,
    }
}

/// An `i32` in decimal: ASCII digits only.
pub open spec fn parse_temperature(s: Seq<char>) -> Option<int> {
    match parse_index(s) {
        Some(v) => if v <= i32::MAX {
            Some(v)
        } else {
            None
        },
        None => None,
    }
}

/// The colour command that a colour policy gives for an element's text.
pub open spec fn policy_colour(opt: ColourOption, text: Seq<char>, temps: TemperatureColours) -> CommandView {
    match opt {
        ColourOption::Default => colour_command(white()),
        ColourOption::Specific(c) => colour_command(c),
        ColourOption::ParseTemperature => match first_digit_run_of(text) {
            Some(d) => match parse_temperature(d) {
                Some(t) => band_command(temperature_band(temps, t)),
                None => colour_command(white()),
            },
            None => colour_command(white()),
        },
    }
}

/// The colour command of an element's colour policy for its resolved text:
/// white by default, the given colour, or the band of the first number in the
/// text (white where there is none).
pub fn colour_for(opt: &ColourOption, text: &str, temps: &TemperatureColours) -> (r: Command)
    ensures
        r@ == policy_colour(*opt, text@, *temps),
{
    match opt {
        ColourOption::Default => ElementColour::default().command(),
        ColourOption::Specific(c) => c.command(),
        ColourOption::ParseTemperature => match first_digit_run(text) {
            Some(d) => {
                let cs = chars_of(d.as_str());
                match parse_index_exec(&cs) {
                    Some(v) => if v <= 0x7fff_ffffusize {
                        temps.band_colour(v as i32)
                    } else {
                        ElementColour::default().command()
                    },
                    None => ElementColour::default().command(),
                }
            },
            None => ElementColour::default().command(),
        },
    }
}

/// The byte that carries a character in a frame: itself if ASCII, else `?`.
pub open spec fn wire_byte(c: char) -> u8 {
    if (c as u32) < 128 {
        c as u8
    } else {
        0x3fu8
    }
}

/// The byte that carries a character of a name or key: as `wire_byte`, with
/// the filler replaced by `?` too.
pub open spec fn name_byte(c: char) -> u8 {
    if wire_byte(c) == FILL {
        0x3fu8
    } else {
        wire_byte(c)
    }
}

pub open spec fn degree_sign() -> char {
    '\u{b0}'
}

/// The frame command for one character at `(x, y)`: the degree sign goes
/// through the special table, anything else is a glyph.
pub open spec fn glyph_command(c: char, x: u8, y: u8) -> CommandView {
    if c == degree_sign() {
        CommandView::Special { x, y, selector: 0x31 }
    } else {
        CommandView::Glyph { x, y, ch: wire_byte(c) }
    }
}

/// Where the next glyph starts; past column 99 nothing is drawn, so the
/// position stops growing at 100.
pub open spec fn advance(pos: int, w: u8) -> int {
    if pos + w >= 100 {
        100
    } else {
        pos + w
    }
}

/// The glyph frames of `text` from character `i` on, the first at column `pos`,
/// each character advancing by its width; a glyph that would start past column
/// 99, or a row past 99, is left out.
pub open spec fn glyph_frames(text: Seq<char>, widths: Seq<u8>, i: int, pos: int, y: u8) -> Seq<u8>
    decreases text.len() - i,
{
    if i < 0 || i >= text.len() || i >= widths.len() {
        Seq::empty()
    } else {
        (if pos < 100 && y < 100 {
            frame_of(glyph_command(text[i], pos as u8, y))
        } else {
            Seq::empty()
        }) + glyph_frames(text, widths, i + 1, advance(pos, widths[i]), y)
    }
}

/// The sum of a list of glyph widths.
pub open spec fn width_sum(ws: Seq<u8>) -> int
    decreases ws.len(),
{
    if ws.len() == 0 {
        0
    } else {
        width_sum(ws.drop_last()) + ws.last()
    }
}

/// The left edge that centres a text `total` columns wide on a board `bw`
/// wide, floored, and zero where the text is wider than the board.
pub open spec fn centred_x(bw: u8, total: int) -> int {
    if total <= bw {
        (bw - total) / 2
    } else {
        0
    }
}

/// The font name sent for an element: its own or the baseline `5x8`, cut to
/// nine characters.
pub open spec fn font_name_of(font: Option<String>) -> Seq<char> {
    let name = match font {
        Some(f) => f@,
        None => "5x8"@,
    };
    if name.len() > 9 {
        name.subrange(0, 9)
    } else {
        name
    }
}

pub open spec fn name_bytes(s: Seq<char>) -> Seq<u8> {
    Seq::new(s.len(), |i: int| name_byte(s[i]))
}

/// What the render engine needs of an element beyond its definition: the text
/// its template resolved to, and the width of each of its glyphs in its font.
#[derive(Debug)]
pub struct ResolvedElement {
    pub text: String,
    pub widths: Vec<u8>,
}

impl ResolvedElement {
    pub open spec fn wf(&self) -> bool {
        self.widths@.len() == self.text@.len()
    }
}

/// The frames of a text element.
pub open spec fn text_frames(e: BoardElement, r: ResolvedElement, temps: TemperatureColours, board_width: u8) -> Seq<u8> {
    let x = match e.x {
        Some(x) => x as int,
        None => centred_x(board_width, width_sum(r.widths@)),
    };
    frame_of(policy_colour(e.colour, r.text@, temps)) + frame_of(
        CommandView::Font { name: name_bytes(font_name_of(e.font)) },
    ) + glyph_frames(r.text@, r.widths@, 0, x, e.y)
}

/// Whether a legacy image reference starts with one of the markers `^i`, `^1`, `^2`.
pub open spec fn legacy_marker(s: Seq<char>) -> bool {
    s.len() >= 2 && s[0] == '^' && (s[1] == 'i' || s[1] == '1' || s[1] == '2')
}

/// A key of at most five characters, padded with filler to five bytes.
pub open spec fn key_bytes(s: Seq<char>) -> Seq<u8> {
    name_bytes(s) + Seq::new((5 - s.len()) as nat, |i: int| FILL)
}

/// The frames of an image element: in legacy mode a marked reference of at most
/// five characters is sent as it is; otherwise the key the index gives the
/// path. Nothing where there is no key or a coordinate exceeds 99.
pub open spec fn image_frames(e: BoardElement, text: Seq<char>, legacy: bool, index: Seq<(String, String)>) -> Seq<u8> {
    let x = match e.x {
        Some(x) => x,
        None => 0u8,
    };
    let key: Option<Seq<char>> = if legacy {
        if legacy_marker(text) && text.len() <= 5 {
            Some(text)
        } else {
            None
        }
    } else {
        key_search(index, text, 0)
    };
    match key {
        Some(k) => if x < 100 && e.y < 100 && k.len() <= 5 {
            frame_of(CommandView::Image { x, y: e.y, key: key_bytes(k) })
        } else {
            Seq::empty()
        },
        None => Seq::empty(),
    }
}

/// The colour of a pixel: its specific colour, else white.
pub open spec fn pixel_colour(opt: ColourOption) -> ElementColour {
    match opt {
        ColourOption::Specific(c) => c,
        _ => white(),
    }
}

/// The frames of one element.
pub open spec fn element_frames(
    e: BoardElement,
    r: ResolvedElement,
    d: DeviceConfig,
    board_width: u8,
    index: Seq<(String, String)>,
) -> Seq<u8> {
    let x = match e.x {
        Some(x) => x,
        None => 0u8,
    };
    match e.value {
        BoardElementValue::Text(_) => text_frames(e, r, d.temperature_colours, board_width),
        BoardElementValue::Img(_, _) => image_frames(e, r.text@, d.proto_version == 0, index),
        BoardElementValue::Pixel => {
            let c = pixel_colour(e.colour);
            if x < 100 && e.y < 100 {
                frame_of(CommandView::ColouredPixel { x, y: e.y, r: c.r / 16, g: c.g / 16, b: c.b / 16 })
            } else {
                Seq::empty()
            }
        },
        BoardElementValue::Line(x2, y2, _) => if x < 100 && e.y < 100 && x2 < 100 && y2 < 100 {
            frame_of(policy_colour(e.colour, r.text@, d.temperature_colours)) + frame_of(
                CommandView::Line { x1: x, y1: e.y, x2, y2 },
            )
        } else {
            Seq::empty()
        },
    }
}

proof fn lemma_policy_encodable(opt: ColourOption, text: Seq<char>, temps: TemperatureColours)
    ensures
        encodable(policy_colour(opt, text, temps)),
{
}

fn wire_byte_exec(c: char) -> (r: u8)
    ensures
        r == wire_byte(c),
{
    if (c as u32) < 128 {
        c as u8
    } else {
        0x3f
    }
}

fn name_byte_exec(c: char) -> (r: u8)
    ensures
        r == name_byte(c),
        r != FILL,
{
    let b = wire_byte_exec(c);
    if b == FILL {
        0x3f
    } else {
        b
    }
}

/// The bytes of at most `limit` leading characters of `cs`, each as `name_byte`.
fn name_bytes_exec(cs: &Vec<char>, limit: usize) -> (r: Vec<u8>)
    ensures
        r@ == name_bytes(if cs@.len() > limit { cs@.subrange(0, limit as int) } else { cs@ }),
        !r@.contains(FILL),
{
    let n = if cs.len() > limit {
        limit
    } else {
        cs.len()
    };
    let ghost src = if cs@.len() > limit {
        cs@.subrange(0, limit as int)
    } else {
        cs@
    };
    let mut v: Vec<u8> = Vec::new();
    let mut i: usize = 0;
    while i < n
        invariant
            i <= n,
            n == src.len(),
            n <= cs@.len(),
            forall|k: int| 0 <= k < n ==> src[k] == cs@[k],
            v@ == name_bytes(src.subrange(0, i as int)),
            forall|k: int| 0 <= k < v@.len() ==> v@[k] != FILL,
        decreases n - i,
    {
        v.push(name_byte_exec(cs[i]));
        i = i + 1;
        assert(v@ =~= name_bytes(src.subrange(0, i as int)));
    }
    assert(src.subrange(0, n as int) =~= src);
    v
}

fn glyph_exec(c: char, x: u8, y: u8) -> (r: Command)
    ensures
        r@ == glyph_command(c, x, y),
{
    if c == '\u{b0}' {
        Command::Special { x, y, selector: 0x31 }
    } else {
        Command::Glyph { x, y, ch: wire_byte_exec(c) }
    }
}

fn append(out: &mut Vec<u8>, b: Vec<u8>)
    ensures
        final(out)@ == old(out)@ + b@,
{
    let mut b = b;
    out.append(&mut b);
}

/// The glyph frames of `text`, starting at column `x`.
fn glyph_frames_exec(text: &Vec<char>, widths: &Vec<u8>, x: u32, y: u8) -> (r: Vec<u8>)
    requires
        x <= 255,
    ensures
        r@ == glyph_frames(text@, widths@, 0, x as int, y),
{
    let mut out: Vec<u8> = Vec::new();
    let mut pos: u32 = x;
    let mut i: usize = 0;
    while i < text.len() && i < widths.len()
        invariant
            i <= text@.len(),
            pos <= 255,
            out@ + glyph_frames(text@, widths@, i as int, pos as int, y) == glyph_frames(text@, widths@, 0, x as int, y),
        decreases text@.len() - i,
    {
        let ghost before = glyph_frames(text@, widths@, i as int, pos as int, y);
        let ghost old_out = out@;
        if pos < 100 && y < 100 {
            let g = glyph_exec(text[i], pos as u8, y);
            proof {
                lemma_glyph_encodable(text@[i as int], pos as u8, y);
            }
            append(&mut out, g.encode());
        }
        let w = widths[i];
        pos = if pos + w as u32 >= 100 {
            100
        } else {
            pos + w as u32
        };
        i = i + 1;
        assert(out@ + glyph_frames(text@, widths@, i as int, pos as int, y) =~= old_out + before);
    }
    assert(glyph_frames(text@, widths@, i as int, pos as int, y) =~= Seq::<u8>::empty());
    assert(out@ =~= out@ + glyph_frames(text@, widths@, i as int, pos as int, y));
    out
}

proof fn lemma_glyph_encodable(c: char, x: u8, y: u8)
    requires
        x < 100,
        y < 100,
    ensures
        encodable(glyph_command(c, x, y)),
{
}

/// The left edge that centres glyphs of widths `ws` on a board `bw` wide.
fn centre(bw: u8, ws: &Vec<u8>) -> (r: u8)
    ensures
        r as int == centred_x(bw, width_sum(ws@)),
{
    let mut total: u128 = 0;
    let mut i: usize = 0;
    while i < ws.len()
        invariant
            i <= ws@.len(),
            total as int == width_sum(ws@.subrange(0, i as int)),
            total as int <= 255 * i,
        decreases ws@.len() - i,
    {
        assert(ws@.subrange(0, i as int + 1).drop_last() =~= ws@.subrange(0, i as int));
        total = total + ws[i] as u128;
        i = i + 1;
    }
    assert(ws@.subrange(0, ws@.len() as int) =~= ws@);
    if total <= bw as u128 {
        ((bw as u128 - total) / 2) as u8
    } else {
        0
    }
}

/// The frames of a text element: its colour, its font, then one glyph frame per
/// character, left-aligned at its column or centred where it has none.
pub fn draw_text(e: &BoardElement, r: &ResolvedElement, temps: &TemperatureColours, board_width: u8) -> (out: Vec<u8>)
    ensures
        out@ == text_frames(*e, *r, *temps, board_width),
{
    let text = chars_of(r.text.as_str());
    let x: u8 = match e.x {
        Some(x) => x,
        None => centre(board_width, &r.widths),
    };
    let colour = colour_for(&e.colour, r.text.as_str(), temps);
    proof {
        lemma_policy_encodable(e.colour, r.text@, *temps);
    }
    let mut out = colour.encode();
    let font_chars = match &e.font {
        Some(f) => chars_of(f.as_str()),
        None => chars_of("5x8"),
    };
    let name = name_bytes_exec(&font_chars, 9);
    let font = Command::Font { name };
    append(&mut out, font.encode());
    append(&mut out, glyph_frames_exec(&text, &r.widths, x as u32, e.y));
    out
}

fn key_bytes_exec(cs: &Vec<char>) -> (r: Vec<u8>)
    requires
        cs@.len() <= 5,
    ensures
        r@ == key_bytes(cs@),
        r@.len() == 5,
{
    let mut v = name_bytes_exec(cs, 5);
    let ghost named = v@;
    while v.len() < 5
        invariant
            named.len() <= v@.len() <= 5,
            v@ == named + Seq::new((v@.len() - named.len()) as nat, |i: int| FILL),
        decreases 5 - v@.len(),
    {
        v.push(FILL);
        assert(v@ =~= named + Seq::new((v@.len() - named.len()) as nat, |i: int| FILL));
    }
    assert(v@ =~= key_bytes(cs@));
    v
}

/// The frames of an image element (see `image_frames`).
pub fn draw_image(e: &BoardElement, text: &str, legacy: bool, index: &ImageIndex) -> (out: Vec<u8>)
    ensures
        out@ == image_frames(*e, text@, legacy, index.entries@),
{
    let x: u8 = match e.x {
        Some(x) => x,
        None => 0,
    };
    let key: Option<Vec<char>> = if legacy {
        let cs = chars_of(text);
        if cs.len() >= 2 && cs[0] == '^' && (cs[1] == 'i' || cs[1] == '1' || cs[1] == '2') && cs.len() <= 5 {
            Some(cs)
        } else {
            None
        }
    } else {
        match index.key_for_path(text) {
            Some(k) => Some(chars_of(k.as_str())),
            None => None,
        }
    };
    match key {
        Some(k) => {
            if x < 100 && e.y < 100 && k.len() <= 5 {
                let c = Command::Image { x, y: e.y, key: key_bytes_exec(&k) };
                c.encode()
            } else {
                Vec::new()
            }
        },
        None => Vec::new(),
    }
}

/// The frames of one element, given its resolved text and glyph widths.
pub fn draw_element(
    e: &BoardElement,
    r: &ResolvedElement,
    d: &DeviceConfig,
    board_width: u8,
    index: &ImageIndex,
) -> (out: Vec<u8>)
    ensures
        out@ == element_frames(*e, *r, *d, board_width, index.entries@),
{
    let x: u8 = match e.x {
        Some(x) => x,
        None => 0,
    };
    match &e.value {
        BoardElementValue::Text(_) => draw_text(e, r, &d.temperature_colours, board_width),
        BoardElementValue::Img(_, _) => draw_image(e, r.text.as_str(), d.proto_version == 0, index),
        BoardElementValue::Pixel => {
            let c = match e.colour {
                ColourOption::Specific(c) => c,
                _ => ElementColour::default(),
            };
            if x < 100 && e.y < 100 {
                let (cr, cg, cb) = (c.r, c.g, c.b);
                assert(cr >> 4 == cr / 16) by (bit_vector);
                assert(cg >> 4 == cg / 16) by (bit_vector);
                assert(cb >> 4 == cb / 16) by (bit_vector);
                let q = Command::ColouredPixel { x, y: e.y, r: cr >> 4, g: cg >> 4, b: cb >> 4 };
                q.encode()
            } else {
                Vec::new()
            }
        },
        BoardElementValue::Line(x2, y2, _) => {
            if x < 100 && e.y < 100 && *x2 < 100 && *y2 < 100 {
                let colour = colour_for(&e.colour, r.text.as_str(), &d.temperature_colours);
                proof {
                    lemma_policy_encodable(e.colour, r.text@, d.temperature_colours);
                }
                let mut out = colour.encode();
                let l = Command::Line { x1: x, y1: e.y, x2: *x2, y2: *y2 };
                append(&mut out, l.encode());
                out
            } else {
                Vec::new()
            }
        },
    }
}

/// The frames that open every board: brightness, clear, white.
pub open spec fn preamble(brightness: u8) -> Seq<u8> {
    frame_of(CommandView::Brightness { percent: brightness }) + frame_of(CommandView::Clear) + frame_of(
        CommandView::Colour { r: 15, g: 15, b: 15 },
    )
}

/// The frames of the first `n` elements, in order.
pub open spec fn elements_frames(
    b: BoardDefinition,
    rs: Seq<ResolvedElement>,
    d: DeviceConfig,
    index: Seq<(String, String)>,
    n: int,
) -> Seq<u8>
    decreases n,
{
    if n <= 0 {
        Seq::empty()
    } else {
        elements_frames(b, rs, d, index, n - 1) + element_frames(b.board_elements@[n - 1], rs[n - 1], d, b.size.0, index)
    }
}

/// What a board renders to at `brightness`: nothing where it skips when dim and
/// the brightness is below the device's threshold; else the preamble, followed,
/// unless the brightness is zero, by the frames of each element in order.
pub open spec fn board_frames(
    b: BoardDefinition,
    rs: Seq<ResolvedElement>,
    d: DeviceConfig,
    brightness: u8,
    index: Seq<(String, String)>,
) -> Option<Seq<u8>> {
    if b.use_skip_brightness_threshold && brightness < d.picture_of_the_day_brightness_threshold {
        None
    } else if brightness == 0 {
        Some(preamble(brightness))
    } else {
        Some(preamble(brightness) + elements_frames(b, rs, d, index, b.board_elements@.len() as int))
    }
}

/// Renders a board at `brightness`, with `resolved[i]` the resolved text and
/// glyph widths of element `i`.
pub fn render_board(
    board: &BoardDefinition,
    device: &DeviceConfig,
    brightness: u8,
    resolved: &Vec<ResolvedElement>,
    index: &ImageIndex,
) -> (r: Option<Vec<u8>>)
    requires
        resolved@.len() == board.board_elements@.len(),
    ensures
        match r {
            Some(f) => board_frames(*board, resolved@, *device, brightness, index.entries@) == Some(f@),
            None => board_frames(*board, resolved@, *device, brightness, index.entries@) is None,
        },
{
    if board.use_skip_brightness_threshold && brightness < device.picture_of_the_day_brightness_threshold {
        return None;
    }
    let mut out = preamble_frames(brightness);
    if brightness == 0 {
        return Some(out);
    }
    let ghost pre = out@;
    let mut i: usize = 0;
    while i < board.board_elements.len()
        invariant
            i <= board.board_elements@.len(),
            resolved@.len() == board.board_elements@.len(),
            out@ == pre + elements_frames(*board, resolved@, *device, index.entries@, i as int),
        decreases board.board_elements@.len() - i,
    {
        let f = draw_element(&board.board_elements[i], &resolved[i], device, board.size.0, index);
        append(&mut out, f);
        i = i + 1;
        assert(out@ =~= pre + elements_frames(*board, resolved@, *device, index.entries@, i as int));
    }
    Some(out)
}

/// How much of a board is sent at a brightness, decided before any element
/// text is resolved.
#[derive(Clone, Copy, PartialEq, Eq, Structural, Debug)]
pub enum RenderPlan {
    /// Nothing: the board skips when dim and the device is dimmer than its
    /// threshold.
    Skip,
    /// The preamble alone, for brightness zero.
    PreambleOnly,
    /// The preamble and the frames of every element.
    Elements,
}

pub open spec fn plan_of(b: BoardDefinition, d: DeviceConfig, brightness: u8) -> RenderPlan {
    if b.use_skip_brightness_threshold && brightness < d.picture_of_the_day_brightness_threshold {
        RenderPlan::Skip
    } else if brightness == 0 {
        RenderPlan::PreambleOnly
    } else {
        RenderPlan::Elements
    }
}

/// What a board's rendering will be at `brightness`, without its element texts.
pub fn render_plan(board: &BoardDefinition, device: &DeviceConfig, brightness: u8) -> (r: RenderPlan)
    ensures
        r == plan_of(*board, *device, brightness),
{
    if board.use_skip_brightness_threshold && brightness < device.picture_of_the_day_brightness_threshold {
        RenderPlan::Skip
    } else if brightness == 0 {
        RenderPlan::PreambleOnly
    } else {
        RenderPlan::Elements
    }
}

/// The plan settles the rendering whatever the element texts turn out to be:
/// a skip renders to nothing and brightness zero to the preamble alone.
pub proof fn lemma_plan_decides(
    b: BoardDefinition,
    rs: Seq<ResolvedElement>,
    d: DeviceConfig,
    brightness: u8,
    index: Seq<(String, String)>,
)
    ensures
        plan_of(b, d, brightness) == RenderPlan::Skip ==> board_frames(b, rs, d, brightness, index) is None,
        plan_of(b, d, brightness) == RenderPlan::PreambleOnly ==> board_frames(b, rs, d, brightness, index)
            == Some(preamble(brightness)),
        plan_of(b, d, brightness) == RenderPlan::Elements ==> board_frames(b, rs, d, brightness, index)
            == Some(preamble(brightness) + elements_frames(b, rs, d, index, b.board_elements@.len() as int)),
{
}

/// The brightness, clear and white frames that open every board.
pub fn preamble_frames(brightness: u8) -> (r: Vec<u8>)
    ensures
        r@ == preamble(brightness),
{
    let mut out = Command::Brightness { percent: brightness }.encode();
    append(&mut out, Command::Clear.encode());
    append(&mut out, Command::Colour { r: 15, g: 15, b: 15 }.encode());
    out
}

pub open spec fn glyph_at(x: u8, c: char) -> Seq<u8> {
    frame_of(CommandView::Glyph { x, y: 9, ch: c as u8 })
}

/// The clock board (one centred `7x14B` text at row 9 on a board 64 wide),
/// with its text resolved to the time 14:05 in glyphs 7 columns wide, renders
/// at any brightness above zero to the preamble, a white colour frame, the
/// font frame `f7x14B====`, then one glyph frame per character of
/// `02:05 PM`, starting at column 4 and advancing by 7.
pub proof fn lemma_clock_board_at_1405(
    b: BoardDefinition,
    rs: Seq<ResolvedElement>,
    d: DeviceConfig,
    p: u8,
    index: Seq<(String, String)>,
)
    requires
        !b.use_skip_brightness_threshold,
        b.size.0 == 64,
        b.board_elements@.len() == 1,
        b.board_elements@[0].x is None,
        b.board_elements@[0].y == 9,
        b.board_elements@[0].colour == ColourOption::Default,
        b.board_elements@[0].font is Some && b.board_elements@[0].font->0@ == "7x14B"@,
        b.board_elements@[0].value is Text,
        rs.len() == 1,
        rs[0].text@ == time_text(14, 5),
        rs[0].widths@ == Seq::new(8, |i: int| 7u8),
        p > 0,
    ensures
        board_frames(b, rs, d, p, index) == Some(
            preamble(p) + frame_of(CommandView::Colour { r: 15, g: 15, b: 15 })
                + frame_of(CommandView::Font { name: seq![0x37u8, 0x78, 0x31, 0x34, 0x42] })
                + glyph_at(4, '0') + glyph_at(11, '2') + glyph_at(18, ':') + glyph_at(25, '0')
                + glyph_at(32, '5') + glyph_at(39, ' ') + glyph_at(46, 'P') + glyph_at(53, 'M'),
        ),
{
    reveal_strlit("7x14B");
    let t = rs[0].text@;
    let ws = rs[0].widths@;
    lemma_time_1405_chars();
    lemma_const_widths(8);
    let e = b.board_elements@[0];
    assert(font_name_of(e.font) == "7x14B"@);
    assert(name_bytes("7x14B"@) =~= seq![0x37u8, 0x78, 0x31, 0x34, 0x42]);
    lemma_clock_glyphs(t, ws);
    assert(elements_frames(b, rs, d, index, 0) == Seq::<u8>::empty());
    assert(elements_frames(b, rs, d, index, 1) =~= element_frames(e, rs[0], d, 64, index));
}

proof fn lemma_time_1405_chars()
    ensures
        time_text(14, 5) =~= seq!['0', '2', ':', '0', '5', ' ', 'P', 'M'],
{
    reveal_strlit("PM");
}

proof fn lemma_const_widths(k: nat)
    ensures
        width_sum(Seq::new(k, |i: int| 7u8)) == 7 * k,
    decreases k,
{
    if k > 0 {
        assert(Seq::new(k, |i: int| 7u8).drop_last() =~= Seq::new((k - 1) as nat, |i: int| 7u8));
        lemma_const_widths((k - 1) as nat);
    }
}

proof fn lemma_clock_glyphs(t: Seq<char>, ws: Seq<u8>)
    requires
        t == seq!['0', '2', ':', '0', '5', ' ', 'P', 'M'],
        ws == Seq::new(8, |i: int| 7u8),
    ensures
        glyph_frames(t, ws, 0, 4, 9) =~= glyph_at(4, '0') + glyph_at(11, '2') + glyph_at(18, ':') + glyph_at(25, '0')
            + glyph_at(32, '5') + glyph_at(39, ' ') + glyph_at(46, 'P') + glyph_at(53, 'M'),
{
    reveal_with_fuel(glyph_frames, 9);
}

} // verus!

//! Board definitions: named, sized layouts of text, images, pixels and lines.
use vstd::prelude::*;
use crate::colour::ColourOption;
use crate::text::{decimal, push_decimal, same_text};
use crate::variables::fresh_id;

verus! {

/// What an element draws.
#[derive(Clone, Debug)]
pub enum BoardElementValue {
    /// A text template.
    Text(String),
    /// An image path or template, and whether it is a template.
    Img(String, bool),
    /// One pixel.
    Pixel,
    /// A line to the end point, with a template that a temperature colour reads.
    Line(u8, u8, String),
}

/// One element of a board.
#[derive(Clone, Debug)]
pub struct BoardElement {
    pub name: String,
    /// `None` centres the element horizontally.
    pub x: Option<u8>,
    pub y: u8,
    pub colour: ColourOption,
    /// The font name; `None` is the baseline font.
    pub font: Option<String>,
    pub value: BoardElementValue,
}

/// A named board of a given size in cells.
#[derive(Debug)]
pub struct BoardDefinition {
    pub name: String,
    pub size: (u8, u8),
    pub board_elements: Vec<BoardElement>,
    /// Skip this board while the device is dimmer than its threshold.
    pub use_skip_brightness_threshold: bool,
}

impl Default for BoardElementValue {
    /// Empty text.
    fn default() -> (r: Self)
        ensures
            r is Text && value_text(r).len() == 0,
    {
        BoardElementValue::Text(String::new())
    }
}

/// The name prefix of a new element.
pub open spec fn new_element_prefix() -> Seq<char> {
    "New Element - "@
}

impl Default for BoardElement {
    /// A new element at the top, centred, in the default colour and font, with
    /// empty text, named with a random number.
    fn default() -> (r: Self)
        ensures
            exists|n: u32| r.name@ == new_element_prefix() + decimal(n as nat),
            r.x is None,
            r.y == 0,
            r.colour == ColourOption::Default,
            r.font is None,
            r.value is Text && value_text(r.value).len() == 0,
    {
        let mut name = "New Element - ".to_owned();
        let n = fresh_id();
        push_decimal(&mut name, n);
        BoardElement {
            name,
            x: None,
            y: 0,
            colour: ColourOption::Default,
            font: None,
            value: BoardElementValue::default(),
        }
    }
}

/// An element at row `y`, centred, in the default colour, showing `template`.
fn centred_text(name: &str, y: u8, font: Option<String>, template: &str) -> (r: BoardElement)
    ensures
        r.name@ == name@,
        r.x is None,
        r.y == y,
        r.colour == ColourOption::Default,
        r.font == font,
        r.value is Text && value_text(r.value) == template@,
{
    BoardElement {
        name: name.to_owned(),
        x: None,
        y,
        colour: ColourOption::Default,
        font,
        value: BoardElementValue::Text(template.to_owned()),
    }
}

impl Default for BoardDefinition {
    /// The `clock` board, 64x32: the weekday at row 0, the time in `7x14B` at
    /// row 9 and the date at row 24, each centred.
    fn default() -> (r: Self)
        ensures
            r.name@ == "clock"@,
            r.size == (64u8, 32u8),
            !r.use_skip_brightness_threshold,
            r.board_elements@.len() == 3,
            r.board_elements@[0].y == 0 && value_text(r.board_elements@[0].value) == "__weekday__"@
                && r.board_elements@[0].font is None,
            r.board_elements@[1].y == 9 && value_text(r.board_elements@[1].value) == "__time__"@
                && r.board_elements@[1].font is Some && r.board_elements@[1].font->0@ == "7x14B"@,
            r.board_elements@[2].y == 24 && value_text(r.board_elements@[2].value) == "__date__"@
                && r.board_elements@[2].font is None,
            forall|i: int| 0 <= i < 3 ==> (#[trigger] r.board_elements@[i]).x is None
                && r.board_elements@[i].colour == ColourOption::Default && r.board_elements@[i].value is Text,
    {
        let mut elements: Vec<BoardElement> = Vec::new();
        elements.push(centred_text("Weekday", 0, None, "__weekday__"));
        elements.push(centred_text("Time", 9, Some("7x14B".to_owned()), "__time__"));
        elements.push(centred_text("Date", 24, None, "__date__"));
        BoardDefinition {
            name: "clock".to_owned(),
            size: (64, 32),
            board_elements: elements,
            use_skip_brightness_threshold: false,
        }
    }
}

pub open spec fn same_value(a: BoardElementValue, b: BoardElementValue) -> bool {
    match (a, b) {
        (BoardElementValue::Text(x), BoardElementValue::Text(y)) => x@ == y@,
        (BoardElementValue::Img(x, d), BoardElementValue::Img(y, e)) => x@ == y@ && d == e,
        (BoardElementValue::Pixel, BoardElementValue::Pixel) => true,
        (BoardElementValue::Line(x1, y1, x), BoardElementValue::Line(x2, y2, y)) => x1 == x2 && y1 == y2 && x@ == y@,
        _ => false,
    }
}

impl PartialEq for BoardElementValue {
    fn eq(&self, other: &BoardElementValue) -> (r: bool) {
        match (self, other) {
            (BoardElementValue::Text(x), BoardElementValue::Text(y)) => *x == *y,
            (BoardElementValue::Img(x, d), BoardElementValue::Img(y, e)) => *x == *y && *d == *e,
            (BoardElementValue::Pixel, BoardElementValue::Pixel) => true,
            (BoardElementValue::Line(x1, y1, x), BoardElementValue::Line(x2, y2, y)) => *x1 == *x2 && *y1 == *y2 && *x == *y,
            _ => false,
        }
    }
}

impl vstd::std_specs::cmp::PartialEqSpecImpl for BoardElementValue {
    open spec fn obeys_eq_spec() -> bool {
        true
    }

    open spec fn eq_spec(&self, other: &BoardElementValue) -> bool {
        same_value(*self, *other)
    }
}

pub open spec fn same_font(a: Option<String>, b: Option<String>) -> bool {
    match (a, b) {
        (Some(x), Some(y)) => x@ == y@,
        (None, None) => true,
        _ => false,
    }
}

impl PartialEq for BoardElement {
    /// Two elements are equal where every field is.
    fn eq(&self, other: &BoardElement) -> (r: bool) {
        let fonts_equal = match (&self.font, &other.font) {
            (Some(x), Some(y)) => *x == *y,
            (None, None) => true,
            _ => false,
        };
        self.name == other.name && self.x == other.x && self.y == other.y && self.colour == other.colour
            && fonts_equal && self.value == other.value
    }
}

impl vstd::std_specs::cmp::PartialEqSpecImpl for BoardElement {
    open spec fn obeys_eq_spec() -> bool {
        true
    }

    open spec fn eq_spec(&self, other: &BoardElement) -> bool {
        self.name@ == other.name@ && self.x == other.x && self.y == other.y && self.colour == other.colour
            && same_font(self.font, other.font) && same_value(self.value, other.value)
    }
}

/// Whether a flag is off.
pub fn is_false(b: &bool) -> (r: bool)
    ensures
        r == !*b,
{
    !*b
}

impl BoardElement {
    /// Overwrites every field with those of `new_values`.
    pub fn set(&mut self, new_values: BoardElement)
        ensures
            *final(self) == new_values,
    {
        *self = new_values;
    }
}

pub open spec fn value_type_label(i: int) -> Seq<char> {
    if i == 0 {
        "Text"@
    } else if i == 1 {
        "Image"@
    } else if i == 2 {
        "Pixel"@
    } else {
        "Line"@
    }
}

pub open spec fn value_kind(v: BoardElementValue) -> int {
    match v {
        BoardElementValue::Text(_) => 0,
        BoardElementValue::Img(..) => 1,
        BoardElementValue::Pixel => 2,
        BoardElementValue::Line(..) => 3,
    }
}

/// The text an element value carries; empty for a pixel.
pub open spec fn value_text(v: BoardElementValue) -> Seq<char> {
    match v {
        BoardElementValue::Text(s) => s@,
        BoardElementValue::Img(s, _) => s@,
        BoardElementValue::Pixel => Seq::empty(),
        BoardElementValue::Line(_, _, s) => s@,
    }
}

impl BoardElementValue {
    /// The label of this value's kind and the text it carries.
    pub fn extract_element_value(&self) -> (r: (String, String))
        ensures
            r.0@ == value_type_label(value_kind(*self)),
            r.1@ == value_text(*self),
    {
        match self {
            BoardElementValue::Text(x) => ("Text".to_owned(), x.clone()),
            BoardElementValue::Img(x, _) => ("Image".to_owned(), x.clone()),
            BoardElementValue::Pixel => ("Pixel".to_owned(), String::new()),
            BoardElementValue::Line(_, _, x) => ("Line".to_owned(), x.clone()),
        }
    }

    /// The label of this value's kind.
    pub fn get_type(&self) -> (r: String)
        ensures
            r@ == value_type_label(value_kind(*self)),
    {
        match self {
            BoardElementValue::Text(_) => "Text".to_owned(),
            BoardElementValue::Img(..) => "Image".to_owned(),
            BoardElementValue::Pixel => "Pixel".to_owned(),
            BoardElementValue::Line(..) => "Line".to_owned(),
        }
    }

    /// The text an element resolves, and whether its `__name__` tokens are
    /// substituted: always for text and lines, for an image only where it is
    /// marked as a template; a pixel has no text.
    pub fn template(&self) -> (r: (String, bool))
        ensures
            r.0@ == value_text(*self),
            r.1 == match *self {
                BoardElementValue::Img(_, dynamic) => dynamic,
                BoardElementValue::Pixel => false,
                _ => true,
            },
    {
        match self {
            BoardElementValue::Text(x) => (x.clone(), true),
            BoardElementValue::Img(x, dynamic) => (x.clone(), *dynamic),
            BoardElementValue::Pixel => (String::new(), false),
            BoardElementValue::Line(_, _, x) => (x.clone(), true),
        }
    }

    /// The labels of the four kinds, in order.
    pub fn get_types() -> (r: Vec<String>)
        ensures
            r@.len() == 4,
            forall|i: int| 0 <= i < 4 ==> #[trigger] r@[i]@ == value_type_label(i),
    {
        let mut v: Vec<String> = Vec::new();
        v.push("Text".to_owned());
        v.push("Image".to_owned());
        v.push("Pixel".to_owned());
        v.push("Line".to_owned());
        v
    }

    /// The value of the kind a label names, carrying `value`; a line starts at
    /// the origin, and an unknown label gives text.
    pub fn from_strings(type_string: &str, value: String, dynamic_img: bool) -> (r: BoardElementValue)
        ensures
            type_string@ == value_type_label(1) ==> r == BoardElementValue::Img(value, dynamic_img),
            type_string@ == value_type_label(2) ==> r == BoardElementValue::Pixel,
            type_string@ == value_type_label(3) ==> r == BoardElementValue::Line(0, 0, value),
            type_string@ != value_type_label(1) && type_string@ != value_type_label(2)
                && type_string@ != value_type_label(3) ==> r == BoardElementValue::Text(value),
    {
        proof {
            reveal_strlit("Image");
            reveal_strlit("Pixel");
            reveal_strlit("Line");
            assert(value_type_label(1)[0] != value_type_label(2)[0]);
            assert(value_type_label(1)[0] != value_type_label(3)[0]);
            assert(value_type_label(2)[0] != value_type_label(3)[0]);
        }
        if same_text(type_string, "Image") {
            BoardElementValue::Img(value, dynamic_img)
        } else if same_text(type_string, "Pixel") {
            BoardElementValue::Pixel
        } else if same_text(type_string, "Line") {
            BoardElementValue::Line(0, 0, value)
        } else {
            BoardElementValue::Text(value)
        }
    }
}

} // verus!

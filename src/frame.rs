//! The wire codec: every instruction is one ten-byte ASCII frame, an opcode
//! followed by positional fields padded with `=`.
use vstd::prelude::*;

verus! {

/// Length of every frame on the wire.
pub const FRAME_LEN: usize = 10;

/// The filler byte that pads a field shorter than its slot.
pub const FILL: u8 = 0x3D;

/// One decoded protocol instruction.
#[derive(Clone, Debug, PartialEq, Eq)]
pub enum Command {
    /// `b`: set global brightness, a percentage sent as three decimal digits.
    Brightness { percent: u8 },
    /// `x`: clear the canvas to black.
    Clear,
    /// `c`: set the draw colour, one hex nibble per channel.
    Colour { r: u8, g: u8, b: u8 },
    /// `l`: draw a one-pixel line in the current colour.
    Line { x1: u8, y1: u8, x2: u8, y2: u8 },
    /// `p`: draw one pixel in the current colour.
    Pixel { x: u8, y: u8 },
    /// `q`: draw one pixel in an explicit colour (hex nibbles).
    ColouredPixel { x: u8, y: u8, r: u8, g: u8, b: u8 },
    /// `f`: select a font by name (at most nine bytes, no filler inside).
    Font { name: Vec<u8> },
    /// `t`: draw one glyph of the active font.
    Glyph { x: u8, y: u8, ch: u8 },
    /// `j`: draw a glyph from the special table, chosen by a selector byte.
    Special { x: u8, y: u8, selector: u8 },
    /// `i`: blit the bitmap named by a five-byte key (padded with filler).
    Image { x: u8, y: u8, key: Vec<u8> },
    /// `s`: end of board.
    EndOfBoard,
    /// Any other opcode.
    Unknown { op: u8 },
}

/// The mathematical value of a [`Command`]: byte strings in place of vectors.
pub enum CommandView {
    Brightness { percent: u8 },
    Clear,
    Colour { r: u8, g: u8, b: u8 },
    Line { x1: u8, y1: u8, x2: u8, y2: u8 },
    Pixel { x: u8, y: u8 },
    ColouredPixel { x: u8, y: u8, r: u8, g: u8, b: u8 },
    Font { name: Seq<u8> },
    Glyph { x: u8, y: u8, ch: u8 },
    Special { x: u8, y: u8, selector: u8 },
    Image { x: u8, y: u8, key: Seq<u8> },
    EndOfBoard,
    Unknown { op: u8 },
}

impl View for Command {
    type V = CommandView;

    open spec fn view(&self) -> CommandView {
        match self {
            Command::Brightness { percent } => CommandView::Brightness { percent: *percent },
            Command::Clear => CommandView::Clear,
            Command::Colour { r, g, b } => CommandView::Colour { r: *r, g: *g, b: *b },
            Command::Line { x1, y1, x2, y2 } => CommandView::Line { x1: *x1, y1: *y1, x2: *x2, y2: *y2 },
            Command::Pixel { x, y } => CommandView::Pixel { x: *x, y: *y },
            Command::ColouredPixel { x, y, r, g, b } =>
                CommandView::ColouredPixel { x: *x, y: *y, r: *r, g: *g, b: *b },
            Command::Font { name } => CommandView::Font { name: name@ },
            Command::Glyph { x, y, ch } => CommandView::Glyph { x: *x, y: *y, ch: *ch },
            Command::Special { x, y, selector } => CommandView::Special { x: *x, y: *y, selector: *selector },
            Command::Image { x, y, key } => CommandView::Image { x: *x, y: *y, key: key@ },
            Command::EndOfBoard => CommandView::EndOfBoard,
            Command::Unknown { op } => CommandView::Unknown { op: *op },
        }
    }
}

pub open spec fn is_digit(b: u8) -> bool {
    0x30 <= b <= 0x39
}

/// Value of one decimal digit byte.
pub open spec fn digit_value(b: u8) -> int {
    b - 0x30
}

/// Value of one hexadecimal digit byte, either case; `None` for any other byte.
pub open spec fn hex_value(b: u8) -> Option<u8> {
    if 0x30 <= b <= 0x39 {
        Some((b - 0x30) as u8)
    } else if 0x41 <= b <= 0x46 {
        Some((b - 0x41 + 10) as u8)
    } else if 0x61 <= b <= 0x66 {
        Some((b - 0x61 + 10) as u8)
    } else {
        None
    }
}

/// The decimal digit byte for `n < 10`.
pub open spec fn digit_byte(n: u8) -> u8 {
    (0x30 + n) as u8
}

/// The upper-case hex digit byte for `n < 16`.
pub open spec fn hex_byte(n: u8) -> u8 {
    if n < 10 {
        (0x30 + n) as u8
    } else {
        (0x41 + n - 10) as u8
    }
}

/// Two decimal digits for `n < 100`.
pub open spec fn dec2(n: u8) -> Seq<u8> {
    seq![digit_byte(n / 10), digit_byte(n % 10)]
}

/// Three decimal digits, zero padded.
pub open spec fn dec3(n: u8) -> Seq<u8> {
    seq![digit_byte(n / 100), digit_byte((n / 10) % 10), digit_byte(n % 10)]
}

pub open spec fn fill(n: nat) -> Seq<u8> {
    Seq::new(n, |i: int| FILL)
}

/// `s` followed by filler up to `n` bytes.
pub open spec fn padded(s: Seq<u8>, n: nat) -> Seq<u8> {
    s + fill((n - s.len()) as nat)
}

/// The ten bytes that encode `c`.
pub open spec fn frame_of(c: CommandView) -> Seq<u8> {
    match c {
        CommandView::Brightness { percent } => seq![0x62u8] + dec3(percent) + fill(6),
        CommandView::Clear => seq![0x78u8] + fill(9),
        CommandView::Colour { r, g, b } => seq![0x63u8, hex_byte(r), hex_byte(g), hex_byte(b)] + fill(6),
        CommandView::Line { x1, y1, x2, y2 } => seq![0x6cu8] + dec2(x1) + dec2(y1) + dec2(x2) + dec2(y2) + fill(1),
        CommandView::Pixel { x, y } => seq![0x70u8] + dec2(x) + dec2(y) + fill(5),
        CommandView::ColouredPixel { x, y, r, g, b } =>
            seq![0x71u8] + dec2(x) + dec2(y) + seq![hex_byte(r), hex_byte(g), hex_byte(b)] + fill(2),
        CommandView::Font { name } => seq![0x66u8] + padded(name, 9),
        CommandView::Glyph { x, y, ch } => seq![0x74u8] + dec2(x) + dec2(y) + seq![ch] + fill(4),
        CommandView::Special { x, y, selector } => seq![0x6au8] + dec2(x) + dec2(y) + seq![selector] + fill(4),
        CommandView::Image { x, y, key } => seq![0x69u8] + dec2(x) + dec2(y) + key,
        CommandView::EndOfBoard => seq![0x73u8] + fill(9),
        CommandView::Unknown { op } => seq![op] + fill(9),
    }
}

/// The commands that have a frame: every numeric field fits its slot, names and
/// keys fit theirs, and an unknown opcode is none of the known ones.
pub open spec fn encodable(c: CommandView) -> bool {
    match c {
        CommandView::Brightness { .. } => true,
        CommandView::Clear => true,
        CommandView::Colour { r, g, b } => r < 16 && g < 16 && b < 16,
        CommandView::Line { x1, y1, x2, y2 } => x1 < 100 && y1 < 100 && x2 < 100 && y2 < 100,
        CommandView::Pixel { x, y } => x < 100 && y < 100,
        CommandView::ColouredPixel { x, y, r, g, b } => x < 100 && y < 100 && r < 16 && g < 16 && b < 16,
        CommandView::Font { name } => name.len() <= 9 && !name.contains(FILL),
        CommandView::Glyph { x, y, .. } => x < 100 && y < 100,
        CommandView::Special { x, y, .. } => x < 100 && y < 100,
        CommandView::Image { x, y, key } => x < 100 && y < 100 && key.len() == 5,
        CommandView::EndOfBoard => true,
        CommandView::Unknown { op } => !known_op(op),
    }
}

pub open spec fn known_op(op: u8) -> bool {
    op == 0x62 || op == 0x78 || op == 0x63 || op == 0x6c || op == 0x70 || op == 0x71 || op == 0x66
        || op == 0x74 || op == 0x6a || op == 0x69 || op == 0x73
}

/// The two decimal digits at `i`, if both are digits.
pub open spec fn dec2_at(f: Seq<u8>, i: int) -> Option<u8> {
    if is_digit(f[i]) && is_digit(f[i + 1]) {
        Some((digit_value(f[i]) * 10 + digit_value(f[i + 1])) as u8)
    } else {
        None
    }
}

/// Index of the first filler byte of `f` from position 1 on, or the frame length.
pub open spec fn name_end(f: Seq<u8>) -> int
    decreases 0int,
{
    first_fill_from(f, 1)
}

pub open spec fn first_fill_from(f: Seq<u8>, i: int) -> int
    decreases f.len() - i,
{
    if i >= f.len() {
        f.len() as int
    } else if f[i] == FILL {
        i
    } else {
        first_fill_from(f, i + 1)
    }
}

/// What a ten-byte frame means: `None` where a numeric field holds something else.
pub open spec fn parse_frame(f: Seq<u8>) -> Option<CommandView> {
    let op = f[0];
    if op == 0x62 {
        if is_digit(f[1]) && is_digit(f[2]) && is_digit(f[3]) {
            let v = digit_value(f[1]) * 100 + digit_value(f[2]) * 10 + digit_value(f[3]);
            if v <= 255 {
                Some(CommandView::Brightness { percent: v as u8 })
            } else {
                None
            }
        } else {
            None
        }
    } else if op == 0x78 {
        Some(CommandView::Clear)
    } else if op == 0x63 {
        match (hex_value(f[1]), hex_value(f[2]), hex_value(f[3])) {
            (Some(r), Some(g), Some(b)) => Some(CommandView::Colour { r, g, b }),
            _ => None,
        }
    } else if op == 0x6c {
        match (dec2_at(f, 1), dec2_at(f, 3), dec2_at(f, 5), dec2_at(f, 7)) {
            (Some(x1), Some(y1), Some(x2), Some(y2)) => Some(CommandView::Line { x1, y1, x2, y2 }),
            _ => None,
        }
    } else if op == 0x70 {
        match (dec2_at(f, 1), dec2_at(f, 3)) {
            (Some(x), Some(y)) => Some(CommandView::Pixel { x, y }),
            _ => None,
        }
    } else if op == 0x71 {
        match (dec2_at(f, 1), dec2_at(f, 3), hex_value(f[5]), hex_value(f[6]), hex_value(f[7])) {
            (Some(x), Some(y), Some(r), Some(g), Some(b)) => Some(CommandView::ColouredPixel { x, y, r, g, b }),
            _ => None,
        }
    } else if op == 0x66 {
        Some(CommandView::Font { name: f.subrange(1, name_end(f)) })
    } else if op == 0x74 {
        match (dec2_at(f, 1), dec2_at(f, 3)) {
            (Some(x), Some(y)) => Some(CommandView::Glyph { x, y, ch: f[5] }),
            _ => None,
        }
    } else if op == 0x6a {
        match (dec2_at(f, 1), dec2_at(f, 3)) {
            (Some(x), Some(y)) => Some(CommandView::Special { x, y, selector: f[5] }),
            _ => None,
        }
    } else if op == 0x69 {
        match (dec2_at(f, 1), dec2_at(f, 3)) {
            (Some(x), Some(y)) => Some(CommandView::Image { x, y, key: f.subrange(5, 10) }),
            _ => None,
        }
    } else if op == 0x73 {
        Some(CommandView::EndOfBoard)
    } else {
        Some(CommandView::Unknown { op })
    }
}

proof fn lemma_digit(d: u8)
    requires
        d < 10,
    ensures
        is_digit(digit_byte(d)),
        digit_value(digit_byte(d)) == d,
{
}

proof fn lemma_hex(n: u8)
    requires
        n < 16,
    ensures
        hex_value(hex_byte(n)) == Some(n),
{
}

proof fn lemma_dec2(f: Seq<u8>, i: int, n: u8)
    requires
        n < 100,
        0 <= i,
        i + 1 < f.len(),
        f[i] == dec2(n)[0],
        f[i + 1] == dec2(n)[1],
    ensures
        dec2_at(f, i) == Some(n),
{
    lemma_digit(n / 10);
    lemma_digit(n % 10);
}

proof fn lemma_first_fill(f: Seq<u8>, i: int, j: int)
    requires
        1 <= i <= j <= f.len(),
        forall|k: int| i <= k < j ==> f[k] != FILL,
        j == f.len() || f[j] == FILL,
    ensures
        first_fill_from(f, i) == j,
    decreases j - i,
{
    if i < j {
        lemma_first_fill(f, i + 1, j);
    }
}

/// Decoding the frame of an encodable command gives that command back.
#[verifier::rlimit(60)]
pub proof fn lemma_frame_round_trip(c: CommandView)
    requires
        encodable(c),
    ensures
        frame_of(c).len() == FRAME_LEN,
        parse_frame(frame_of(c)) == Some(c),
{
    let f = frame_of(c);
    match c {
        CommandView::Brightness { percent } => {
            lemma_digit(percent / 100);
            lemma_digit((percent / 10) % 10);
            lemma_digit(percent % 10);
            assert(f[1] == digit_byte(percent / 100));
            assert(f[2] == digit_byte((percent / 10) % 10));
            assert(f[3] == digit_byte(percent % 10));
        },
        CommandView::Clear => {},
        CommandView::Colour { r, g, b } => {
            lemma_hex(r);
            lemma_hex(g);
            lemma_hex(b);
        },
        CommandView::Line { x1, y1, x2, y2 } => {
            lemma_dec2(f, 1, x1);
            lemma_dec2(f, 3, y1);
            lemma_dec2(f, 5, x2);
            lemma_dec2(f, 7, y2);
        },
        CommandView::Pixel { x, y } => {
            lemma_dec2(f, 1, x);
            lemma_dec2(f, 3, y);
        },
        CommandView::ColouredPixel { x, y, r, g, b } => {
            lemma_dec2(f, 1, x);
            lemma_dec2(f, 3, y);
            lemma_hex(r);
            lemma_hex(g);
            lemma_hex(b);
        },
        CommandView::Font { name } => {
            let n = name.len() as int;
            assert forall|k: int| 1 <= k < 1 + n implies f[k] != FILL by {
                assert(f[k] == name[k - 1]);
            }
            lemma_first_fill(f, 1, 1 + n);
            assert(f.subrange(1, 1 + n) =~= name);
        },
        CommandView::Glyph { x, y, ch } => {
            lemma_dec2(f, 1, x);
            lemma_dec2(f, 3, y);
        },
        CommandView::Special { x, y, selector } => {
            lemma_dec2(f, 1, x);
            lemma_dec2(f, 3, y);
        },
        CommandView::Image { x, y, key } => {
            lemma_dec2(f, 1, x);
            lemma_dec2(f, 3, y);
            assert(f.subrange(5, 10) =~= key);
        },
        CommandView::EndOfBoard => {},
        CommandView::Unknown { op } => {},
    }
}

fn digit(n: u8) -> (r: u8)
    requires
        n < 10,
    ensures
        r == digit_byte(n),
{
    0x30 + n
}

fn hex_digit(n: u8) -> (r: u8)
    requires
        n < 16,
    ensures
        r == hex_byte(n),
{
    if n < 10 {
        0x30 + n
    } else {
        0x41 + n - 10
    }
}

fn push_dec2(v: &mut Vec<u8>, n: u8)
    requires
        n < 100,
    ensures
        final(v)@ == old(v)@ + dec2(n),
{
    v.push(digit(n / 10));
    v.push(digit(n % 10));
}

fn push_fill(v: &mut Vec<u8>, n: usize)
    ensures
        final(v)@ == old(v)@ + fill(n as nat),
{
    let ghost start = v@;
    let mut i: usize = 0;
    while i < n
        invariant
            i <= n,
            v@ == start + fill(i as nat),
        decreases n - i,
    {
        v.push(FILL);
        i = i + 1;
        assert(v@ =~= start + fill(i as nat));
    }
    assert(v@ =~= start + fill(n as nat));
}

fn push_bytes(v: &mut Vec<u8>, s: &Vec<u8>)
    ensures
        final(v)@ == old(v)@ + s@,
{
    let ghost start = v@;
    let mut i: usize = 0;
    while i < s.len()
        invariant
            i <= s@.len(),
            v@ == start + s@.subrange(0, i as int),
        decreases s@.len() - i,
    {
        v.push(s[i]);
        i = i + 1;
        assert(v@ =~= start + s@.subrange(0, i as int));
    }
    assert(s@.subrange(0, s@.len() as int) =~= s@);
}

impl Command {
    /// The ten bytes of this command on the wire.
    pub fn encode(&self) -> (r: Vec<u8>)
        requires
            encodable(self@),
        ensures
            r@ == frame_of(self@),
            r@.len() == FRAME_LEN,
    {
        proof {
            lemma_frame_round_trip(self@);
        }
        let mut v: Vec<u8> = Vec::new();
        match self {
            Command::Brightness { percent } => {
                v.push(0x62);
                v.push(digit(*percent / 100));
                v.push(digit((*percent / 10) % 10));
                v.push(digit(*percent % 10));
                push_fill(&mut v, 6);
            },
            Command::Clear => {
                v.push(0x78);
                push_fill(&mut v, 9);
            },
            Command::Colour { r, g, b } => {
                v.push(0x63);
                v.push(hex_digit(*r));
                v.push(hex_digit(*g));
                v.push(hex_digit(*b));
                push_fill(&mut v, 6);
            },
            Command::Line { x1, y1, x2, y2 } => {
                v.push(0x6c);
                push_dec2(&mut v, *x1);
                push_dec2(&mut v, *y1);
                push_dec2(&mut v, *x2);
                push_dec2(&mut v, *y2);
                push_fill(&mut v, 1);
            },
            Command::Pixel { x, y } => {
                v.push(0x70);
                push_dec2(&mut v, *x);
                push_dec2(&mut v, *y);
                push_fill(&mut v, 5);
            },
            Command::ColouredPixel { x, y, r, g, b } => {
                v.push(0x71);
                push_dec2(&mut v, *x);
                push_dec2(&mut v, *y);
                v.push(hex_digit(*r));
                v.push(hex_digit(*g));
                v.push(hex_digit(*b));
                push_fill(&mut v, 2);
            },
            Command::Font { name } => {
                v.push(0x66);
                push_bytes(&mut v, name);
                push_fill(&mut v, 9 - name.len());
            },
            Command::Glyph { x, y, ch } => {
                v.push(0x74);
                push_dec2(&mut v, *x);
                push_dec2(&mut v, *y);
                v.push(*ch);
                push_fill(&mut v, 4);
            },
            Command::Special { x, y, selector } => {
                v.push(0x6a);
                push_dec2(&mut v, *x);
                push_dec2(&mut v, *y);
                v.push(*selector);
                push_fill(&mut v, 4);
            },
            Command::Image { x, y, key } => {
                v.push(0x69);
                push_dec2(&mut v, *x);
                push_dec2(&mut v, *y);
                push_bytes(&mut v, key);
            },
            Command::EndOfBoard => {
                v.push(0x73);
                push_fill(&mut v, 9);
            },
            Command::Unknown { op } => {
                v.push(*op);
                push_fill(&mut v, 9);
            },
        }
        assert(v@ =~= frame_of(self@));
        v
    }
}

fn hex_val(b: u8) -> (r: Option<u8>)
    ensures
        r == hex_value(b),
{
    if 0x30 <= b && b <= 0x39 {
        Some(b - 0x30)
    } else if 0x41 <= b && b <= 0x46 {
        Some(b - 0x41 + 10)
    } else if 0x61 <= b && b <= 0x66 {
        Some(b - 0x61 + 10)
    } else {
        None
    }
}

fn dec2_val(f: &[u8], i: usize) -> (r: Option<u8>)
    requires
        i + 1 < f@.len(),
    ensures
        r == dec2_at(f@, i as int),
{
    let a = f[i];
    let b = f[i + 1];
    if 0x30 <= a && a <= 0x39 && 0x30 <= b && b <= 0x39 {
        Some((a - 0x30) * 10 + (b - 0x30))
    } else {
        None
    }
}

fn copy_range(f: &[u8], lo: usize, hi: usize) -> (r: Vec<u8>)
    requires
        lo <= hi <= f@.len(),
    ensures
        r@ == f@.subrange(lo as int, hi as int),
{
    let mut v: Vec<u8> = Vec::new();
    let mut i: usize = lo;
    while i < hi
        invariant
            lo <= i <= hi,
            hi <= f@.len(),
            v@ == f@.subrange(lo as int, i as int),
        decreases hi - i,
    {
        v.push(f[i]);
        i = i + 1;
        assert(v@ =~= f@.subrange(lo as int, i as int));
    }
    v
}

fn find_name_end(f: &[u8]) -> (r: usize)
    requires
        f@.len() == FRAME_LEN,
    ensures
        r as int == name_end(f@),
        1 <= r <= FRAME_LEN,
{
    let mut i: usize = 1;
    while i < f.len() && f[i] != FILL
        invariant
            1 <= i <= f@.len(),
            f@.len() == FRAME_LEN,
            forall|k: int| 1 <= k < i ==> f@[k] != FILL,
        decreases f@.len() - i,
    {
        i = i + 1;
    }
    proof {
        lemma_first_fill(f@, 1, i as int);
    }
    i
}

impl Command {
    /// Reads one frame; `None` where a numeric field holds something that is no
    /// number of its kind (the frame is then dropped).
    pub fn decode(f: &[u8]) -> (r: Option<Command>)
        requires
            f@.len() == FRAME_LEN,
        ensures
            match r {
                Some(c) => parse_frame(f@) == Some(c@),
                None => parse_frame(f@) is None,
            },
    {
        let op = f[0];
        if op == 0x62 {
            let (a, b, c) = (f[1], f[2], f[3]);
            if 0x30 <= a && a <= 0x39 && 0x30 <= b && b <= 0x39 && 0x30 <= c && c <= 0x39 {
                let v: u32 = (a - 0x30) as u32 * 100 + (b - 0x30) as u32 * 10 + (c - 0x30) as u32;
                if v <= 255 {
                    Some(Command::Brightness { percent: v as u8 })
                } else {
                    None
                }
            } else {
                None
            }
        } else if op == 0x78 {
            Some(Command::Clear)
        } else if op == 0x63 {
            match (hex_val(f[1]), hex_val(f[2]), hex_val(f[3])) {
                (Some(r), Some(g), Some(b)) => Some(Command::Colour { r, g, b }),
                _ => None,
            }
        } else if op == 0x6c {
            match (dec2_val(f, 1), dec2_val(f, 3), dec2_val(f, 5), dec2_val(f, 7)) {
                (Some(x1), Some(y1), Some(x2), Some(y2)) => Some(Command::Line { x1, y1, x2, y2 }),
                _ => None,
            }
        } else if op == 0x70 {
            match (dec2_val(f, 1), dec2_val(f, 3)) {
                (Some(x), Some(y)) => Some(Command::Pixel { x, y }),
                _ => None,
            }
        } else if op == 0x71 {
            match (dec2_val(f, 1), dec2_val(f, 3), hex_val(f[5]), hex_val(f[6]), hex_val(f[7])) {
                (Some(x), Some(y), Some(r), Some(g), Some(b)) => Some(
                    Command::ColouredPixel { x, y, r, g, b },
                ),
                _ => None,
            }
        } else if op == 0x66 {
            let end = find_name_end(f);
            Some(Command::Font { name: copy_range(f, 1, end) })
        } else if op == 0x74 {
            match (dec2_val(f, 1), dec2_val(f, 3)) {
                (Some(x), Some(y)) => Some(Command::Glyph { x, y, ch: f[5] }),
                _ => None,
            }
        } else if op == 0x6a {
            match (dec2_val(f, 1), dec2_val(f, 3)) {
                (Some(x), Some(y)) => Some(Command::Special { x, y, selector: f[5] }),
                _ => None,
            }
        } else if op == 0x69 {
            match (dec2_val(f, 1), dec2_val(f, 3)) {
                (Some(x), Some(y)) => Some(Command::Image { x, y, key: copy_range(f, 5, 10) }),
                _ => None,
            }
        } else if op == 0x73 {
            Some(Command::EndOfBoard)
        } else {
            Some(Command::Unknown { op })
        }
    }
}

} // verus!

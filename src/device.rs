//! Per-device configuration, and the brightness schedule.
use vstd::prelude::*;
use crate::colour::TemperatureColours;
use crate::json::{parse_index, parse_index_exec};
use crate::text::chars_of;
use chrono::Timelike;

verus! {

/// One entry of a brightness schedule: up to `time` (`HH:MM`), use `percentage`.
#[derive(Clone, Debug)]
pub struct Brightness {
    pub time: String,
    pub percentage: u8,
}

/// The brightness used when no schedule entry lies ahead of the current time.
pub const DEFAULT_BRIGHTNESS: u8 = 66;

impl Default for Brightness {
    fn default() -> (r: Self)
        ensures
            r.time@ == "24:00"@,
            r.percentage == DEFAULT_BRIGHTNESS,
    {
        Brightness { time: "24:00".to_owned(), percentage: DEFAULT_BRIGHTNESS }
    }
}

/// The configuration of one display device.
#[derive(Debug)]
pub struct DeviceConfig {
    pub name: String,
    /// Width and height in cells.
    pub size: (u8, u8),
    pub temperature_colours: TemperatureColours,
    /// Board names, shown in a cycle.
    pub boards: Vec<String>,
    pub brightness: Vec<Brightness>,
    /// Boards that skip when dim are skipped below this brightness.
    pub picture_of_the_day_brightness_threshold: u8,
    pub proto_version: u64,
}

impl Default for DeviceConfig {
    fn default() -> (r: Self)
        ensures
            r.name@ == "New Device"@,
            r.size == (64u8, 32u8),
            r.temperature_colours == (TemperatureColours { freezing: 32, cold: 40, neutral: 72, warm: 82 }),
            r.boards@.len() == 1,
            r.boards@[0]@ == "clock"@,
            r.brightness@.len() == 0,
            r.picture_of_the_day_brightness_threshold == 25,
            r.proto_version == 0,
    {
        let mut boards: Vec<String> = Vec::new();
        boards.push("clock".to_owned());
        DeviceConfig {
            name: "New Device".to_owned(),
            size: (64, 32),
            temperature_colours: TemperatureColours::default(),
            boards,
            brightness: Vec::new(),
            picture_of_the_day_brightness_threshold: 25,
            proto_version: 0,
        }
    }
}

/// Whether `a` holds the same configuration as `b`, field by field.
pub open spec fn copy_of(a: DeviceConfig, b: DeviceConfig) -> bool {
    &&& a.name@ == b.name@
    &&& a.size == b.size
    &&& a.temperature_colours == b.temperature_colours
    &&& a.boards@.len() == b.boards@.len()
    &&& forall|i: int| 0 <= i < b.boards@.len() ==> #[trigger] a.boards@[i]@ == b.boards@[i]@
    &&& a.brightness@.len() == b.brightness@.len()
    &&& forall|i: int| 0 <= i < b.brightness@.len() ==> (#[trigger] a.brightness@[i]).time@ == b.brightness@[i].time@
        && a.brightness@[i].percentage == b.brightness@[i].percentage
    &&& a.picture_of_the_day_brightness_threshold == b.picture_of_the_day_brightness_threshold
    &&& a.proto_version == b.proto_version
}

impl DeviceConfig {
    /// A copy of this configuration.
    pub fn duplicate(&self) -> (r: DeviceConfig)
        ensures
            copy_of(r, *self),
    {
        let mut boards: Vec<String> = Vec::new();
        let mut i: usize = 0;
        while i < self.boards.len()
            invariant
                i <= self.boards@.len(),
                boards@.len() == i,
                forall|k: int| 0 <= k < i ==> #[trigger] boards@[k]@ == self.boards@[k]@,
            decreases self.boards@.len() - i,
        {
            boards.push(self.boards[i].clone());
            i = i + 1;
        }
        let mut brightness: Vec<Brightness> = Vec::new();
        let mut j: usize = 0;
        while j < self.brightness.len()
            invariant
                j <= self.brightness@.len(),
                brightness@.len() == j,
                forall|k: int| 0 <= k < j ==> (#[trigger] brightness@[k]).time@ == self.brightness@[k].time@
                    && brightness@[k].percentage == self.brightness@[k].percentage,
            decreases self.brightness@.len() - j,
        {
            let b = &self.brightness[j];
            brightness.push(Brightness { time: b.time.clone(), percentage: b.percentage });
            j = j + 1;
        }
        DeviceConfig {
            name: self.name.clone(),
            size: self.size,
            temperature_colours: self.temperature_colours,
            boards,
            brightness,
            picture_of_the_day_brightness_threshold: self.picture_of_the_day_brightness_threshold,
            proto_version: self.proto_version,
        }
    }
}

/// A `u32` in decimal: one or more ASCII digits.
pub open spec fn parse_u32(s: Seq<char>) -> Option<int> {
    match parse_index(s) {
        Some(v) => if v <= u32::MAX {
            Some(v)
        } else {
            None
        },
        None => None,
    }
}

/// Index of the first `:` in `s`, if any.
pub open spec fn colon_at(s: Seq<char>, i: int) -> bool {
    0 <= i < s.len() && s[i] == ':' && forall|k: int| 0 <= k < i ==> s[k] != ':'
}

/// Milliseconds since midnight that an `HH:MM` string names, modulo 2^32;
/// zero where the string is not two `:`-separated decimal numbers.
pub open spec fn time_string_ms(s: Seq<char>) -> int {
    if exists|i: int| colon_at(s, i) {
        let i = choose|i: int| colon_at(s, i);
        let h = s.subrange(0, i);
        let m = s.subrange(i + 1, s.len() as int);
        if m.contains(':') {
            0
        } else {
            match (parse_u32(h), parse_u32(m)) {
                (Some(hv), Some(mv)) => (hv * 3600000 + mv * 60000) % 0x1_0000_0000,
                _ => 0,
            }
        }
    } else {
        0
    }
}

fn parse_u32_exec(s: &Vec<char>) -> (r: Option<u32>)
    ensures
        match r {
            Some(v) => parse_u32(s@) == Some(v as int),
            None => parse_u32(s@) is None,
        },
{
    match parse_index_exec(s) {
        Some(v) => if v <= 0xFFFF_FFFFusize {
            Some(v as u32)
        } else {
            None
        },
        None => None,
    }
}

/// Milliseconds since midnight named by `HH:MM` (wrapping at 2^32); zero for a
/// string that is not two `:`-separated decimal numbers.
pub fn parse_time_string(time: &str) -> (r: u32)
    ensures
        r as int == time_string_ms(time@),
{
    let cs = chars_of(time);
    let mut i: usize = 0;
    while i < cs.len() && cs[i] != ':'
        invariant
            i <= cs@.len(),
            cs@ == time@,
            forall|k: int| 0 <= k < i ==> cs@[k] != ':',
        decreases cs@.len() - i,
    {
        i = i + 1;
    }
    if i == cs.len() {
        assert forall|j: int| !colon_at(time@, j) by {
            if 0 <= j < time@.len() {
                assert(cs@[j] != ':');
            }
        }
        return 0;
    }
    assert(colon_at(time@, i as int));
    proof {
        let c = choose|c: int| colon_at(time@, c);
        if c < i {
            assert(cs@[c] != ':');
        } else if c > i {
            assert(time@[i as int] != ':');
        }
    }
    let mut h: Vec<char> = Vec::new();
    let mut m: Vec<char> = Vec::new();
    let mut k: usize = 0;
    while k < i
        invariant
            k <= i < cs@.len(),
            h@ == cs@.subrange(0, k as int),
        decreases i - k,
    {
        h.push(cs[k]);
        k = k + 1;
        assert(h@ =~= cs@.subrange(0, k as int));
    }
    k = i + 1;
    let mut extra = false;
    while k < cs.len()
        invariant
            i < k <= cs@.len(),
            m@ == cs@.subrange(i as int + 1, k as int),
            extra == m@.contains(':'),
        decreases cs@.len() - k,
    {
        if cs[k] == ':' {
            extra = true;
        }
        m.push(cs[k]);
        k = k + 1;
        assert(m@ =~= cs@.subrange(i as int + 1, k as int).drop_last().push(cs@[k - 1]));
        assert(m@.last() == cs@[k - 1]);
        assert(m@.drop_last() =~= cs@.subrange(i as int + 1, k as int - 1));
        assert(extra == m@.contains(':')) by {
            if m@.contains(':') && !extra {
                let w = choose|w: int| 0 <= w < m@.len() && m@[w] == ':';
                if w < m@.len() - 1 {
                    assert(m@.drop_last()[w] == ':');
                }
            }
        }
    }
    if extra {
        return 0;
    }
    match (parse_u32_exec(&h), parse_u32_exec(&m)) {
        (Some(hv), Some(mv)) => {
            let r = hv.wrapping_mul(3600000).wrapping_add(mv.wrapping_mul(60000));
            proof {
                vstd::arithmetic::div_mod::lemma_add_mod_noop(hv * 3600000, mv * 60000, 0x1_0000_0000);
            }
            r
        },
        _ => 0,
    }
}

/// The percentage of the first schedule entry whose time lies after `now_ms`,
/// or the default where there is none.
pub open spec fn brightness_from(sched: Seq<Brightness>, now_ms: int) -> u8
    decreases sched.len(),
{
    if sched.len() == 0 {
        DEFAULT_BRIGHTNESS
    } else if now_ms < time_string_ms(sched[0].time@) {
        sched[0].percentage
    } else {
        brightness_from(sched.drop_first(), now_ms)
    }
}

/// The brightness at `now_ms` milliseconds after midnight: the percentage of the
/// first entry whose time lies after it, else the default.
pub fn brightness_at(brightnesses: &Vec<Brightness>, now_ms: u32) -> (r: u8)
    ensures
        r == brightness_from(brightnesses@, now_ms as int),
{
    let mut i: usize = 0;
    assert(brightnesses@.subrange(0, brightnesses@.len() as int) =~= brightnesses@);
    while i < brightnesses.len()
        invariant
            i <= brightnesses@.len(),
            brightness_from(brightnesses@, now_ms as int) == brightness_from(
                brightnesses@.subrange(i as int, brightnesses@.len() as int),
                now_ms as int,
            ),
        decreases brightnesses@.len() - i,
    {
        let ghost rest = brightnesses@.subrange(i as int, brightnesses@.len() as int);
        assert(rest.drop_first() =~= brightnesses@.subrange(i as int + 1, brightnesses@.len() as int));
        let t = parse_time_string(brightnesses[i].time.as_str());
        if now_ms < t {
            return brightnesses[i].percentage;
        }
        i = i + 1;
    }
    DEFAULT_BRIGHTNESS
}

/// Relies on `chrono::Local::now` with `Timelike::hour`, `minute` and
/// `second`: the local time of day, each field in its documented range.
#[verifier::external_body]
fn local_time_of_day() -> (r: (u32, u32, u32))
    ensures
        r.0 < 24,
        r.1 < 60,
        r.2 < 60,
{
    let now = chrono::Local::now();
    (now.hour(), now.minute(), now.second())
}

/// Milliseconds since local midnight, at second resolution.
pub fn cur_time_ms() -> (r: u32)
    ensures
        r < 86_400_000,
{
    let (h, m, s) = local_time_of_day();
    h * 3600000 + m * 60000 + s * 1000
}

/// The brightness that the schedule gives for the local time now.
pub fn get_current_brightness(brightnesses: &Vec<Brightness>) -> (r: u8)
    ensures
        exists|now: int| 0 <= now < 86_400_000 && r == brightness_from(brightnesses@, now),
{
    let now = cur_time_ms();
    brightness_at(brightnesses, now)
}

} // verus!

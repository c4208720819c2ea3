use base64::Engine;
use sha2::Digest;

use matrix_manager::boards::{BoardDefinition, BoardElement, BoardElementValue};
use matrix_manager::clock::{format_time, ClockReading};
use matrix_manager::colour::{ColourOption, ElementColour};
use matrix_manager::device::{brightness_at, parse_time_string, Brightness, DeviceConfig};
use matrix_manager::images::{flatten, image_key, FileTree, ImageIndex};
use matrix_manager::render::{preamble_frames, render_board, render_plan, RenderPlan, ResolvedElement};
use matrix_manager::resolve::{begin_resolve, finish_resolve, Step, VariableCache};
use matrix_manager::variables::{BoardVariable, TimeData};

fn element(x: Option<u8>, y: u8, colour: ColourOption, font: Option<&str>, value: BoardElementValue) -> BoardElement {
    BoardElement { name: "e".to_string(), x, y, colour, font: font.map(|f| f.to_string()), value }
}

fn board(elements: Vec<BoardElement>, skip: bool) -> BoardDefinition {
    BoardDefinition { name: "clock".to_string(), size: (64, 32), board_elements: elements, use_skip_brightness_threshold: skip }
}

fn resolved(text: &str, width: u8) -> ResolvedElement {
    ResolvedElement { text: text.to_string(), widths: vec![width; text.chars().count()] }
}

fn as_text(frames: Option<Vec<u8>>) -> String {
    String::from_utf8(frames.expect("frames")).expect("ascii")
}

#[test]
fn clock_board_renders_time_glyphs() {
    let time = format_time(14, 5);
    assert_eq!(time, "02:05 PM");
    let b = board(vec![element(None, 9, ColourOption::Default, Some("7x14B"), BoardElementValue::Text("__time__".to_string()))], false);
    let d = DeviceConfig::default();
    let out = as_text(render_board(&b, &d, 66, &vec![resolved(&time, 7)], &ImageIndex::new()));
    let expected = [
        "b066======x=========cFFF======",
        "cFFF======f7x14B====",
        "t04090====t11092====t1809:====t25090====t32095====t3909 ====t4609P====t5309M====",
    ]
    .join("");
    assert_eq!(out, expected);
}

#[test]
fn dim_board_is_skipped() {
    let b = board(vec![element(Some(0), 0, ColourOption::Default, None, BoardElementValue::Pixel)], true);
    let d = DeviceConfig::default();
    assert_eq!(render_board(&b, &d, 24, &vec![resolved("", 5)], &ImageIndex::new()), None);
    assert!(render_board(&b, &d, 25, &vec![resolved("", 5)], &ImageIndex::new()).is_some());
}

#[test]
fn zero_brightness_sends_only_the_preamble() {
    let b = board(vec![element(Some(0), 0, ColourOption::Default, None, BoardElementValue::Pixel)], false);
    let out = as_text(render_board(&b, &DeviceConfig::default(), 0, &vec![resolved("", 5)], &ImageIndex::new()));
    assert_eq!(out, "b000======x=========cFFF======");
}

#[test]
fn temperature_colour_reads_first_number() {
    let b = board(vec![element(Some(0), 0, ColourOption::ParseTemperature, None, BoardElementValue::Text("t".to_string()))], false);
    let out = as_text(render_board(&b, &DeviceConfig::default(), 50, &vec![resolved("72F", 5)], &ImageIndex::new()));
    assert_eq!(out, "b050======x=========cFFF======cDD2======f5x8======t00007====t05002====t1000F====");
    let out = as_text(render_board(&b, &DeviceConfig::default(), 50, &vec![resolved("none", 5)], &ImageIndex::new()));
    assert!(out.starts_with("b050======x=========cFFF======cFFF======"));
}

#[test]
fn pixel_line_and_degree_frames() {
    let red = ElementColour { r: 0xFF, g: 0x00, b: 0x20, a: 0xFF };
    let b = board(vec![
        element(Some(3), 4, ColourOption::Specific(red), None, BoardElementValue::Pixel),
        element(Some(1), 2, ColourOption::Default, None, BoardElementValue::Line(10, 20, String::new())),
        element(Some(0), 0, ColourOption::Specific(red), None, BoardElementValue::Text("5\u{b0}".to_string())),
    ], false);
    let rs = vec![resolved("", 5), resolved("", 5), resolved("5\u{b0}", 5)];
    let out = as_text(render_board(&b, &DeviceConfig::default(), 10, &rs, &ImageIndex::new()));
    assert_eq!(
        out,
        "b010======x=========cFFF======q0304F02==cFFF======l01021020=cF02======f5x8======t00005====j05001===="
    );
}

#[test]
fn images_by_key_and_legacy_marker() {
    let index = ImageIndex::build(&vec!["icons/sun.bmp".to_string()]);
    let key = image_key("icons/sun.bmp");
    let b = board(vec![element(Some(2), 3, ColourOption::Default, None, BoardElementValue::Img("icons/sun.bmp".to_string(), false))], false);
    let mut d = DeviceConfig::default();
    d.proto_version = 1;
    let out = as_text(render_board(&b, &d, 10, &vec![resolved("icons/sun.bmp", 5)], &index));
    assert_eq!(out, format!("b010======x=========cFFF======i0203{}", key));
    let out = as_text(render_board(&b, &d, 10, &vec![resolved("missing.bmp", 5)], &index));
    assert_eq!(out, "b010======x=========cFFF======");
    d.proto_version = 0;
    let out = as_text(render_board(&b, &d, 10, &vec![resolved("^i12", 5)], &index));
    assert_eq!(out, "b010======x=========cFFF======i0203^i12=");
    let out = as_text(render_board(&b, &d, 10, &vec![resolved("sun", 5)], &index));
    assert_eq!(out, "b010======x=========cFFF======");
}

#[test]
fn image_key_is_stable_digest_prefix() {
    let a = image_key("icons/wind.bmp");
    let b = image_key("icons/wind.bmp");
    assert_eq!(a, b);
    assert_eq!(a.chars().count(), 5);
    let digest = sha2::Sha256::digest("icons/wind.bmp".as_bytes());
    let full = base64::engine::general_purpose::STANDARD.encode(digest);
    assert_eq!(a, full[..5].to_string());
    assert_ne!(a, "icons");
}

#[test]
fn tree_flattens_to_relative_paths() {
    let tree = vec![
        FileTree::File("a.bmp".to_string()),
        FileTree::Dir("icons".to_string(), vec![
            FileTree::File("wind.bmp".to_string()),
            FileTree::Dir("x".to_string(), vec![FileTree::File("y.bmp".to_string())]),
        ]),
    ];
    assert_eq!(flatten(&tree), vec!["a.bmp", "icons/wind.bmp", "icons/x/y.bmp"]);
}

#[test]
fn index_lookups_both_ways() {
    let index = ImageIndex::build(&vec!["a.bmp".to_string(), "b.bmp".to_string()]);
    let ka = image_key("a.bmp");
    assert_eq!(index.lookup(&ka), Some("a.bmp".to_string()));
    assert_eq!(index.key_for_path("b.bmp"), Some(image_key("b.bmp")));
    assert_eq!(index.key_for_path("c.bmp"), None);
    assert_eq!(index.lookup("zzzzz"), None);
}

#[test]
fn brightness_schedule_picks_first_later_entry() {
    let sched = vec![
        Brightness { time: "06:00".to_string(), percentage: 80 },
        Brightness { time: "18:00".to_string(), percentage: 40 },
    ];
    assert_eq!(brightness_at(&sched, parse_time_string("07:00")), 40);
    assert_eq!(brightness_at(&sched, parse_time_string("23:00")), 66);
    assert_eq!(brightness_at(&sched, parse_time_string("05:00")), 80);
    assert_eq!(Brightness::default().percentage, 66);
}

#[test]
fn time_strings_parse_to_milliseconds() {
    assert_eq!(parse_time_string("06:00"), 21_600_000);
    assert_eq!(parse_time_string("18:30"), 66_600_000);
    assert_eq!(parse_time_string("bad"), 0);
    assert_eq!(parse_time_string("1:2:3"), 0);
    assert_eq!(parse_time_string("1x:00"), 0);
}

fn url_vars() -> Vec<(String, BoardVariable)> {
    vec![
        ("weather".to_string(), BoardVariable::URL(5, "http://example.invalid".to_string(), 30, Vec::new())),
        ("title".to_string(), BoardVariable::JsonURL(5, "0.title".to_string(), false, Some((7, 0)))),
        ("temp".to_string(), BoardVariable::JsonURL(5, "0.temp".to_string(), true, None)),
        ("time".to_string(), BoardVariable::Time(TimeData::Time)),
    ]
}

#[test]
fn url_cache_honours_expiry() {
    let vars = url_vars();
    let mut cache = VariableCache::new();
    assert!(matches!(begin_resolve(&vars, 0, &cache, 0, &ClockReading { hour: 1, minute: 2, weekday: 0, day: 1, month: 1, year: 2024 }), Step::Fetch(0)));
    let clock = ClockReading { hour: 14, minute: 5, weekday: 0, day: 1, month: 1, year: 2024 };
    match finish_resolve(&vars, 0, 0, &mut cache, 0, Some("A".to_string())) {
        Step::Text(t) => assert_eq!(t, "A"),
        other => panic!("unexpected {:?}", other),
    }
    match begin_resolve(&vars, 0, &cache, 10, &clock) {
        Step::Text(t) => assert_eq!(t, "A"),
        other => panic!("unexpected {:?}", other),
    }
    assert!(matches!(begin_resolve(&vars, 0, &cache, 30, &clock), Step::Fetch(0)));
    match finish_resolve(&vars, 0, 0, &mut cache, 30, Some("B".to_string())) {
        Step::Text(t) => assert_eq!(t, "B"),
        other => panic!("unexpected {:?}", other),
    }
    match begin_resolve(&vars, 0, &cache, 31, &clock) {
        Step::Text(t) => assert_eq!(t, "B"),
        other => panic!("unexpected {:?}", other),
    }
    assert_eq!(cache.lookup(5, 59, 30), Some("B".to_string()));
    assert_eq!(cache.lookup(5, 60, 30), None);
}

#[test]
fn failed_fetch_leaves_cache() {
    let vars = url_vars();
    let mut cache = VariableCache::new();
    match finish_resolve(&vars, 0, 0, &mut cache, 0, None) {
        Step::Text(t) => assert_eq!(t, ""),
        other => panic!("unexpected {:?}", other),
    }
    assert_eq!(cache.lookup(5, 0, 30), None);
}

#[test]
fn json_variable_reads_its_source() {
    let vars = url_vars();
    let mut cache = VariableCache::new();
    let clock = ClockReading { hour: 14, minute: 5, weekday: 0, day: 1, month: 1, year: 2024 };
    assert!(matches!(begin_resolve(&vars, 1, &cache, 0, &clock), Step::Fetch(0)));
    let body = "{\"0\":{\"title\":\"Sunny, 72F\",\"temp\":\"71.6\"}}".to_string();
    match finish_resolve(&vars, 1, 0, &mut cache, 0, Some(body)) {
        Step::Text(t) => assert_eq!(t, "72F"),
        other => panic!("unexpected {:?}", other),
    }
    match begin_resolve(&vars, 2, &cache, 5, &clock) {
        Step::RoundNumber(t) => assert_eq!(t, "71.6"),
        other => panic!("unexpected {:?}", other),
    }
    match begin_resolve(&vars, 3, &cache, 5, &clock) {
        Step::Text(t) => assert_eq!(t, "02:05 PM"),
        other => panic!("unexpected {:?}", other),
    }
    let orphan = vec![("j".to_string(), BoardVariable::JsonURL(9, "a".to_string(), false, None))];
    match begin_resolve(&orphan, 0, &cache, 5, &clock) {
        Step::Text(t) => assert_eq!(t, ""),
        other => panic!("unexpected {:?}", other),
    }
}

#[test]
fn centring_uses_the_sum_of_glyph_widths() {
    let b = board(vec![element(None, 0, ColourOption::Default, None, BoardElementValue::Text("t".to_string()))], false);
    let rs = vec![ResolvedElement { text: "iW".to_string(), widths: vec![2, 8] }];
    let out = as_text(render_board(&b, &DeviceConfig::default(), 10, &rs, &ImageIndex::new()));
    assert_eq!(out, "b010======x=========cFFF======cFFF======f5x8======t2700i====t2900W====");
    let wide = vec![ResolvedElement { text: "ab".to_string(), widths: vec![40, 40] }];
    let out = as_text(render_board(&b, &DeviceConfig::default(), 10, &wide, &ImageIndex::new()));
    assert!(out.ends_with("t0000a====t4000b===="));
}

#[test]
fn plan_is_decided_before_resolving() {
    let skip = board(Vec::new(), true);
    let d = DeviceConfig::default();
    assert_eq!(render_plan(&skip, &d, 10), RenderPlan::Skip);
    assert_eq!(render_plan(&skip, &d, 30), RenderPlan::Elements);
    let plain = board(Vec::new(), false);
    assert_eq!(render_plan(&plain, &d, 0), RenderPlan::PreambleOnly);
    assert_eq!(preamble_frames(0), b"b000======x=========cFFF======".to_vec());
}

use matrix_manager::clock::{
    apply_substring, determine_substr_end, format_date, format_time, format_weekday, month_to_string,
    weekday_to_string, ClockReading,
};
use matrix_manager::colour::{ColourOption, ElementColour, TemperatureColours};
use matrix_manager::config::{element_u8_option_to_string, element_u8_to_string, truncate_string};
use matrix_manager::json::{extract_json_value, extract_json_variable};
use matrix_manager::template::{substitute_variables, template_mentions};

fn clock(hour: u32, minute: u32, weekday: u32) -> ClockReading {
    ClockReading { hour, minute, weekday, day: 4, month: 7, year: 2024 }
}

#[test]
fn time_is_twelve_hour_with_suffix() {
    assert_eq!(format_time(14, 5), "02:05 PM");
    assert_eq!(format_time(0, 0), "12:00 AM");
    assert_eq!(format_time(12, 30), "12:30 PM");
    assert_eq!(format_time(11, 59), "11:59 AM");
}

#[test]
fn date_uses_month_table() {
    assert_eq!(format_date(7, 4, 2024), "July 4 2024");
    assert_eq!(format_date(9, 21, 1999), "Sept 21 1999");
    assert_eq!(month_to_string(13), "Nul");
    assert_eq!(weekday_to_string(0), "Monday");
    assert_eq!(weekday_to_string(6), "Sunday");
}

#[test]
fn weekday_offset_and_substring() {
    assert_eq!(format_weekday(&clock(8, 0, 6), 1, None), "Monday");
    assert_eq!(format_weekday(&clock(8, 0, 2), 0, Some((0, 3))), "Wed");
    assert_eq!(format_weekday(&clock(8, 0, 2), 0, Some((0, -3))), "Wednes");
}

#[test]
fn substring_end_rules() {
    assert_eq!(determine_substr_end(0, 10), 10);
    assert_eq!(determine_substr_end(-3, 10), 7);
    assert_eq!(determine_substr_end(-20, 10), 0);
    assert_eq!(determine_substr_end(4, 10), 4);
    assert_eq!(determine_substr_end(40, 10), 10);
    assert_eq!(determine_substr_end(i16::MIN, 10), 0);
    assert_eq!(apply_substring("Sunny, 72F", Some((7, 0))), "72F");
    assert_eq!(apply_substring("Sunny, 72F", Some((8, 2))), "");
    assert_eq!(apply_substring("Sunny", None), "Sunny");
}

#[test]
fn json_path_with_substring() {
    let body = "{\"0\":{\"title\":\"Sunny, 72F\"}}";
    assert_eq!(extract_json_variable(body, "0.title", Some((7, 0))), "72F");
    assert_eq!(extract_json_value(body, "0.title"), "Sunny, 72F");
}

#[test]
fn json_arrays_take_indices() {
    let body = "[{\"a\":1},{\"a\":2,\"b\":[true,\"x\"]}]";
    assert_eq!(extract_json_value(body, "1.a"), "2");
    assert_eq!(extract_json_value(body, "1.b.1"), "x");
    assert_eq!(extract_json_value(body, "1.b"), "[true,\"x\"]");
    assert_eq!(extract_json_value(body, "x.a"), "");
    assert_eq!(extract_json_value(body, "5.a"), "");
}

#[test]
fn json_failures_give_empty_text() {
    assert_eq!(extract_json_value("not json", "0"), "");
    assert_eq!(extract_json_value("{\"a\":1}", "b"), "");
    assert_eq!(extract_json_value("{\"a\":{\"b\":2}}", "a.b.c"), "");
}

#[test]
fn tokens_are_replaced_once() {
    let names = vec!["time".to_string(), "weekday".to_string()];
    let values = vec!["02:05 PM".to_string(), "Monday".to_string()];
    assert_eq!(substitute_variables("__weekday__ at __time__", &names, &values), "Monday at 02:05 PM");
    let names = vec!["a".to_string(), "b".to_string()];
    let values = vec!["__b__".to_string(), "B".to_string()];
    assert_eq!(substitute_variables("__a__|__b__", &names, &values), "__b__|B");
    assert_eq!(substitute_variables("no tokens _ here", &names, &values), "no tokens _ here");
}

#[test]
fn mentions_find_tokens() {
    assert!(template_mentions("x __time__ y", "time"));
    assert!(!template_mentions("x __tim__ y", "time"));
    assert!(!template_mentions("", "time"));
}

#[test]
fn temperature_bands_with_default_thresholds() {
    let t = TemperatureColours::default();
    assert_eq!(t.get_colour(72), "cDD2======");
    assert_eq!(t.get_colour(90), "cF00======");
    assert_eq!(t.get_colour(32), "c0FF======");
    assert_eq!(t.get_colour(33), "c48F======");
    assert_eq!(t.get_colour(82), "cD91======");
    assert_eq!(t.get_colour(-40), "c0FF======");
}

#[test]
fn colour_frame_takes_high_nibbles() {
    let c = ElementColour { r: 0x12, g: 0xAB, b: 0xFF, a: 0xFF };
    assert_eq!(c.to_string(), "c1AF======");
    assert_eq!(ElementColour::default().to_string(), "cFFF======");
}

#[test]
fn colour_option_labels() {
    assert_eq!(ColourOption::get_options(), vec!["Default", "Specific", "Parse Temperature"]);
    assert_eq!(ColourOption::ParseTemperature.get_option(), "Parse Temperature");
    assert_eq!(ColourOption::from_str("Specific"), ColourOption::Specific(ElementColour::default()));
    assert_eq!(ColourOption::from_str("Parse Temperature"), ColourOption::ParseTemperature);
    assert_eq!(ColourOption::from_str("nonsense"), ColourOption::Default);
}

#[test]
fn small_string_helpers() {
    assert_eq!(truncate_string("abcdefghijkl".to_string(), 9), "abcdefghi");
    assert_eq!(truncate_string("abc".to_string(), 9), "abc");
    assert_eq!(element_u8_to_string(0), "0");
    assert_eq!(element_u8_to_string(255), "255");
    assert_eq!(element_u8_option_to_string(Some(7)), "7");
    assert_eq!(element_u8_option_to_string(None), "");
}

use matrix_manager::boards::{is_false, BoardElement, BoardElementValue};
use matrix_manager::colour::ColourOption;
use matrix_manager::device::DeviceConfig;
use matrix_manager::variables::{BoardVariable, TimeData};

#[test]
fn variable_kinds_and_defaults() {
    assert_eq!(BoardVariable::get_all_variable_types(), vec!["HTTP Request", "URL JSON Value Extractor", "DateTime"]);
    match BoardVariable::get_default_by_type("HTTP Request") {
        BoardVariable::URL(_, url, expiry, headers) => {
            assert_eq!(url, "https://jsonplaceholder.typicode.com/todos/");
            assert_eq!(expiry, 30);
            assert!(headers.is_empty());
        },
        _ => panic!("expected a request variable"),
    }
    match BoardVariable::default_with_id("URL JSON Value Extractor", 9) {
        BoardVariable::JsonURL(id, path, round, sub) => {
            assert_eq!(id, 9);
            assert_eq!(path, "0.title");
            assert!(!round);
            assert!(sub.is_none());
        },
        _ => panic!("expected an extractor"),
    }
    assert!(matches!(BoardVariable::get_default_by_type("other"), BoardVariable::Time(TimeData::Time)));
    assert_eq!(BoardVariable::Time(TimeData::Date).get_variable_type(), "DateTime");
}

#[test]
fn url_lookup_by_id() {
    let v = BoardVariable::URL(3, "http://a".to_string(), 1, Vec::new());
    assert_eq!(v.get_url_if_id_matches_or_none(&3), Some("http://a".to_string()));
    assert_eq!(v.get_url_if_id_matches_or_none(&4), None);
    assert_eq!(BoardVariable::Time(TimeData::Time).get_url_if_id_matches_or_none(&3), None);
}

#[test]
fn time_data_labels() {
    assert_eq!(TimeData::get_all_time_data_types(), vec!["Weekday", "Time", "Date"]);
    assert!(matches!(TimeData::from_str("Weekday"), TimeData::Weekday(0, None)));
    assert!(matches!(TimeData::from_str("Date"), TimeData::Date));
    assert!(matches!(TimeData::from_str("x"), TimeData::Time));
}

#[test]
fn element_value_labels() {
    assert_eq!(BoardElementValue::get_types(), vec!["Text", "Image", "Pixel", "Line"]);
    let v = BoardElementValue::from_strings("Line", "__t__".to_string(), false);
    assert!(matches!(&v, BoardElementValue::Line(0, 0, s) if s == "__t__"));
    assert_eq!(v.get_type(), "Line");
    assert_eq!(v.extract_element_value(), ("Line".to_string(), "__t__".to_string()));
    assert!(matches!(BoardElementValue::from_strings("Image", "a".to_string(), true), BoardElementValue::Img(_, true)));
    assert!(matches!(BoardElementValue::from_strings("Pixel", "a".to_string(), true), BoardElementValue::Pixel));
    assert!(matches!(BoardElementValue::from_strings("?", "a".to_string(), true), BoardElementValue::Text(_)));
    assert_eq!(BoardElementValue::Pixel.extract_element_value(), ("Pixel".to_string(), String::new()));
    assert_eq!(BoardElementValue::Img("p".to_string(), false).template(), ("p".to_string(), false));
    assert_eq!(BoardElementValue::Text("p".to_string()).template(), ("p".to_string(), true));
}

#[test]
fn element_set_overwrites() {
    let mut e = BoardElement { name: "a".to_string(), x: None, y: 0, colour: ColourOption::Default, font: None, value: BoardElementValue::Pixel };
    let n = BoardElement { name: "b".to_string(), x: Some(4), y: 5, colour: ColourOption::ParseTemperature, font: Some("5x8".to_string()), value: BoardElementValue::Text("x".to_string()) };
    e.set(n);
    assert_eq!(e.name, "b");
    assert_eq!(e.x, Some(4));
    assert_eq!(e.y, 5);
    assert_eq!(e.colour, ColourOption::ParseTemperature);
    assert_eq!(e.font, Some("5x8".to_string()));
    assert!(is_false(&false));
    assert!(!is_false(&true));
}

#[test]
fn device_defaults() {
    let d = DeviceConfig::default();
    assert_eq!(d.size, (64, 32));
    assert_eq!(d.boards, vec!["clock".to_string()]);
    assert_eq!(d.picture_of_the_day_brightness_threshold, 25);
    assert_eq!(d.proto_version, 0);
}

#[test]
fn element_equality_compares_every_field() {
    let a = BoardElement { name: "a".to_string(), x: Some(1), y: 2, colour: ColourOption::Default, font: None, value: BoardElementValue::Line(1, 2, "t".to_string()) };
    let b = BoardElement { name: "a".to_string(), x: Some(1), y: 2, colour: ColourOption::Default, font: None, value: BoardElementValue::Line(1, 2, "t".to_string()) };
    assert!(a == b);
    let c = BoardElement { name: "a".to_string(), x: Some(1), y: 2, colour: ColourOption::Default, font: Some("5x8".to_string()), value: BoardElementValue::Line(1, 2, "t".to_string()) };
    assert!(a != c);
    let d = BoardElement { name: "a".to_string(), x: Some(1), y: 2, colour: ColourOption::Default, font: None, value: BoardElementValue::Line(1, 3, "t".to_string()) };
    assert!(a != d);
}

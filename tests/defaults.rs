use matrix_manager::boards::{BoardDefinition, BoardElement, BoardElementValue};
use matrix_manager::colour::ColourOption;
use matrix_manager::config::Config;
use matrix_manager::template::mentioned_variables;
use matrix_manager::variables::{BoardVariable, TimeData};

#[test]
fn default_clock_board() {
    let b = BoardDefinition::default();
    assert_eq!(b.name, "clock");
    assert_eq!(b.size, (64, 32));
    assert_eq!(b.board_elements.len(), 3);
    assert_eq!(b.board_elements[1].y, 9);
    assert_eq!(b.board_elements[1].font, Some("7x14B".to_string()));
    assert!(matches!(&b.board_elements[0].value, BoardElementValue::Text(t) if t == "__weekday__"));
    assert!(matches!(&b.board_elements[2].value, BoardElementValue::Text(t) if t == "__date__"));
}

#[test]
fn default_element_is_named_with_a_number() {
    let e = BoardElement::default();
    assert!(e.name.starts_with("New Element - "));
    assert!(e.name["New Element - ".len()..].parse::<u32>().is_ok());
    assert_eq!(e.x, None);
    assert_eq!(e.colour, ColourOption::Default);
}

#[test]
fn default_config_and_devices() {
    let mut c = Config::with_defaults();
    assert!(c.find_board("clock").is_some());
    assert_eq!(c.board_variables.len(), 3);
    assert_eq!(c.device_index("10.0.0.2"), None);
    let i = c.device_for("10.0.0.2").expect("created");
    assert_eq!(c.device_configs[i].0, "10.0.0.2");
    assert_eq!(c.device_configs[i].1.name, "Default");
    assert_eq!(c.device_configs[i].1.size, c.device_configs[0].1.size);
    assert_eq!(c.device_configs[i].1.boards, c.device_configs[0].1.boards);
    assert_eq!(c.device_configs[0].0, "default");
    assert_eq!(c.device_configs.len(), 2);
    assert_eq!(c.device_for("10.0.0.2"), Some(i));
    assert_eq!(c.device_configs.len(), 2);
    assert!(c.viable_board("clock", (64, 32)).is_some());
    assert!(c.viable_board("clock", (32, 32)).is_none());
    assert!(c.viable_board("missing", (64, 32)).is_none());
    let mut empty = Config::new(Vec::new(), Vec::new());
    assert_eq!(empty.device_for("x"), None);
}

#[test]
fn only_mentioned_variables_resolve() {
    let vars = vec![
        ("weekday".to_string(), BoardVariable::Time(TimeData::Weekday(0, None))),
        ("time".to_string(), BoardVariable::Time(TimeData::Time)),
        ("date".to_string(), BoardVariable::Time(TimeData::Date)),
    ];
    assert_eq!(mentioned_variables("__date__ __time__", &vars), vec![1, 2]);
    assert_eq!(mentioned_variables("plain", &vars), Vec::<usize>::new());
}

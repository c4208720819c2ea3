use matrix_manager::boards::{BoardDefinition, BoardElement, BoardElementValue};
use matrix_manager::client::{interpret, CanvasState, DrawOp, FontId, Rgb};
use matrix_manager::colour::ColourOption;
use matrix_manager::config::{Config, ConfigError, State};
use matrix_manager::session::{board_fits, handshake_size, handshake_version, SessionAction, SessionEvent, SessionState};
use matrix_manager::variables::{BoardVariable, TimeData};

#[test]
fn all_dim_boards_back_off_after_a_full_round() {
    let mut s = SessionState::new();
    let n = 2;
    let mut actions = Vec::new();
    for _ in 0..4 {
        let cur = s.select(n).expect("boards");
        assert!(cur < n);
        actions.push(s.on_event(n, SessionEvent::Skipped));
    }
    assert_eq!(actions, vec![
        SessionAction::Continue,
        SessionAction::Continue,
        SessionAction::Pause(15),
        SessionAction::Pause(15),
    ]);
}

#[test]
fn a_sent_board_resets_the_counters() {
    let mut s = SessionState::new();
    s.select(2);
    assert_eq!(s.on_event(2, SessionEvent::Skipped), SessionAction::Continue);
    s.select(2);
    assert_eq!(s.on_event(2, SessionEvent::Sent), SessionAction::Pause(5));
    assert_eq!(s.skipped_boards, 0);
    s.select(2);
    assert_eq!(s.current_board, 0);
}

#[test]
fn oversized_boards_close_after_a_full_round() {
    let mut s = SessionState::new();
    s.select(2);
    assert_eq!(s.on_event(2, SessionEvent::Oversized), SessionAction::Pause(1));
    s.select(2);
    assert_eq!(s.on_event(2, SessionEvent::Oversized), SessionAction::PauseThenClose(1));
    let mut t = SessionState::new();
    assert_eq!(t.select(0), None);
    t.select(1);
    assert_eq!(t.on_event(1, SessionEvent::SendFailed), SessionAction::Close);
}

#[test]
fn handshake_fields() {
    assert_eq!(handshake_version(Some("1\n")), 1);
    assert_eq!(handshake_version(Some("+5\n")), 5);
    assert_eq!(handshake_version(Some("+\n")), 0);
    assert_eq!(handshake_version(Some("++5\n")), 0);
    assert_eq!(handshake_version(Some("-5\n")), 0);
    assert_eq!(handshake_size(1, (64, 32), "+96\n", "+48\n"), (96, 48));
    assert_eq!(handshake_version(Some("abc\n")), 0);
    assert_eq!(handshake_version(Some("\n")), 0);
    assert_eq!(handshake_version(None), 0);
    assert_eq!(handshake_size(1, (64, 32), "128\n", "64\n"), (128, 64));
    assert_eq!(handshake_size(1, (64, 32), "300\n", "64\n"), (64, 32));
    assert_eq!(handshake_size(0, (10, 10), "128\n", "64\n"), (64, 32));
    assert!(board_fits((64, 32), (64, 32)));
    assert!(!board_fits((65, 32), (64, 32)));
    assert!(!board_fits((64, 33), (64, 32)));
}

fn feed(state: &mut CanvasState, frame: &[u8], hw: bool) -> DrawOp {
    interpret(frame, state, hw)
}

#[test]
fn interpreter_tracks_colour_and_font() {
    let mut st = CanvasState::new("http://server:12345".to_string());
    assert_eq!(feed(&mut st, b"cF80======", false), DrawOp::Nothing);
    assert_eq!(st.colour, Rgb { r: 240, g: 128, b: 0 });
    assert_eq!(feed(&mut st, b"p0102=====", false), DrawOp::Pixel { x: 1, y: 2, colour: Rgb { r: 240, g: 128, b: 0 } });
    assert_eq!(feed(&mut st, b"q0102F0A==", false), DrawOp::Pixel { x: 1, y: 2, colour: Rgb { r: 240, g: 0, b: 160 } });
    assert_eq!(feed(&mut st, b"f7x14B====", false), DrawOp::Nothing);
    assert_eq!(st.font, FontId::Bold);
    assert_eq!(st.font_offset, 12);
    assert_eq!(
        feed(&mut st, b"t0409A====", false),
        DrawOp::Glyph { x: 4, y: 21, ch: 'A', font: FontId::Bold, colour: Rgb { r: 240, g: 128, b: 0 } }
    );
    assert_eq!(
        feed(&mut st, b"j04091====", false),
        DrawOp::Glyph { x: 4, y: 21, ch: '\u{b0}', font: FontId::Bold, colour: Rgb { r: 240, g: 128, b: 0 } }
    );
    assert_eq!(feed(&mut st, b"j04092====", false), DrawOp::Nothing);
    assert_eq!(feed(&mut st, b"fnope=====", false), DrawOp::Nothing);
    assert_eq!(st.font, FontId::Small);
    assert_eq!(st.font_offset, 6);
    assert_eq!(feed(&mut st, b"f7x14B====", false), DrawOp::Nothing);
    assert_eq!(feed(&mut st, b"f5x8======", false), DrawOp::Nothing);
    assert_eq!(st.font, FontId::Small);
    assert_eq!(st.font_offset, 6);
}

#[test]
fn interpreter_other_frames() {
    let mut st = CanvasState::new(String::new());
    assert_eq!(feed(&mut st, b"x=========", false), DrawOp::Clear);
    assert_eq!(feed(&mut st, b"l01023040=", false), DrawOp::Line { x1: 1, y1: 2, x2: 30, y2: 40, colour: Rgb { r: 255, g: 255, b: 255 } });
    assert_eq!(feed(&mut st, b"i0203abcde", false), DrawOp::Image { x: 2, y: 3, key: b"abcde".to_vec() });
    assert_eq!(feed(&mut st, b"b050======", false), DrawOp::Nothing);
    assert_eq!(st.brightness, 100);
    assert_eq!(feed(&mut st, b"b050======", true), DrawOp::SetBrightness(50));
    assert_eq!(st.brightness, 50);
    assert_eq!(feed(&mut st, b"s=========", false), DrawOp::Nothing);
    assert_eq!(feed(&mut st, b"cZZZ======", false), DrawOp::Nothing);
    assert_eq!(st.colour, Rgb { r: 255, g: 255, b: 255 });
}

fn named_board(name: &str, width: u8) -> BoardDefinition {
    BoardDefinition {
        name: name.to_string(),
        size: (width, 32),
        board_elements: vec![BoardElement {
            name: "t".to_string(),
            x: None,
            y: 0,
            colour: ColourOption::Default,
            font: None,
            value: BoardElementValue::Text("__time__".to_string()),
        }],
        use_skip_brightness_threshold: false,
    }
}

#[test]
fn board_store_add_find_remove() {
    let vars = vec![("time".to_string(), BoardVariable::Time(TimeData::Time))];
    let mut c = Config::new(Vec::new(), vars);
    c.add_board(named_board("clock", 64));
    c.add_board(named_board("wide", 128));
    c.add_board(named_board("clock", 32));
    assert_eq!(c.get_boards().len(), 2);
    assert_eq!(c.find_board("clock").map(|b| b.size.0), Some(32));
    assert_eq!(c.remove_board("wide".to_string()), Ok(()));
    assert_eq!(c.remove_board("wide".to_string()), Err(ConfigError::NoSuchBoard));
    assert!(c.find_board("wide").is_none());
    c.update_boards(vec![named_board("other", 10)]);
    assert!(c.find_board("clock").is_none());
    assert_eq!(c.find_board("other").map(|b| b.size.0), Some(10));
}

#[test]
fn state_rehash_policy() {
    let st = State::new();
    assert!(st.needs_rehash(false));
    assert!(st.needs_rehash(true));
}

use rocky::keys::Key;
use rocky::repl::{parse_hex, rk_hints, CommandHint, REPLMode};
use rocky::scheduler::Scheduler;

#[test]
fn test_rk_hints() {
    let hints = rk_hints();
    assert_eq!(hints.len(), 8);
    assert_eq!(hints[0].display_string(), "!quit");
    assert_eq!(hints[6].display_string(), "!load_file path/to/file.rk");
    assert_eq!(hints[6].complete_len(), "!load_file ".len());
}

#[test]
fn test_hint_suffix() {
    let hint = CommandHint::new("!load_file path/to/file.rk", "!load_file ");
    let stripped = hint.suffix(5);
    assert_eq!(stripped.display_string(), "_file path/to/file.rk");
    assert_eq!(stripped.complete_len(), "!load_file ".len() - 5);
    let past = hint.suffix(15);
    assert_eq!(past.complete_len(), 0);
}

#[test]
fn test_parse_hex() {
    assert_eq!(parse_hex("00 01 ff"), Some(vec![0, 1, 255]));
    assert_eq!(parse_hex("A 0b 7"), Some(vec![10, 11, 7]));
    assert_eq!(parse_hex(""), None);
    assert_eq!(parse_hex("zz"), None);
    assert_eq!(parse_hex("123"), None);
    assert_eq!(parse_hex("0  1"), None);
}

#[test]
fn test_repl_mode() {
    assert_ne!(REPLMode::Hexadecimal, REPLMode::Assembly);
}

#[test]
fn test_key_decoding() {
    assert_eq!(Key::from("\r"), Key::Enter);
    assert_eq!(Key::from("\t"), Key::Tab);
    assert_eq!(Key::from("\u{1b}[Z"), Key::BackTab);
    assert_eq!(Key::from("\u{3}"), Key::Interrupt);
    assert_eq!(Key::from("x"), Key::Char('x'));
    assert_eq!(Key::from("xyz"), Key::MultiChar("xyz".to_string()));
}

#[test]
fn test_scheduler_new() {
    let _ = Scheduler::new();
    let _ = Scheduler::default();
}

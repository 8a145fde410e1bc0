use rincron_mini::rincron::{config_dir_pattern, config_file_path, get_config_root, loop_action, LoopAction};
use rincron_mini::watch_element::{
    event_name_to_value, ConfigEntry, ConfigError, FieldValue, IntField, ListField, WatchElement,
    MASK_ALL_EVENTS, MASK_CLOSE_WRITE, MASK_CREATE, MASK_MOVE, MASK_MOVED_TO,
};

fn entry(
    path: FieldValue,
    events: ListField,
    command: FieldValue,
    file_match: FieldValue,
    check_interval: IntField,
) -> ConfigEntry {
    ConfigEntry {
        is_object: true,
        path,
        dir: FieldValue::Missing,
        events,
        command,
        file_match,
        check_interval,
    }
}

fn text(s: &str) -> FieldValue {
    FieldValue::Text(s.to_string())
}

fn event_list(names: &[&str]) -> ListField {
    ListField::Items(names.iter().map(|n| text(n)).collect())
}

#[test]
fn event_names_map_to_their_masks() {
    assert_eq!(event_name_to_value("CLOSE_WRITE"), Some(MASK_CLOSE_WRITE));
    assert_eq!(event_name_to_value("IN_CLOSE_WRITE"), Some(MASK_CLOSE_WRITE));
    assert_eq!(event_name_to_value("MOVED_TO"), Some(MASK_MOVED_TO));
    assert_eq!(event_name_to_value("ALL_EVENTS"), Some(MASK_ALL_EVENTS));
    assert_eq!(event_name_to_value("CREATE"), Some(MASK_CREATE));
    assert_eq!(event_name_to_value("close_write"), None);
    assert_eq!(event_name_to_value(""), None);
    assert_eq!(event_name_to_value("NOT_AN_EVENT"), None);
}

#[test]
fn close_name_watches_the_move_events() {
    assert_eq!(event_name_to_value("CLOSE"), Some(MASK_MOVE));
    assert_eq!(event_name_to_value("IN_CLOSE"), Some(MASK_MOVE));
}

#[test]
fn entry_that_is_not_an_object_is_rejected() {
    let mut e = entry(
        text("/tmp"),
        event_list(&["CREATE"]),
        text("echo"),
        FieldValue::Missing,
        IntField::Missing,
    );
    e.is_object = false;
    let r = WatchElement::from_json_value(&e, true);
    assert_eq!(r.err(), Some(ConfigError::NotAnObject));
}

#[test]
fn entry_with_missing_command_is_rejected() {
    let e = entry(
        text("/tmp"),
        event_list(&["CREATE"]),
        FieldValue::Missing,
        FieldValue::Missing,
        IntField::Missing,
    );
    let r = WatchElement::from_json_value(&e, true);
    assert_eq!(r.err(), Some(ConfigError::MissingParameter));
}

#[test]
fn entry_with_missing_path_and_dir_is_rejected() {
    let e = entry(
        FieldValue::Missing,
        event_list(&["CREATE"]),
        text("echo"),
        FieldValue::Missing,
        IntField::Missing,
    );
    let r = WatchElement::from_json_value(&e, true);
    assert_eq!(r.err(), Some(ConfigError::MissingParameter));
}

#[test]
fn entry_with_non_text_path_is_rejected() {
    let e = entry(
        FieldValue::Wrong,
        event_list(&["CREATE"]),
        text("echo"),
        FieldValue::Missing,
        IntField::Missing,
    );
    let r = WatchElement::from_json_value(&e, true);
    assert_eq!(r.err(), Some(ConfigError::PathNotAString));
}

#[test]
fn entry_with_non_list_events_is_rejected() {
    let e = entry(
        text("/tmp"),
        ListField::Wrong,
        text("echo"),
        FieldValue::Missing,
        IntField::Missing,
    );
    let r = WatchElement::from_json_value(&e, true);
    assert_eq!(r.err(), Some(ConfigError::EventsNotAnArray));
}

#[test]
fn entry_with_non_text_command_is_rejected() {
    let e = entry(
        text("/tmp"),
        event_list(&["CREATE"]),
        FieldValue::Wrong,
        FieldValue::Missing,
        IntField::Missing,
    );
    let r = WatchElement::from_json_value(&e, true);
    assert_eq!(r.err(), Some(ConfigError::CommandNotAString));
}

#[test]
fn entry_whose_path_does_not_exist_is_rejected() {
    let e = entry(
        text("/tmp"),
        event_list(&["CREATE"]),
        text("echo"),
        FieldValue::Missing,
        IntField::Missing,
    );
    let r = WatchElement::from_json_value(&e, false);
    assert_eq!(r.err(), Some(ConfigError::PathDoesNotExist));
}

#[test]
fn entry_with_no_recognized_event_is_rejected() {
    let e = entry(
        text("/tmp"),
        event_list(&["FROBNICATE", "bogus"]),
        text("echo"),
        FieldValue::Missing,
        IntField::Missing,
    );
    let r = WatchElement::from_json_value(&e, true);
    assert_eq!(r.err(), Some(ConfigError::NoRecognizedEvents));
}

#[test]
fn entry_with_empty_event_list_is_rejected() {
    let e = entry(
        text("/tmp"),
        event_list(&[]),
        text("echo"),
        FieldValue::Missing,
        IntField::Missing,
    );
    let r = WatchElement::from_json_value(&e, true);
    assert_eq!(r.err(), Some(ConfigError::NoRecognizedEvents));
}

#[test]
fn good_entry_becomes_an_element_with_defaults() {
    let e = entry(
        text("/tmp"),
        event_list(&["CLOSE_WRITE", "MOVED_TO"]),
        text("echo $#"),
        FieldValue::Missing,
        IntField::Missing,
    );
    let w = WatchElement::from_json_value(&e, true).ok().unwrap();
    assert_eq!(w.path, "/tmp");
    assert_eq!(w.command, "echo $#");
    assert_eq!(w.mask, MASK_CLOSE_WRITE | MASK_MOVED_TO);
    assert_eq!(w.file_match, "");
    assert_eq!(w.check_interval, 0);
}

#[test]
fn unrecognized_and_non_text_events_are_skipped() {
    let e = entry(
        text("/tmp"),
        ListField::Items(vec![FieldValue::Wrong, text("BOGUS"), text("CREATE")]),
        text("echo"),
        text("*.txt"),
        IntField::Num(5),
    );
    let w = WatchElement::from_json_value(&e, true).ok().unwrap();
    assert_eq!(w.mask, MASK_CREATE);
    assert_eq!(w.file_match, "*.txt");
    assert_eq!(w.check_interval, 5);
}

#[test]
fn dir_key_stands_in_for_a_missing_path() {
    let mut e = entry(
        FieldValue::Missing,
        event_list(&["CREATE"]),
        text("echo"),
        FieldValue::Missing,
        IntField::Missing,
    );
    e.dir = text("/srv/in");
    let w = WatchElement::from_json_value(&e, true).ok().unwrap();
    assert_eq!(w.path, "/srv/in");
}

#[test]
fn non_text_file_match_and_non_integer_interval_default() {
    let e = entry(
        text("/tmp"),
        event_list(&["CREATE"]),
        text("echo"),
        FieldValue::Wrong,
        IntField::Wrong,
    );
    let w = WatchElement::from_json_value(&e, true).ok().unwrap();
    assert_eq!(w.file_match, "");
    assert_eq!(w.check_interval, 0);
}

#[test]
fn structural_equality_compares_all_fields() {
    let e = entry(
        text("/tmp"),
        event_list(&["CREATE"]),
        text("echo"),
        FieldValue::Missing,
        IntField::Missing,
    );
    let a = WatchElement::from_json_value(&e, true).ok().unwrap();
    let b = WatchElement::from_json_value(&e, true).ok().unwrap();
    assert!(a.same_as(&b));
    let e2 = entry(
        text("/tmp"),
        event_list(&["CREATE"]),
        text("echo x"),
        FieldValue::Missing,
        IntField::Missing,
    );
    let c = WatchElement::from_json_value(&e2, true).ok().unwrap();
    assert!(!a.same_as(&c));
}

#[test]
fn stop_wins_over_reload_in_the_loop() {
    assert_eq!(loop_action(true, true), LoopAction::Exit);
    assert_eq!(loop_action(true, false), LoopAction::Exit);
    assert_eq!(loop_action(false, true), LoopAction::Reload);
    assert_eq!(loop_action(false, false), LoopAction::Tick);
}

#[test]
fn config_root_falls_back_to_etc() {
    assert_eq!(get_config_root(None), "/etc");
    assert_eq!(get_config_root(Some("/root".to_string())), "/etc");
    assert_eq!(get_config_root(Some("/home/u".to_string())), "/home/u/.config");
}

#[test]
fn config_paths_follow_the_root() {
    assert_eq!(config_file_path("/etc"), "/etc/rincron-mini.json");
    assert_eq!(config_dir_pattern("/etc"), "/etc/rincron-mini/*.json");
}

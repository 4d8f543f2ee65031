use emergency_backup::config::{contains, with_leading_dot, ChangeKind, Config, ConfigWatch};
use emergency_backup::notification_popup::NotificationType;

#[test]
fn file_types_get_their_dot() {
    assert_eq!(with_leading_dot("txt"), ".txt");
    assert_eq!(with_leading_dot(".txt"), ".txt");
    assert_eq!(with_leading_dot(""), ".");
    assert_eq!(with_leading_dot("..gz"), "..gz");
    assert_eq!(with_leading_dot("tar.gz"), ".tar.gz");
}

#[test]
fn configuration_is_kept_but_for_the_dots() {
    let config = Config {
        path_dest_backup: "/mnt/usb".to_string(),
        path_orig_backup: "/home/user".to_string(),
        type_files: vec!["txt".to_string(), ".jpg".to_string(), "".to_string()],
        btn_rec: true,
    }
    .with_dotted_types();
    assert_eq!(config.path_dest_backup, "/mnt/usb");
    assert_eq!(config.path_orig_backup, "/home/user");
    assert_eq!(config.type_files, vec![".txt", ".jpg", "."]);
    assert!(config.btn_rec);
}

#[test]
fn configuration_without_types_stays_without() {
    let config = Config {
        path_dest_backup: "d".to_string(),
        path_orig_backup: "o".to_string(),
        type_files: Vec::new(),
        btn_rec: false,
    }
    .with_dotted_types();
    assert!(config.type_files.is_empty());
    assert!(!config.btn_rec);
}

#[test]
fn text_is_found_where_it_stands() {
    assert!(contains("a missing field here", "missing field"));
    assert!(contains("missing field", "missing field"));
    assert!(contains("xmissing field", "missing field"));
    assert!(contains("anything", ""));
    assert!(contains("", ""));
    assert!(!contains("missing  field", "missing field"));
    assert!(!contains("missing fiel", "missing field"));
    assert!(!contains("", "x"));
    assert!(contains("aab", "ab"));
}

#[test]
fn missing_field_is_named() {
    let alert = Config::handle_config_error("missing field `type_files` at line 1 column 1");
    assert_eq!(alert.notification_type, NotificationType::ConfigError);
    assert_eq!(alert.message, " type_files non presente nel file di configurazione");
}

#[test]
fn missing_field_without_name_is_unknown() {
    let alert = Config::handle_config_error("missing field");
    assert_eq!(alert.notification_type, NotificationType::ConfigError);
    assert_eq!(alert.message, " unknown field non presente nel file di configurazione");
}

#[test]
fn missing_field_with_one_backquote() {
    let alert = Config::handle_config_error("missing field `btn_rec");
    assert_eq!(alert.message, " btn_rec non presente nel file di configurazione");
    let alert = Config::handle_config_error("`missing field");
    assert_eq!(alert.message, " missing field non presente nel file di configurazione");
    let alert = Config::handle_config_error("missing field ``");
    assert_eq!(alert.message, "  non presente nel file di configurazione");
    let alert = Config::handle_config_error("missing field `a` and `b`");
    assert_eq!(alert.message, " a non presente nel file di configurazione");
}

#[test]
fn other_failures_are_passed_on() {
    let alert = Config::handle_config_error("No such file or directory (os error 2)");
    assert_eq!(alert.notification_type, NotificationType::GenericError);
    assert_eq!(alert.message, "No such file or directory (os error 2)");
    let alert = Config::handle_config_error("");
    assert_eq!(alert.notification_type, NotificationType::GenericError);
    assert_eq!(alert.message, "");
}

#[test]
fn failure_message_is_read_as_split_does() {
    for message in [
        "missing field `x`",
        "missing field x",
        "a ` missing field ` b ` c",
        "`` missing field",
        "missing field `è` ok",
    ] {
        let expected = format!(
            " {} non presente nel file di configurazione",
            message.split('`').nth(1).unwrap_or("unknown field")
        );
        assert_eq!(Config::handle_config_error(message).message, expected);
    }
}

#[test]
fn configuration_is_looked_for_beside_the_program() {
    assert_eq!(Config::retrieve_path_config(None), "config.yaml");
    assert_eq!(Config::retrieve_path_config(Some("/opt/backup")), "/opt/backup/config.yaml");
}

#[test]
fn first_report_of_a_modification_reloads() {
    let mut watch = ConfigWatch::new();
    assert!(watch.on_event("config.yaml", 10, ChangeKind::Modify));
}

#[test]
fn report_of_another_kind_does_not_reload() {
    let mut watch = ConfigWatch::new();
    assert!(!watch.on_event("config.yaml", 10, ChangeKind::Other));
    assert!(!watch.on_event("config.yaml", 20, ChangeKind::Modify));
    assert!(watch.on_event("config.yaml", 500_000_010, ChangeKind::Modify));
}

#[test]
fn reports_within_half_a_second_count_as_one() {
    let mut watch = ConfigWatch::new();
    assert!(watch.on_event("config.yaml", 1_000_000_000, ChangeKind::Modify));
    assert!(!watch.on_event("config.yaml", 1_000_000_001, ChangeKind::Modify));
    assert!(!watch.on_event("config.yaml", 1_499_999_999, ChangeKind::Modify));
    assert!(watch.on_event("config.yaml", 1_500_000_000, ChangeKind::Modify));
    assert!(!watch.on_event("config.yaml", 1_999_999_999, ChangeKind::Modify));
    assert!(watch.on_event("config.yaml", 2_000_000_000, ChangeKind::Modify));
}

#[test]
fn report_from_the_past_is_not_taken() {
    let mut watch = ConfigWatch::new();
    assert!(watch.on_event("config.yaml", 1_000_000_000, ChangeKind::Modify));
    assert!(!watch.on_event("config.yaml", 5, ChangeKind::Modify));
    assert!(watch.on_event("config.yaml", 1_500_000_000, ChangeKind::Modify));
}

#[test]
fn each_path_has_its_own_last_report() {
    let mut watch = ConfigWatch::new();
    assert!(watch.on_event("a", 100, ChangeKind::Modify));
    assert!(watch.on_event("b", 101, ChangeKind::Modify));
    assert!(!watch.on_event("a", 102, ChangeKind::Modify));
    assert!(!watch.on_event("b", 500_000_100, ChangeKind::Modify));
    assert!(watch.on_event("a", 500_000_100, ChangeKind::Modify));
    assert!(watch.on_event("b", 500_000_101, ChangeKind::Modify));
}

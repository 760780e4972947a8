//! Credentials, imports and paths.

use token_monitor::credentials::{get, has, load_from, remove, Credentials, StoreAction};
use token_monitor::json::Json;
use token_monitor::quantity::Quantity;
use token_monitor::secrets::{clean_secret, Secrets};
use token_monitor::storage::{
    document_lines, hex_text, import_legacy_json, join_path, sha256, ImportStep, StoragePaths,
};

fn from_value(value: &serde_json::Value) -> Json {
    match value {
        serde_json::Value::Null => Json::Null,
        serde_json::Value::Bool(yes) => Json::Bool(*yes),
        serde_json::Value::Number(found) => Json::Number {
            integer: found.as_i64(),
            value: Quantity { bits: found.as_f64().unwrap().to_bits() },
        },
        serde_json::Value::String(text) => Json::Text { text: text.clone(), spelled: None },
        serde_json::Value::Array(items) => Json::List(items.iter().map(from_value).collect()),
        serde_json::Value::Object(entries) => Json::Object(
            entries.iter().map(|(key, value)| (key.clone(), from_value(value))).collect(),
        ),
    }
}

fn is_json(text: &str) -> bool {
    serde_json::from_str::<serde_json::Value>(text).is_ok()
}

#[test]
fn parses_only_non_empty_string_credentials() {
    let document = from_value(
        &serde_json::from_str(
            r#"{"version":1,"credentials":{"OPENROUTER_API_KEY":"secret","EMPTY":"","NUMBER":4}}"#,
        )
        .unwrap(),
    );
    let values = load_from(Some(&document));
    assert_eq!(values.lookup("OPENROUTER_API_KEY"), Some("secret".to_owned()));
    assert!(values.lookup("EMPTY").is_none());
    assert!(values.lookup("NUMBER").is_none());
}

#[test]
fn legacy_import_is_idempotent() {
    let bytes = br#"{"days":[]}"#;
    let text = std::str::from_utf8(bytes).unwrap();
    let first = import_legacy_json("archive.json", bytes, None, is_json(text), 0).unwrap();
    let digest = match first {
        ImportStep::StoreDocument(report) => {
            assert!(report.imported);
            assert_eq!(report.bytes, 11);
            report.digest
        },
        _ => panic!("a new document is stored"),
    };
    match import_legacy_json("archive.json", bytes, Some(&digest), is_json(text), 0).unwrap() {
        ImportStep::Known(report) => assert!(!report.imported),
        _ => panic!("a known document is not stored again"),
    }
}

#[test]
fn jsonl_import_keeps_valid_rows() {
    let bytes = b"{\"provider\":\"codex\"}\nnot-json\n";
    let text = std::str::from_utf8(bytes).unwrap();
    let rows: Vec<String> =
        document_lines(text).into_iter().filter(|line| is_json(line)).collect();
    match import_legacy_json("rows.jsonl", bytes, None, is_json(text), rows.len()).unwrap() {
        ImportStep::StoreRows(report) => assert!(report.imported),
        _ => panic!("the rows are stored"),
    }
    let payload = rows.join(",");
    assert!(payload.contains("codex"));
    assert!(!payload.contains("not-json"));
}

#[test]
fn a_file_without_documents_is_refused() {
    let error = import_legacy_json("notes.txt", b"hello", None, false, 0).unwrap_err();
    assert_eq!(error, "legacy source is not valid JSON/JSONL: notes.txt");
}

#[test]
fn digests_are_those_of_the_bytes() {
    assert_eq!(
        sha256(b"abc"),
        "ba7816bf8f01cfea414140de5dae2223b00361a396177a9cb410ff61f20015ad"
    );
    assert_eq!(hex_text(&[0, 15, 255]), "000fff");
}

#[test]
fn what_was_set_is_found_until_it_is_removed() {
    let mut own = Credentials::new();
    let desktop = Credentials::new();
    assert!(token_monitor::credentials::set(&mut own, true, "A_KEY", "one").is_ok());
    assert_eq!(get(&own, &desktop, "A_KEY"), Some("one".to_owned()));
    assert!(token_monitor::credentials::set(&mut own, true, "A_KEY", "two").is_ok());
    assert_eq!(get(&own, &desktop, "A_KEY"), Some("two".to_owned()));
    assert!(token_monitor::credentials::set(&mut own, true, "OTHER", "x").is_ok());
    assert!(remove(&mut own, true, "A_KEY").is_ok());
    assert!(!has(&own, &desktop, "A_KEY"));
    assert!(has(&own, &desktop, "OTHER"));
}

#[test]
fn a_blank_secret_removes_what_is_stored() {
    let mut own = Credentials::new();
    assert!(matches!(token_monitor::credentials::set(&mut own, true, "A_KEY", " one "), Ok(StoreAction::Write)));
    assert_eq!(own.lookup("A_KEY"), Some("one".to_owned()));
    assert!(matches!(token_monitor::credentials::set(&mut own, true, "A_KEY", "  "), Ok(StoreAction::Delete)));
    assert!(own.lookup("A_KEY").is_none());
    assert!(token_monitor::credentials::set(&mut own, true, " ", "one").is_err());
    assert_eq!(token_monitor::credentials::set(&mut own, false, "A_KEY", "one").unwrap_err(), "config directory not found");
    assert_eq!(remove(&mut own, false, "A_KEY").unwrap_err(), "config directory not found");
}

#[test]
fn the_environment_counts_before_what_is_stored() {
    let mut environment = Credentials::new();
    environment.insert("KEY", "from environment");
    let mut shell = Credentials::new();
    shell.insert("KEY", "from shell");
    let secrets = Secrets {
        environment,
        own: Credentials::new(),
        desktop: Credentials::new(),
        shell,
    };
    assert_eq!(secrets.env_secret(&vec!["KEY"]), Some("from environment".to_owned()));
    assert_eq!(secrets.env_secret(&vec!["MISSING"]), None);
}

#[test]
fn secrets_are_trimmed() {
    assert_eq!(clean_secret(Some(&" 'abc' ".to_owned())), Some("abc".to_owned()));
    assert_eq!(clean_secret(Some(&"  ".to_owned())), None);
    assert_eq!(clean_secret(None), None);
}

#[test]
fn paths_are_joined_with_one_separator() {
    assert_eq!(join_path("/home/me", "x"), "/home/me/x");
    assert_eq!(join_path("/home/me/", "x"), "/home/me/x");
    let paths = StoragePaths::discover(Some("/home/me"), None, Some("/data"), None).unwrap();
    assert!(paths.config_dir.starts_with("/home/me/.config"));
    assert!(paths.database.starts_with("/data/"));
    assert!(StoragePaths::discover(None, None, None, None).is_err());
}

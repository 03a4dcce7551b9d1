use adelie::error::ErrorKind;
use adelie::frontend::{
    commit_message, replace_range, update_version, Application, UpdateError, VersionFile,
};

fn application(version: &str) -> Application {
    Application { version: version.to_string(), helm: None, chart: None }
}

const RECORD: &str = "# deployed applications
[web]
version = \"2.0.1\"   # pinned by ops
helm = \"https://charts.example.com/\"

[api]
# the public API
version = \"1.2.0\"
helm = \"https://charts.example.com/\"
chart = \"api-server\"
";

#[test]
fn from_entries_keeps_the_entries_in_order() {
    let file = VersionFile::from_entries(vec![
        ("web".to_string(), application("2.0.1")),
        ("api".to_string(), application("1.2.0")),
    ])
    .unwrap();
    assert_eq!(file.apps.len(), 2);
    assert_eq!(file.apps[0].0, "web");
    assert_eq!(file.apps[1].0, "api");
}

#[test]
fn from_entries_refuses_a_name_given_twice() {
    let file = VersionFile::from_entries(vec![
        ("api".to_string(), application("1.2.0")),
        ("web".to_string(), application("2.0.1")),
        ("api".to_string(), application("1.3.0")),
    ]);
    assert!(file.is_none());
}

#[test]
fn read_version_finds_an_application_by_name() {
    let file = VersionFile::from_entries(vec![
        ("web".to_string(), application("2.0.1")),
        ("api".to_string(), application("1.2.0")),
    ])
    .unwrap();
    assert_eq!(file.read_version("api"), Some("1.2.0"));
    assert_eq!(file.read_version("web"), Some("2.0.1"));
    assert_eq!(file.read_version("db"), None);
    assert_eq!(file.position("api"), Some(1));
    assert_eq!(file.position("db"), None);
    assert_eq!(file.get("web").map(|a| a.version.as_str()), Some("2.0.1"));
    assert!(file.get("db").is_none());
}

#[test]
fn update_version_rewrites_one_value() {
    let update = update_version(RECORD, "api", "1.3.0", false).unwrap();
    assert_eq!(update.previous, "1.2.0");
    assert_eq!(update.text, RECORD.replace("\"1.2.0\"", "\"1.3.0\""));
    assert_eq!(update.message, None);
}

#[test]
fn update_version_keeps_comments_and_layout() {
    let update = update_version(RECORD, "web", "2.1.0", false).unwrap();
    assert_eq!(update.previous, "2.0.1");
    assert_eq!(
        update.text,
        "# deployed applications
[web]
version = \"2.1.0\"   # pinned by ops
helm = \"https://charts.example.com/\"

[api]
# the public API
version = \"1.2.0\"
helm = \"https://charts.example.com/\"
chart = \"api-server\"
"
    );
}

#[test]
fn update_version_round_trip_changes_one_version() {
    let update = update_version(RECORD, "api", "1.3.0", false).unwrap();
    let before: toml::Table = RECORD.parse().unwrap();
    let after: toml::Table = update.text.parse().unwrap();
    assert_eq!(after["api"]["version"].as_str(), Some("1.3.0"));
    assert_eq!(after["web"], before["web"]);
    assert_eq!(after["api"]["helm"], before["api"]["helm"]);
    assert_eq!(after["api"]["chart"], before["api"]["chart"]);
    assert_eq!(after.len(), before.len());
    let again = update_version(&update.text, "api", "1.2.0", false).unwrap();
    assert_eq!(again.previous, "1.3.0");
    assert_eq!(again.text, RECORD);
}

#[test]
fn update_version_writes_the_commit_message() {
    let update = update_version(RECORD, "api", "1.3.0", true).unwrap();
    assert_eq!(
        update.message.as_deref(),
        Some(":arrow_up: api: 1.2.0 -> 1.3.0\n\nThis commit was automatically created by Adelie <https://github.com/nikhiljha/adelie>.")
    );
}

#[test]
fn update_version_escapes_the_new_version() {
    let update = update_version("[api]\nversion = '1.2.0'\n", "api", "1.3.0 \"x\"", false).unwrap();
    assert_eq!(update.previous, "1.2.0");
    let after: toml::Table = update.text.parse().unwrap();
    assert_eq!(after["api"]["version"].as_str(), Some("1.3.0 \"x\""));
}

#[test]
fn update_version_reads_inline_tables_and_text_beyond_ascii() {
    let source = "# héllo ✓\napi = { version = \"1.2.0\", note = \"ça va\" }\n";
    let update = update_version(source, "api", "1.3.0", false).unwrap();
    assert_eq!(update.text, "# héllo ✓\napi = { version = \"1.3.0\", note = \"ça va\" }\n");
}

#[test]
fn update_version_fails_on_a_malformed_record() {
    let result = update_version("[api\nversion = 1", "api", "1.3.0", false);
    assert_eq!(result.as_ref().err(), Some(&UpdateError::MalformedRecord));
    assert_eq!(result.unwrap_err().kind(), ErrorKind::Parse);
}

#[test]
fn update_version_fails_without_a_declared_version() {
    assert_eq!(
        update_version(RECORD, "db", "1.3.0", false).err(),
        Some(UpdateError::MissingVersion)
    );
    assert_eq!(
        update_version("[api]\nhelm = \"x\"\n", "api", "1.3.0", false).err(),
        Some(UpdateError::MissingVersion)
    );
    assert_eq!(
        update_version("[api]\nversion = 3\n", "api", "1.3.0", false).err(),
        Some(UpdateError::MissingVersion)
    );
    assert_eq!(
        update_version("api = \"1.2.0\"\n", "api", "1.3.0", false).err(),
        Some(UpdateError::MissingVersion)
    );
}

#[test]
fn commit_message_names_application_and_versions() {
    assert_eq!(
        commit_message("web", "2.0.1", "2.1.0"),
        ":arrow_up: web: 2.0.1 -> 2.1.0\n\nThis commit was automatically created by Adelie <https://github.com/nikhiljha/adelie>."
    );
}

#[test]
fn replace_range_cuts_between_bytes() {
    assert_eq!(replace_range("abcdef", 2, 4, "XYZ"), Some("abXYZef".to_string()));
    assert_eq!(replace_range("abcdef", 0, 0, "X"), Some("Xabcdef".to_string()));
    assert_eq!(replace_range("abcdef", 6, 6, "X"), Some("abcdefX".to_string()));
    assert_eq!(replace_range("abcdef", 0, 6, ""), Some("".to_string()));
    assert_eq!(replace_range("aé✓b", 1, 3, "e"), Some("ae✓b".to_string()));
}

#[test]
fn replace_range_refuses_a_cut_inside_a_character_or_outside_the_text() {
    assert_eq!(replace_range("aé✓b", 2, 3, "e"), None);
    assert_eq!(replace_range("aé✓b", 1, 4, "e"), None);
    assert_eq!(replace_range("abc", 2, 1, "x"), None);
    assert_eq!(replace_range("abc", 1, 4, "x"), None);
    assert_eq!(replace_range("abc", 4, 5, "x"), None);
}

#[test]
fn update_version_agrees_with_an_edit_of_the_parsed_document() {
    let source = "# versions\n[api]\nversion = \"1.2.0\"\nhelm = \"https://charts.example.com/\"\n\n[web]\nversion = \"2.0.1\"\n";
    let mut document: toml_edit::DocumentMut = source.parse().unwrap();
    document["web"]["version"] = toml_edit::value("2.1.0");
    let update = update_version(source, "web", "2.1.0", false).unwrap();
    assert_eq!(update.text, document.to_string());
}

#[test]
fn update_version_keeps_line_endings_and_byte_order_mark() {
    let source = "\u{feff}[api]\r\nversion = \"1.2.0\"\r\nhelm = \"x\"\r\n";
    let update = update_version(source, "api", "1.3.0", false).unwrap();
    assert_eq!(update.text, "\u{feff}[api]\r\nversion = \"1.3.0\"\r\nhelm = \"x\"\r\n");
}

#[test]
fn update_version_reads_dotted_keys_and_other_string_forms() {
    let source = "api.version = '''1.2.0'''\napi.helm = \"x\"\n";
    let update = update_version(source, "api", "1.3.0", false).unwrap();
    assert_eq!(update.previous, "1.2.0");
    assert_eq!(update.text, "api.version = \"1.3.0\"\napi.helm = \"x\"\n");
}

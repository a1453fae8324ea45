use mindwtr_store::chars::{from_chars, is_whitespace, same_text, to_chars, trimmed_text};
use mindwtr_store::codec::{decode_table, encode_table};
use mindwtr_store::config::{ConfigKey, ConfigTable, Tier};
use mindwtr_store::toml::{parse_toml_string_value, serialize_toml_string_value};

fn some(text: &str) -> Option<String> {
    Some(text.to_string())
}

#[test]
fn whitespace_is_the_unicode_property() {
    for c in [' ', '\t', '\n', '\r', '\u{0b}', '\u{0c}', '\u{85}', '\u{a0}', '\u{1680}', '\u{2000}', '\u{200a}', '\u{2028}', '\u{2029}', '\u{202f}', '\u{205f}', '\u{3000}'] {
        assert!(is_whitespace(c), "{:?}", c);
    }
    for c in ['a', '\0', '\u{feff}', '\u{200b}', '\u{08}', '\u{0e}', '\u{1f}', '\u{2007}'] {
        assert_eq!(is_whitespace(c), c.is_whitespace(), "{:?}", c);
    }
}

#[test]
fn whitespace_agrees_with_std_on_every_char() {
    let mut n: u32 = 0;
    while n <= 0x10ffff {
        if let Some(c) = char::from_u32(n) {
            assert_eq!(is_whitespace(c), c.is_whitespace(), "U+{:04X}", n);
        }
        n += 1;
    }
}

#[test]
fn chars_round_trip() {
    let text = "héllo \u{1F600} wörld";
    let chars = to_chars(text);
    assert_eq!(chars, text.chars().collect::<Vec<char>>());
    assert_eq!(from_chars(&chars), text);
    assert_eq!(from_chars(&[]), "");
}

#[test]
fn trimming_matches_std() {
    for text in ["", " ", "  a b  ", "\t\nx\r\n", "\u{a0}y\u{3000}", "z", " \0 "] {
        assert_eq!(trimmed_text(text), text.trim());
    }
}

#[test]
fn same_text_compares_contents() {
    assert!(same_text("abc", "abc"));
    assert!(!same_text("abc", "abd"));
    assert!(!same_text("abc", "ab"));
    assert!(same_text("", ""));
}

#[test]
fn basic_string_is_unescaped() {
    assert_eq!(parse_toml_string_value("\"plain\""), some("plain"));
    assert_eq!(parse_toml_string_value("  \"a\\\"b\"  "), some("a\"b"));
    assert_eq!(parse_toml_string_value("\"c:\\\\dir\\\\file\""), some("c:\\dir\\file"));
    assert_eq!(parse_toml_string_value("\"\""), some(""));
}

#[test]
fn literal_string_is_taken_as_it_stands() {
    assert_eq!(parse_toml_string_value("'c:\\dir'"), some("c:\\dir"));
    assert_eq!(parse_toml_string_value("'say \\\"hi\\\"'"), some("say \\\"hi\\\""));
    assert_eq!(parse_toml_string_value("''"), some(""));
}

#[test]
fn other_text_is_no_string() {
    for raw in ["", "   ", "\"", "'", "bare", "\"open", "open\"", "'open", "\"mixed'", "42"] {
        assert_eq!(parse_toml_string_value(raw), None, "{:?}", raw);
    }
}

#[test]
fn unescaping_is_two_passes_from_the_left() {
    // first every \" becomes ", then every \\ becomes \
    assert_eq!(parse_toml_string_value("\"a\\\\\\\"b\""), some("a\\\"b"));
    // the closing quote is the last character, whatever stands before it
    assert_eq!(parse_toml_string_value("\"\\\\\\\""), some("\\\\"));
    assert_eq!(parse_toml_string_value("\"x\\y\""), some("x\\y"));
}

#[test]
fn serializing_escapes_backslash_and_quote() {
    assert_eq!(serialize_toml_string_value("plain"), "\"plain\"");
    assert_eq!(serialize_toml_string_value("a\"b\\c"), "\"a\\\"b\\\\c\"");
    assert_eq!(serialize_toml_string_value(""), "\"\"");
}

#[test]
fn string_values_round_trip() {
    for value in ["", "x", "\\", "\"", "\\\"", "\"\\", "\\\\\"\"", "a b", " padded ", "tab\there", "ünï 😀", "'single'", "# = #"] {
        let written = serialize_toml_string_value(value);
        assert_eq!(parse_toml_string_value(&written), some(value), "{:?}", value);
    }
}

#[test]
fn keys_have_names_and_tiers() {
    let names = ["sync_path", "sync_backend", "webdav_url", "webdav_username", "webdav_password", "cloud_url", "cloud_token", "external_calendars"];
    let keys = ConfigKey::all();
    assert_eq!(keys.len(), 8);
    for (key, name) in keys.iter().zip(names.iter()) {
        assert_eq!(key.name(), *name);
        assert_eq!(ConfigKey::from_name(name), Some(*key));
    }
    assert_eq!(ConfigKey::from_name("unknown"), None);
    assert_eq!(ConfigKey::from_name("Sync_Path"), None);
    assert_eq!(ConfigKey::from_name(""), None);
    for key in keys {
        let secret = matches!(key, ConfigKey::WebdavPassword | ConfigKey::CloudToken | ConfigKey::ExternalCalendars);
        assert_eq!(key.tier(), if secret { Tier::Secret } else { Tier::Public });
    }
}

#[test]
fn empty_table_is_the_header_alone() {
    assert_eq!(encode_table(&ConfigTable::new()), "# Mindwtr desktop config\n");
    assert_eq!(decode_table("# Mindwtr desktop config\n"), ConfigTable::new());
    assert_eq!(decode_table(""), ConfigTable::new());
    assert_eq!(ConfigTable::default(), ConfigTable::new());
}

#[test]
fn table_is_written_in_key_order() {
    let mut table = ConfigTable::new();
    table.set(ConfigKey::CloudToken, some("t\"k"));
    table.set(ConfigKey::SyncPath, some("C:\\Users\\me\\Sync"));
    table.set(ConfigKey::SyncBackend, some("webdav"));
    assert_eq!(
        encode_table(&table),
        "# Mindwtr desktop config\nsync_path = \"C:\\\\Users\\\\me\\\\Sync\"\nsync_backend = \"webdav\"\ncloud_token = \"t\\\"k\"\n"
    );
}

#[test]
fn reading_skips_what_is_no_entry() {
    let text = "\n# comment\n   \nno equals sign\nunknown = \"x\"\n  sync_path   =   \"/data/sync\"  \r\n#sync_backend = \"cloud\"\ncloud_url='https://c.example'";
    let table = decode_table(text);
    let mut expected = ConfigTable::new();
    expected.sync_path = some("/data/sync");
    expected.cloud_url = some("https://c.example");
    assert_eq!(table, expected);
}

#[test]
fn later_line_replaces_earlier_and_bad_value_clears() {
    let table = decode_table("sync_path = \"one\"\nsync_path = \"two\"\nsync_backend = \"file\"\nsync_backend = bare\n");
    assert_eq!(table.sync_path, some("two"));
    assert_eq!(table.sync_backend, None);
}

#[test]
fn value_is_split_at_the_first_equals_sign() {
    let table = decode_table("webdav_url = \"https://h/?a=b&c=d\"\n");
    assert_eq!(table.webdav_url, some("https://h/?a=b&c=d"));
}

#[test]
fn table_text_round_trips() {
    let mut table = ConfigTable::new();
    table.sync_path = some("/home/me/Sync/mindwtr");
    table.sync_backend = some("cloud");
    table.webdav_url = some("https://dav.example/remote.php");
    table.webdav_username = some("me \"the\" user");
    table.webdav_password = some("p\\a\"s's#w=d ");
    table.cloud_url = some("");
    table.cloud_token = some("tök€n");
    table.external_calendars = some("[{\"id\":\"1\",\"name\":\"Work\",\"url\":\"https://x/y.ics\",\"enabled\":true}]");
    assert_eq!(decode_table(&encode_table(&table)), table);
}

#[test]
fn value_with_line_feed_does_not_round_trip() {
    let mut table = ConfigTable::new();
    table.sync_path = some("a\nb");
    assert_ne!(decode_table(&encode_table(&table)), table);
}

#[test]
fn get_and_set_address_one_key() {
    let mut table = ConfigTable::new();
    assert!(table.is_empty());
    table.set(ConfigKey::WebdavUsername, some("u"));
    assert!(!table.is_empty());
    assert_eq!(table.get(ConfigKey::WebdavUsername), &some("u"));
    assert_eq!(table.get(ConfigKey::WebdavUrl), &None);
    assert_eq!(table.webdav_username, some("u"));
    table.set(ConfigKey::WebdavUsername, None);
    assert!(table.is_empty());
    assert_eq!(table.clone(), table);
}

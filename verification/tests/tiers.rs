use mindwtr_store::codec::decode_table;
use mindwtr_store::config::{ConfigKey, ConfigTable, Tier};
use mindwtr_store::tiers::{load_files, render_files};

fn text(value: &str) -> Option<String> {
    Some(value.to_string())
}

fn full_table() -> ConfigTable {
    let mut table = ConfigTable::new();
    table.sync_path = text("/sync");
    table.sync_backend = text("webdav");
    table.webdav_url = text("https://dav.example");
    table.webdav_username = text("me");
    table.webdav_password = text("hunter2");
    table.cloud_url = text("https://cloud.example");
    table.cloud_token = text("tok");
    table.external_calendars = text("[]");
    table
}

#[test]
fn split_routes_each_key_to_its_tier() {
    let table = full_table();
    let (public, secrets) = table.split();
    for key in ConfigKey::all() {
        match key.tier() {
            Tier::Public => {
                assert_eq!(public.get(key), table.get(key));
                assert_eq!(secrets.get(key), &None);
            }
            Tier::Secret => {
                assert_eq!(secrets.get(key), table.get(key));
                assert_eq!(public.get(key), &None);
            }
        }
    }
    assert_eq!(public.merge(&secrets), table);
    assert_eq!(table.only(Tier::Public), public);
    assert_eq!(table.only(Tier::Secret), secrets);
}

#[test]
fn merge_lets_secrets_win() {
    let mut public = ConfigTable::new();
    public.sync_path = text("/public");
    public.cloud_token = text("stale");
    let mut secrets = ConfigTable::new();
    secrets.cloud_token = text("fresh");
    secrets.sync_backend = text("cloud");
    let merged = public.merge(&secrets);
    assert_eq!(merged.sync_path, text("/public"));
    assert_eq!(merged.cloud_token, text("fresh"));
    assert_eq!(merged.sync_backend, text("cloud"));
    assert_eq!(merged.webdav_url, None);
}

#[test]
fn secrets_go_to_the_secrets_file_only() {
    let files = render_files(&full_table());
    assert_eq!(
        files.public,
        "# Mindwtr desktop config\nsync_path = \"/sync\"\nsync_backend = \"webdav\"\nwebdav_url = \"https://dav.example\"\nwebdav_username = \"me\"\ncloud_url = \"https://cloud.example\"\n"
    );
    assert_eq!(
        files.secrets,
        text("# Mindwtr desktop config\nwebdav_password = \"hunter2\"\ncloud_token = \"tok\"\nexternal_calendars = \"[]\"\n")
    );
    assert!(!files.public.contains("hunter2"));
    assert!(!files.public.contains("tok\""));
    let public = decode_table(&files.public);
    assert_eq!(public.webdav_password, None);
    assert_eq!(public.cloud_token, None);
    assert_eq!(public.external_calendars, None);
}

#[test]
fn config_files_round_trip() {
    let table = full_table();
    let files = render_files(&table);
    assert_eq!(load_files(Some(&files.public), files.secrets.as_deref()), table);
}

#[test]
fn clearing_all_secrets_removes_the_secrets_file() {
    let mut table = full_table();
    assert!(render_files(&table).secrets.is_some());
    table.webdav_password = None;
    table.cloud_token = None;
    assert!(render_files(&table).secrets.is_some());
    table.external_calendars = None;
    let files = render_files(&table);
    assert_eq!(files.secrets, None);
    assert_eq!(load_files(Some(&files.public), None), table);
}

#[test]
fn missing_files_are_the_empty_table() {
    assert_eq!(load_files(None, None), ConfigTable::new());
    let mut expected = ConfigTable::new();
    expected.cloud_token = text("t");
    assert_eq!(load_files(None, Some("cloud_token = \"t\"\n")), expected);
}

#[test]
fn secret_left_in_the_public_file_is_still_read() {
    let table = load_files(Some("webdav_password = \"old\"\nsync_path = \"/s\"\n"), None);
    assert_eq!(table.webdav_password, text("old"));
    let files = render_files(&table);
    assert_eq!(files.public, "# Mindwtr desktop config\nsync_path = \"/s\"\n");
    assert_eq!(files.secrets, text("# Mindwtr desktop config\nwebdav_password = \"old\"\n"));
}

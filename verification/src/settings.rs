//! Reading and changing single settings of a configuration table: the sync
//! folder, the sync backend, and the WebDAV and cloud accounts.

use crate::chars::{lemma_trim_idempotent, same_text, trim, trimmed_text};
use crate::config::{text_of, ConfigKey, ConfigTable, ConfigView};
use crate::error::StoreError;
use crate::paths::default_sync_path;
use vstd::prelude::*;

verus! {

/// The backends that a table may name: `file`, `webdav`, `cloud`.
pub open spec fn is_backend(s: Seq<char>) -> bool {
    s == "file"@ || s == "webdav"@ || s == "cloud"@
}

/// The backend in force: the configured one, trimmed, where that is a
/// recognised backend, and `file` otherwise.
pub open spec fn effective_backend(table: ConfigView) -> Seq<char> {
    match table.sync_backend {
        Some(raw) => if is_backend(trim(raw)) {
            trim(raw)
        } else {
            "file"@
        },
        None => "file"@,
    }
}

/// `value` where there is one, the empty text otherwise.
pub open spec fn or_empty(value: Option<Seq<char>>) -> Seq<char> {
    match value {
        Some(v) => v,
        None => Seq::empty(),
    }
}

/// The table after the WebDAV account has been set: a blank address clears
/// address, user name and password; any other address is stored trimmed,
/// with the user name and password as given.
pub open spec fn with_webdav(
    table: ConfigView,
    url: Seq<char>,
    username: Seq<char>,
    password: Seq<char>,
) -> ConfigView {
    if trim(url).len() == 0 {
        ConfigView { webdav_url: None, webdav_username: None, webdav_password: None, ..table }
    } else {
        ConfigView {
            webdav_url: Some(trim(url)),
            webdav_username: Some(username),
            webdav_password: Some(password),
            ..table
        }
    }
}

/// The table after the cloud account has been set: a blank address clears
/// address and token; any other address is stored trimmed, with the token
/// as given.
pub open spec fn with_cloud(table: ConfigView, url: Seq<char>, token: Seq<char>) -> ConfigView {
    if trim(url).len() == 0 {
        ConfigView { cloud_url: None, cloud_token: None, ..table }
    } else {
        ConfigView { cloud_url: Some(trim(url)), cloud_token: Some(token), ..table }
    }
}

/// The WebDAV account of a table; what is not configured is empty.
#[derive(Debug, PartialEq, Eq)]
pub struct WebdavConfig {
    pub url: String,
    pub username: String,
    pub password: String,
}

/// The cloud account of a table; what is not configured is empty.
#[derive(Debug, PartialEq, Eq)]
pub struct CloudConfig {
    pub url: String,
    pub token: String,
}

/// A copy of `value`, or the empty string.
fn or_default(value: &Option<String>) -> (text: String)
    ensures
        text@ == or_empty(text_of(*value)),
{
    match value {
        Some(v) => v.clone(),
        None => String::new(),
    }
}

/// `value` itself where it is exactly `file`, `webdav` or `cloud`; `None`
/// for any other text, whatever its case or the whitespace around it.
pub fn normalize_backend(value: &str) -> (r: Option<&str>)
    ensures
        match r {
            Some(v) => is_backend(value@) && v@ == value@,
            None => !is_backend(value@),
        },
{
    if same_text(value, "file") || same_text(value, "webdav") || same_text(value, "cloud") {
        Some(value)
    } else {
        None
    }
}

/// The sync backend in force: the configured one, trimmed, where it is
/// recognised; `file` otherwise.
pub fn get_sync_backend(table: &ConfigTable) -> (backend: String)
    ensures
        backend@ == effective_backend(table@),
        is_backend(backend@),
{
    match &table.sync_backend {
        Some(raw) => {
            let t = trimmed_text(raw.as_str());
            match normalize_backend(t.as_str()) {
                Some(known) => known.to_owned(),
                None => "file".to_owned(),
            }
        },
        None => "file".to_owned(),
    }
}

/// Stores `backend`, trimmed, as the sync backend. Fails with
/// `InvalidBackend`, and leaves the table alone, unless the trimmed text is
/// exactly `file`, `webdav` or `cloud`.
pub fn set_sync_backend(table: &mut ConfigTable, backend: &str) -> (r: Result<(), StoreError>)
    ensures
        is_backend(trim(backend@)) ==> r is Ok && final(table)@ == old(table)@.set(
            ConfigKey::SyncBackend,
            Some(trim(backend@)),
        ),
        !is_backend(trim(backend@)) ==> r == Err::<(), StoreError>(StoreError::InvalidBackend)
            && final(table)@ == old(table)@,
{
    let t = trimmed_text(backend);
    match normalize_backend(t.as_str()) {
        Some(known) => {
            table.set(ConfigKey::SyncBackend, Some(known.to_owned()));
            Ok(())
        },
        None => Err(StoreError::InvalidBackend),
    }
}

/// The sync folder, given the default folder where the platform could make
/// one: the configured path where there is one, otherwise `default_path`.
/// Fails with `NoHomeDirectory` exactly when neither is there.
pub fn resolve_sync_path(table: &ConfigTable, default_path: Option<String>) -> (r: Result<
    String,
    StoreError,
>)
    ensures
        match table@.sync_path {
            Some(path) => r is Ok && r->Ok_0@ == path,
            None => match default_path {
                Some(path) => r is Ok && r->Ok_0@ == path@,
                None => r == Err::<String, StoreError>(StoreError::NoHomeDirectory),
            },
        },
{
    match &table.sync_path {
        Some(path) => Ok(path.clone()),
        None => match default_path {
            Some(path) => Ok(path),
            None => Err(StoreError::NoHomeDirectory),
        },
    }
}

/// The sync folder: the configured path where there is one; otherwise the
/// folder `Sync/mindwtr` under `home`, the user's home directory, joined as
/// the platform joins paths. Fails with `NoHomeDirectory` exactly when no
/// path is configured and the platform knows no home directory.
pub fn get_sync_path(table: &ConfigTable, home: Option<&str>) -> (r: Result<String, StoreError>)
    ensures
        match table@.sync_path {
            Some(path) => r is Ok && r->Ok_0@ == path,
            None => match home {
                Some(_) => r is Ok,
                None => r == Err::<String, StoreError>(StoreError::NoHomeDirectory),
            },
        },
{
    let default_path = match home {
        Some(dir) => if table.sync_path.is_none() {
            Some(default_sync_path(dir))
        } else {
            None
        },
        None => None,
    };
    resolve_sync_path(table, default_path)
}

/// Stores `sync_path` as the sync folder, as given.
pub fn set_sync_path(table: &mut ConfigTable, sync_path: String)
    ensures
        final(table)@ == old(table)@.set(ConfigKey::SyncPath, Some(sync_path@)),
{
    table.set(ConfigKey::SyncPath, Some(sync_path));
}

/// The WebDAV account; what is not configured is empty.
pub fn get_webdav_config(table: &ConfigTable) -> (account: WebdavConfig)
    ensures
        account.url@ == or_empty(table@.webdav_url),
        account.username@ == or_empty(table@.webdav_username),
        account.password@ == or_empty(table@.webdav_password),
{
    WebdavConfig {
        url: or_default(&table.webdav_url),
        username: or_default(&table.webdav_username),
        password: or_default(&table.webdav_password),
    }
}

/// Sets the WebDAV account. A blank address clears address, user name and
/// password; any other address is stored trimmed, with the user name and
/// password as given. The other keys keep their values.
pub fn set_webdav_config(table: &mut ConfigTable, url: &str, username: String, password: String)
    ensures
        final(table)@ == with_webdav(old(table)@, url@, username@, password@),
{
    let address = trimmed_text(url);
    if address.as_str().unicode_len() == 0 {
        table.webdav_url = None;
        table.webdav_username = None;
        table.webdav_password = None;
    } else {
        table.webdav_url = Some(address);
        table.webdav_username = Some(username);
        table.webdav_password = Some(password);
    }
}

/// The cloud account; what is not configured is empty.
pub fn get_cloud_config(table: &ConfigTable) -> (account: CloudConfig)
    ensures
        account.url@ == or_empty(table@.cloud_url),
        account.token@ == or_empty(table@.cloud_token),
{
    CloudConfig { url: or_default(&table.cloud_url), token: or_default(&table.cloud_token) }
}

/// Sets the cloud account. A blank address clears address and token; any
/// other address is stored trimmed, with the token as given. The other keys
/// keep their values.
pub fn set_cloud_config(table: &mut ConfigTable, url: &str, token: String)
    ensures
        final(table)@ == with_cloud(old(table)@, url@, token@),
{
    let address = trimmed_text(url);
    if address.as_str().unicode_len() == 0 {
        table.cloud_url = None;
        table.cloud_token = None;
    } else {
        table.cloud_url = Some(address);
        table.cloud_token = Some(token);
    }
}

/// After a backend has been stored, the backend in force is the one that
/// was given, trimmed.
pub proof fn lemma_backend_after_set(table: ConfigView, backend: Seq<char>)
    requires
        is_backend(trim(backend)),
    ensures
        effective_backend(table.set(ConfigKey::SyncBackend, Some(trim(backend)))) == trim(backend),
{
    lemma_trim_idempotent(backend);
}

} // verus!

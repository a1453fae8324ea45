//! The names that the store gives its files and folders. Joining a name to
//! a directory is the caller's, in the platform's own way.

use vstd::prelude::*;

verus! {

/// The suffix of the backup of a file.
pub open spec fn backup_suffix() -> Seq<char> {
    ".bak"@
}

/// The suffix of the staging file of a write.
pub open spec fn temp_suffix() -> Seq<char> {
    ".tmp"@
}

/// The application's name, used for its directories.
pub fn app_name() -> (name: &'static str)
    ensures
        name@ == "mindwtr"@,
{
    "mindwtr"
}

/// The name of the public configuration file.
pub fn config_file_name() -> (name: &'static str)
    ensures
        name@ == "config.toml"@,
{
    "config.toml"
}

/// The name of the secrets file, beside the public configuration file.
pub fn secrets_file_name() -> (name: &'static str)
    ensures
        name@ == "secrets.toml"@,
{
    "secrets.toml"
}

/// The name of the document file, in the data directory and in the sync folder.
pub fn data_file_name() -> (name: &'static str)
    ensures
        name@ == "data.json"@,
{
    "data.json"
}

/// The name of the configuration file of earlier versions.
pub fn legacy_config_file_name() -> (name: &'static str)
    ensures
        name@ == "config.json"@,
{
    "config.json"
}

/// The name that earlier versions gave the document in the sync folder.
pub fn legacy_sync_file_name() -> (name: String)
    ensures
        name@ == "mindwtr"@ + "-sync.json"@,
{
    app_name().to_owned().concat("-sync.json")
}

/// The folder under the home directory that holds the default sync folder.
pub fn default_sync_parent() -> (name: &'static str)
    ensures
        name@ == "Sync"@,
{
    "Sync"
}

/// `Path::join` on `base` and `name`, read back as text: `name` under the
/// directory `base`, with the separator of the platform. Nothing is claimed
/// of the text, which differs from platform to platform.
#[verifier::external_body]
pub(crate) fn join_path(base: &str, name: &str) -> (joined: String) {
    std::path::Path::new(base).join(name).to_string_lossy().into_owned()
}

/// The default sync folder of a user whose home directory is `home`:
/// `Sync/mindwtr` under it, as the platform writes paths.
pub(crate) fn default_sync_path(home: &str) -> (path: String) {
    let parent = join_path(home, default_sync_parent());
    join_path(parent.as_str(), app_name())
}

/// Where the previous version of the file at `path` is kept.
pub fn backup_path(path: &str) -> (backup: String)
    ensures
        backup@ == path@ + backup_suffix(),
{
    path.to_owned().concat(".bak")
}

/// Where new content for the file at `path` is staged.
pub fn temp_path(path: &str) -> (temp: String)
    ensures
        temp@ == path@ + temp_suffix(),
{
    path.to_owned().concat(".tmp")
}

/// A path, its backup and its staging file are three different paths.
pub proof fn lemma_siblings_differ(path: Seq<char>)
    ensures
        path + backup_suffix() != path,
        path + temp_suffix() != path,
        path + backup_suffix() != path + temp_suffix(),
{
    reveal_strlit(".bak");
    reveal_strlit(".tmp");
    let b = path + backup_suffix();
    let t = path + temp_suffix();
    assert(b.len() == path.len() + 4);
    assert(t.len() == path.len() + 4);
    assert(b[path.len() as int + 1] == 'b');
    assert(t[path.len() as int + 1] == 't');
}

} // verus!

//! The configuration table: a fixed set of keys, each with an optional string
//! value, and the tier (public or secret) that each key is persisted in.

use vstd::prelude::*;

verus! {

/// The recognised configuration keys.
#[derive(Clone, Copy, Debug, PartialEq, Eq, Structural)]
pub enum ConfigKey {
    SyncPath,
    SyncBackend,
    WebdavUrl,
    WebdavUsername,
    WebdavPassword,
    CloudUrl,
    CloudToken,
    ExternalCalendars,
}

/// Which of the two persisted tables holds a key.
#[derive(Clone, Copy, Debug, PartialEq, Eq, Structural)]
pub enum Tier {
    Public,
    Secret,
}

/// The keys in the order in which they are written.
pub open spec fn key_order() -> Seq<ConfigKey> {
    seq![
        ConfigKey::SyncPath,
        ConfigKey::SyncBackend,
        ConfigKey::WebdavUrl,
        ConfigKey::WebdavUsername,
        ConfigKey::WebdavPassword,
        ConfigKey::CloudUrl,
        ConfigKey::CloudToken,
        ConfigKey::ExternalCalendars,
    ]
}

/// Every key occurs in `key_order`.
pub proof fn lemma_key_order_complete(k: ConfigKey)
    ensures
        key_order().contains(k),
        key_order().len() == 8,
{
    let o = key_order();
    match k {
        ConfigKey::SyncPath => assert(o[0] == k),
        ConfigKey::SyncBackend => assert(o[1] == k),
        ConfigKey::WebdavUrl => assert(o[2] == k),
        ConfigKey::WebdavUsername => assert(o[3] == k),
        ConfigKey::WebdavPassword => assert(o[4] == k),
        ConfigKey::CloudUrl => assert(o[5] == k),
        ConfigKey::CloudToken => assert(o[6] == k),
        ConfigKey::ExternalCalendars => assert(o[7] == k),
    }
}

impl ConfigKey {
    /// The key as it is written in a configuration file.
    pub open spec fn spec_name(self) -> Seq<char> {
        match self {
            ConfigKey::SyncPath => "sync_path"@,
            ConfigKey::SyncBackend => "sync_backend"@,
            ConfigKey::WebdavUrl => "webdav_url"@,
            ConfigKey::WebdavUsername => "webdav_username"@,
            ConfigKey::WebdavPassword => "webdav_password"@,
            ConfigKey::CloudUrl => "cloud_url"@,
            ConfigKey::CloudToken => "cloud_token"@,
            ConfigKey::ExternalCalendars => "external_calendars"@,
        }
    }

    /// The tier of the key: credentials and calendar subscriptions are secret.
    pub open spec fn spec_tier(self) -> Tier {
        match self {
            ConfigKey::WebdavPassword | ConfigKey::CloudToken | ConfigKey::ExternalCalendars => {
                Tier::Secret
            },
            _ => Tier::Public,
        }
    }

    /// The key as it is written in a configuration file.
    pub fn name(self) -> (n: &'static str)
        ensures
            n@ == self.spec_name(),
    {
        match self {
            ConfigKey::SyncPath => "sync_path",
            ConfigKey::SyncBackend => "sync_backend",
            ConfigKey::WebdavUrl => "webdav_url",
            ConfigKey::WebdavUsername => "webdav_username",
            ConfigKey::WebdavPassword => "webdav_password",
            ConfigKey::CloudUrl => "cloud_url",
            ConfigKey::CloudToken => "cloud_token",
            ConfigKey::ExternalCalendars => "external_calendars",
        }
    }

    /// The tier that the key is persisted in.
    pub fn tier(self) -> (t: Tier)
        ensures
            t == self.spec_tier(),
    {
        match self {
            ConfigKey::WebdavPassword | ConfigKey::CloudToken | ConfigKey::ExternalCalendars => {
                Tier::Secret
            },
            _ => Tier::Public,
        }
    }

    /// All keys, in the order in which they are written.
    pub fn all() -> (keys: [ConfigKey; 8])
        ensures
            keys@ == key_order(),
    {
        let keys = [
            ConfigKey::SyncPath,
            ConfigKey::SyncBackend,
            ConfigKey::WebdavUrl,
            ConfigKey::WebdavUsername,
            ConfigKey::WebdavPassword,
            ConfigKey::CloudUrl,
            ConfigKey::CloudToken,
            ConfigKey::ExternalCalendars,
        ];
        proof {
            assert(keys@ =~= key_order());
        }
        keys
    }
}

/// The view of an optional string.
pub open spec fn text_of(value: Option<String>) -> Option<Seq<char>> {
    match value {
        Some(s) => Some(s@),
        None => None,
    }
}

/// A copy of an optional string.
pub fn clone_text(value: &Option<String>) -> (copy: Option<String>)
    ensures
        text_of(copy) == text_of(*value),
{
    match value {
        Some(s) => Some(s.clone()),
        None => None,
    }
}

/// The mathematical content of a configuration table.
pub struct ConfigView {
    pub sync_path: Option<Seq<char>>,
    pub sync_backend: Option<Seq<char>>,
    pub webdav_url: Option<Seq<char>>,
    pub webdav_username: Option<Seq<char>>,
    pub webdav_password: Option<Seq<char>>,
    pub cloud_url: Option<Seq<char>>,
    pub cloud_token: Option<Seq<char>>,
    pub external_calendars: Option<Seq<char>>,
}

impl ConfigView {
    /// The table in which no key has a value.
    pub open spec fn empty() -> ConfigView {
        ConfigView {
            sync_path: None,
            sync_backend: None,
            webdav_url: None,
            webdav_username: None,
            webdav_password: None,
            cloud_url: None,
            cloud_token: None,
            external_calendars: None,
        }
    }

    /// The value of `key`.
    pub open spec fn get(self, key: ConfigKey) -> Option<Seq<char>> {
        match key {
            ConfigKey::SyncPath => self.sync_path,
            ConfigKey::SyncBackend => self.sync_backend,
            ConfigKey::WebdavUrl => self.webdav_url,
            ConfigKey::WebdavUsername => self.webdav_username,
            ConfigKey::WebdavPassword => self.webdav_password,
            ConfigKey::CloudUrl => self.cloud_url,
            ConfigKey::CloudToken => self.cloud_token,
            ConfigKey::ExternalCalendars => self.external_calendars,
        }
    }

    /// The table with the value of `key` replaced by `value`.
    pub open spec fn set(self, key: ConfigKey, value: Option<Seq<char>>) -> ConfigView {
        match key {
            ConfigKey::SyncPath => ConfigView { sync_path: value, ..self },
            ConfigKey::SyncBackend => ConfigView { sync_backend: value, ..self },
            ConfigKey::WebdavUrl => ConfigView { webdav_url: value, ..self },
            ConfigKey::WebdavUsername => ConfigView { webdav_username: value, ..self },
            ConfigKey::WebdavPassword => ConfigView { webdav_password: value, ..self },
            ConfigKey::CloudUrl => ConfigView { cloud_url: value, ..self },
            ConfigKey::CloudToken => ConfigView { cloud_token: value, ..self },
            ConfigKey::ExternalCalendars => ConfigView { external_calendars: value, ..self },
        }
    }

    /// The part of the table that belongs to `tier`: the other keys have no value.
    pub open spec fn only(self, tier: Tier) -> ConfigView {
        ConfigView {
            sync_path: keep(self, ConfigKey::SyncPath, tier),
            sync_backend: keep(self, ConfigKey::SyncBackend, tier),
            webdav_url: keep(self, ConfigKey::WebdavUrl, tier),
            webdav_username: keep(self, ConfigKey::WebdavUsername, tier),
            webdav_password: keep(self, ConfigKey::WebdavPassword, tier),
            cloud_url: keep(self, ConfigKey::CloudUrl, tier),
            cloud_token: keep(self, ConfigKey::CloudToken, tier),
            external_calendars: keep(self, ConfigKey::ExternalCalendars, tier),
        }
    }

    /// The table that has, for each key, the value in `over` where there is
    /// one and the value in `self` otherwise.
    pub open spec fn overlaid(self, over: ConfigView) -> ConfigView {
        ConfigView {
            sync_path: prefer(over.sync_path, self.sync_path),
            sync_backend: prefer(over.sync_backend, self.sync_backend),
            webdav_url: prefer(over.webdav_url, self.webdav_url),
            webdav_username: prefer(over.webdav_username, self.webdav_username),
            webdav_password: prefer(over.webdav_password, self.webdav_password),
            cloud_url: prefer(over.cloud_url, self.cloud_url),
            cloud_token: prefer(over.cloud_token, self.cloud_token),
            external_calendars: prefer(over.external_calendars, self.external_calendars),
        }
    }

    /// No key has a value.
    pub open spec fn is_empty(self) -> bool {
        forall|k: ConfigKey| (#[trigger] self.get(k)) is None
    }

    /// No value holds a line feed.
    pub open spec fn single_line(self) -> bool {
        forall|k: ConfigKey| (#[trigger] self.get(k)) matches Some(v) ==> !v.contains('\n')
    }
}

/// The value of `key` in `table` where `key` belongs to `tier`, else nothing.
pub open spec fn keep(table: ConfigView, key: ConfigKey, tier: Tier) -> Option<Seq<char>> {
    if key.spec_tier() == tier {
        table.get(key)
    } else {
        None
    }
}

/// `first` where it is a value, else `second`.
pub open spec fn prefer(first: Option<Seq<char>>, second: Option<Seq<char>>) -> Option<
    Seq<char>,
> {
    if first is Some {
        first
    } else {
        second
    }
}

/// The logical configuration: each recognised key with its value, if any.
#[derive(Debug, PartialEq, Eq)]
pub struct ConfigTable {
    pub sync_path: Option<String>,
    pub sync_backend: Option<String>,
    pub webdav_url: Option<String>,
    pub webdav_username: Option<String>,
    pub webdav_password: Option<String>,
    pub cloud_url: Option<String>,
    pub cloud_token: Option<String>,
    pub external_calendars: Option<String>,
}

impl View for ConfigTable {
    type V = ConfigView;

    open spec fn view(&self) -> ConfigView {
        ConfigView {
            sync_path: text_of(self.sync_path),
            sync_backend: text_of(self.sync_backend),
            webdav_url: text_of(self.webdav_url),
            webdav_username: text_of(self.webdav_username),
            webdav_password: text_of(self.webdav_password),
            cloud_url: text_of(self.cloud_url),
            cloud_token: text_of(self.cloud_token),
            external_calendars: text_of(self.external_calendars),
        }
    }
}

impl ConfigTable {
    /// The table in which no key has a value.
    pub fn new() -> (table: ConfigTable)
        ensures
            table@ == ConfigView::empty(),
    {
        ConfigTable {
            sync_path: None,
            sync_backend: None,
            webdav_url: None,
            webdav_username: None,
            webdav_password: None,
            cloud_url: None,
            cloud_token: None,
            external_calendars: None,
        }
    }

    /// The value of `key`.
    pub fn get(&self, key: ConfigKey) -> (value: &Option<String>)
        ensures
            text_of(*value) == self@.get(key),
    {
        match key {
            ConfigKey::SyncPath => &self.sync_path,
            ConfigKey::SyncBackend => &self.sync_backend,
            ConfigKey::WebdavUrl => &self.webdav_url,
            ConfigKey::WebdavUsername => &self.webdav_username,
            ConfigKey::WebdavPassword => &self.webdav_password,
            ConfigKey::CloudUrl => &self.cloud_url,
            ConfigKey::CloudToken => &self.cloud_token,
            ConfigKey::ExternalCalendars => &self.external_calendars,
        }
    }

    /// Replaces the value of `key` by `value` and leaves the other keys alone.
    pub fn set(&mut self, key: ConfigKey, value: Option<String>)
        ensures
            final(self)@ == old(self)@.set(key, text_of(value)),
    {
        match key {
            ConfigKey::SyncPath => self.sync_path = value,
            ConfigKey::SyncBackend => self.sync_backend = value,
            ConfigKey::WebdavUrl => self.webdav_url = value,
            ConfigKey::WebdavUsername => self.webdav_username = value,
            ConfigKey::WebdavPassword => self.webdav_password = value,
            ConfigKey::CloudUrl => self.cloud_url = value,
            ConfigKey::CloudToken => self.cloud_token = value,
            ConfigKey::ExternalCalendars => self.external_calendars = value,
        }
    }

    /// Whether no key has a value.
    pub fn is_empty(&self) -> (empty: bool)
        ensures
            empty == self@.is_empty(),
    {
        let empty = self.sync_path.is_none() && self.sync_backend.is_none()
            && self.webdav_url.is_none() && self.webdav_username.is_none()
            && self.webdav_password.is_none() && self.cloud_url.is_none()
            && self.cloud_token.is_none() && self.external_calendars.is_none();
        proof {
            if empty {
                assert forall|k: ConfigKey| (#[trigger] self@.get(k)) is None by {}
            } else {
                assert(self@.get(ConfigKey::SyncPath) == self@.sync_path);
                assert(self@.get(ConfigKey::SyncBackend) == self@.sync_backend);
                assert(self@.get(ConfigKey::WebdavUrl) == self@.webdav_url);
                assert(self@.get(ConfigKey::WebdavUsername) == self@.webdav_username);
                assert(self@.get(ConfigKey::WebdavPassword) == self@.webdav_password);
                assert(self@.get(ConfigKey::CloudUrl) == self@.cloud_url);
                assert(self@.get(ConfigKey::CloudToken) == self@.cloud_token);
                assert(self@.get(ConfigKey::ExternalCalendars) == self@.external_calendars);
            }
        }
        empty
    }

    /// The part of the table that is persisted in `tier`: every key of the
    /// tier with its value, every other key without one.
    pub fn only(&self, tier: Tier) -> (part: ConfigTable)
        ensures
            part@ == self@.only(tier),
            forall|k: ConfigKey|
                #[trigger] part@.get(k) == if k.spec_tier() == tier {
                    self@.get(k)
                } else {
                    None
                },
    {
        let mut part = ConfigTable::new();
        let keys = ConfigKey::all();
        let mut i: usize = 0;
        while i < 8
            invariant
                i <= 8,
                keys@ == key_order(),
                forall|j: int| 0 <= j < i ==> part@.get(#[trigger] key_order()[j]) == keep(self@, key_order()[j], tier),
                forall|j: int| i <= j < 8 ==> part@.get(#[trigger] key_order()[j]) is None,
            decreases 8 - i,
        {
            let k = keys[i];
            if k.tier() == tier {
                part.set(k, clone_text(self.get(k)));
            }
            i += 1;
        }
        proof {
            let o = key_order();
            assert(part@.get(o[0]) == keep(self@, o[0], tier));
            assert(part@.get(o[1]) == keep(self@, o[1], tier));
            assert(part@.get(o[2]) == keep(self@, o[2], tier));
            assert(part@.get(o[3]) == keep(self@, o[3], tier));
            assert(part@.get(o[4]) == keep(self@, o[4], tier));
            assert(part@.get(o[5]) == keep(self@, o[5], tier));
            assert(part@.get(o[6]) == keep(self@, o[6], tier));
            assert(part@.get(o[7]) == keep(self@, o[7], tier));
            assert(part@ == self@.only(tier));
        }
        part
    }

    /// The public and the secret part of the table, in this order.
    pub fn split(&self) -> (parts: (ConfigTable, ConfigTable))
        ensures
            parts.0@ == self@.only(Tier::Public),
            parts.1@ == self@.only(Tier::Secret),
    {
        (self.only(Tier::Public), self.only(Tier::Secret))
    }

    /// The table that has, for each key, the value in `secrets` where there
    /// is one, and the value in `self` otherwise.
    pub fn merge(&self, secrets: &ConfigTable) -> (merged: ConfigTable)
        ensures
            merged@ == self@.overlaid(secrets@),
            forall|k: ConfigKey|
                #[trigger] merged@.get(k) == prefer(secrets@.get(k), self@.get(k)),
    {
        let mut merged = ConfigTable::new();
        let keys = ConfigKey::all();
        let mut i: usize = 0;
        while i < 8
            invariant
                i <= 8,
                keys@ == key_order(),
                forall|j: int| 0 <= j < i ==> merged@.get(#[trigger] key_order()[j]) == prefer(secrets@.get(key_order()[j]), self@.get(key_order()[j])),
                forall|j: int| i <= j < 8 ==> merged@.get(#[trigger] key_order()[j]) is None,
            decreases 8 - i,
        {
            let k = keys[i];
            if secrets.get(k).is_some() {
                merged.set(k, clone_text(secrets.get(k)));
            } else {
                merged.set(k, clone_text(self.get(k)));
            }
            i += 1;
        }
        proof {
            let o = key_order();
            assert(merged@.get(o[0]) == prefer(secrets@.get(o[0]), self@.get(o[0])));
            assert(merged@.get(o[1]) == prefer(secrets@.get(o[1]), self@.get(o[1])));
            assert(merged@.get(o[2]) == prefer(secrets@.get(o[2]), self@.get(o[2])));
            assert(merged@.get(o[3]) == prefer(secrets@.get(o[3]), self@.get(o[3])));
            assert(merged@.get(o[4]) == prefer(secrets@.get(o[4]), self@.get(o[4])));
            assert(merged@.get(o[5]) == prefer(secrets@.get(o[5]), self@.get(o[5])));
            assert(merged@.get(o[6]) == prefer(secrets@.get(o[6]), self@.get(o[6])));
            assert(merged@.get(o[7]) == prefer(secrets@.get(o[7]), self@.get(o[7])));
            assert(merged@ == self@.overlaid(secrets@));
        }
        merged
    }
}

impl Clone for ConfigTable {
    fn clone(&self) -> (copy: ConfigTable)
        ensures
            copy@ == self@,
    {
        ConfigTable {
            sync_path: clone_text(&self.sync_path),
            sync_backend: clone_text(&self.sync_backend),
            webdav_url: clone_text(&self.webdav_url),
            webdav_username: clone_text(&self.webdav_username),
            webdav_password: clone_text(&self.webdav_password),
            cloud_url: clone_text(&self.cloud_url),
            cloud_token: clone_text(&self.cloud_token),
            external_calendars: clone_text(&self.external_calendars),
        }
    }
}

impl Default for ConfigTable {
    fn default() -> (table: ConfigTable)
        ensures
            table@ == ConfigView::empty(),
    {
        ConfigTable::new()
    }
}

/// Splitting a table by tier and merging the two parts gives the table back,
/// and each key has its value in exactly the part of its tier.
pub proof fn lemma_merge_of_split(table: ConfigView)
    ensures
        table.only(Tier::Public).overlaid(table.only(Tier::Secret)) == table,
        forall|k: ConfigKey|
            k.spec_tier() == Tier::Secret ==> (#[trigger] table.only(Tier::Public).get(k)) is None,
        forall|k: ConfigKey|
            k.spec_tier() == Tier::Public ==> (#[trigger] table.only(Tier::Secret).get(k)) is None,
{
}

} // verus!

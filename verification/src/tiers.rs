//! The two persisted tables of an installation: the public file holds the
//! keys of the public tier, the secrets file those of the secret tier. A
//! table without secrets has no secrets file.

use crate::codec::{decode, decode_table, encode, encode_table, lemma_decode_encode};
use crate::config::{lemma_merge_of_split, ConfigKey, ConfigTable, ConfigView, Tier};
use vstd::prelude::*;

verus! {

/// What is to be on disk for a table.
#[derive(Debug, PartialEq, Eq)]
pub struct ConfigFiles {
    /// The text of the public file, always written.
    pub public: String,
    /// The text of the secrets file; `None` says that the file is to be
    /// deleted if it exists.
    pub secrets: Option<String>,
}

/// The text of the public file of `table`.
pub open spec fn public_text(table: ConfigView) -> Seq<char> {
    encode(table.only(Tier::Public))
}

/// The text of the secrets file of `table`, or `None` where the table has no
/// secret value and the file is to be absent.
pub open spec fn secrets_text(table: ConfigView) -> Option<Seq<char>> {
    if table.only(Tier::Secret).is_empty() {
        None
    } else {
        Some(encode(table.only(Tier::Secret)))
    }
}

/// The table that a file denotes; a file that is absent or unreadable
/// denotes the empty table.
pub open spec fn decode_file(text: Option<Seq<char>>) -> ConfigView {
    match text {
        Some(t) => decode(t),
        None => ConfigView::empty(),
    }
}

/// The table that the two files denote together: every value of the secrets
/// file, and the values of the public file for the keys that the secrets
/// file has no value for.
pub open spec fn loaded(public: Option<Seq<char>>, secrets: Option<Seq<char>>) -> ConfigView {
    decode_file(public).overlaid(decode_file(secrets))
}

/// The view of an optional string slice.
pub open spec fn slice_text(text: Option<&str>) -> Option<Seq<char>> {
    match text {
        Some(t) => Some(t@),
        None => None,
    }
}

/// Splits `table` by tier and writes each part: the public part always, the
/// secret part only where a secret key has a value.
pub fn render_files(table: &ConfigTable) -> (files: ConfigFiles)
    ensures
        files.public@ == public_text(table@),
        match files.secrets {
            Some(text) => secrets_text(table@) == Some(text@),
            None => secrets_text(table@) is None,
        },
{
    let (public, secrets) = table.split();
    let public_file = encode_table(&public);
    let secrets_file = if secrets.is_empty() {
        None
    } else {
        Some(encode_table(&secrets))
    };
    ConfigFiles { public: public_file, secrets: secrets_file }
}

/// Reads the table of an installation from the text of its public file and,
/// where there is one, of its secrets file. A value in the secrets file
/// wins over one in the public file.
pub fn load_files(public: Option<&str>, secrets: Option<&str>) -> (table: ConfigTable)
    ensures
        table@ == loaded(slice_text(public), slice_text(secrets)),
{
    let base = match public {
        Some(text) => decode_table(text),
        None => ConfigTable::new(),
    };
    match secrets {
        Some(text) => {
            let over = decode_table(text);
            base.merge(&over)
        },
        None => {
            let over = ConfigTable::new();
            base.merge(&over)
        },
    }
}

/// A part of a table without line feeds has none either.
proof fn lemma_only_single_line(table: ConfigView, tier: Tier)
    requires
        table.single_line(),
    ensures
        table.only(tier).single_line(),
{
    let part = table.only(tier);
    assert forall|k: ConfigKey| (#[trigger] part.get(k)) matches Some(v) ==> !v.contains('\n') by {
        assert(part.get(k) is Some ==> part.get(k) == table.get(k));
    }
}

/// A table in which no key has a value is the empty table.
proof fn lemma_empty_part(part: ConfigView)
    requires
        part.is_empty(),
    ensures
        part == ConfigView::empty(),
{
    assert(part.get(ConfigKey::SyncPath) is None);
    assert(part.get(ConfigKey::SyncBackend) is None);
    assert(part.get(ConfigKey::WebdavUrl) is None);
    assert(part.get(ConfigKey::WebdavUsername) is None);
    assert(part.get(ConfigKey::WebdavPassword) is None);
    assert(part.get(ConfigKey::CloudUrl) is None);
    assert(part.get(ConfigKey::CloudToken) is None);
    assert(part.get(ConfigKey::ExternalCalendars) is None);
}

/// Writing a table and reading the files back gives the table, for every
/// table none of whose values holds a line feed. The public file gives no
/// secret key a value, the secrets file gives no public key a value, and
/// there is no secrets file exactly when no secret key has a value.
pub proof fn lemma_files_round_trip(table: ConfigView)
    requires
        table.single_line(),
    ensures
        loaded(Some(public_text(table)), secrets_text(table)) == table,
        forall|k: ConfigKey|
            k.spec_tier() == Tier::Secret ==> (#[trigger] decode(public_text(table)).get(k))
                is None,
        forall|k: ConfigKey|
            k.spec_tier() == Tier::Public ==> (#[trigger] decode_file(secrets_text(table)).get(
                k,
            )) is None,
        secrets_text(table) is None <==> (forall|k: ConfigKey|
            k.spec_tier() == Tier::Secret ==> (#[trigger] table.get(k)) is None),
{
    let public = table.only(Tier::Public);
    let secret = table.only(Tier::Secret);
    lemma_only_single_line(table, Tier::Public);
    lemma_only_single_line(table, Tier::Secret);
    lemma_decode_encode(public);
    lemma_decode_encode(secret);
    lemma_merge_of_split(table);
    if secret.is_empty() {
        lemma_empty_part(secret);
        assert forall|k: ConfigKey| k.spec_tier() == Tier::Secret implies (#[trigger] table.get(
            k,
        )) is None by {
            assert(secret.get(k) is None);
        }
    } else {
        let k = choose|k: ConfigKey| !((#[trigger] secret.get(k)) is None);
        assert(k.spec_tier() == Tier::Secret);
        assert(table.get(k) is Some);
    }
    if forall|k: ConfigKey| k.spec_tier() == Tier::Secret ==> (#[trigger] table.get(k)) is None {
        assert forall|k: ConfigKey| (#[trigger] secret.get(k)) is None by {
            if k.spec_tier() == Tier::Secret {
                assert(table.get(k) is None);
            }
        }
    }
    assert forall|k: ConfigKey| k.spec_tier() == Tier::Public implies (#[trigger] decode_file(
        secrets_text(table),
    ).get(k)) is None by {
        assert(secret.get(k) is None);
    }
}

} // verus!

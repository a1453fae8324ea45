//! The one-time migration from the files of earlier versions. It runs at
//! startup, before anything else touches the canonical paths, and does
//! nothing once the canonical files exist.
//!
//! The caller makes sure that the canonical directories exist, reads the
//! old configuration, looks which files exist, and asks `plan_migration`
//! what to write.

use crate::codec::{encode, encode_table};
use crate::config::{clone_text, text_of, ConfigKey, ConfigTable, ConfigView};
use vstd::prelude::*;

verus! {

/// What the configuration file of earlier versions said. A file that is
/// missing or malformed says nothing.
#[derive(Debug, PartialEq, Eq)]
pub struct LegacyConfig {
    /// A document file at a place of the user's choosing.
    pub data_file_path: Option<String>,
    /// The sync folder.
    pub sync_path: Option<String>,
}

/// Which files exist when the migration starts.
#[derive(Clone, Copy, Debug, PartialEq, Eq)]
pub struct Probe {
    /// The canonical configuration file.
    pub config_exists: bool,
    /// The canonical document file.
    pub data_exists: bool,
    /// The file that the old configuration names as its document file;
    /// ignored where it names none.
    pub custom_data_exists: bool,
    /// A document file beside the canonical configuration file.
    pub config_dir_data_exists: bool,
    /// The document file in the data directory of earlier versions.
    pub legacy_data_exists: bool,
}

/// Where an old document is found.
#[derive(Debug, PartialEq, Eq)]
pub enum DataSource {
    /// At the path that the old configuration names.
    Custom(String),
    /// Beside the canonical configuration file.
    ConfigDir,
    /// In the data directory of earlier versions.
    LegacyDataDir,
}

/// What becomes of the canonical document file.
#[derive(Debug, PartialEq, Eq)]
pub enum DataSeed {
    /// It exists and stays as it is.
    Keep,
    /// It is a byte-for-byte copy of the file at the source.
    CopyFrom(DataSource),
    /// It is the document of a new installation.
    WriteSkeleton,
}

/// What the migration writes.
#[derive(Debug, PartialEq, Eq)]
pub struct MigrationPlan {
    /// The text of the canonical configuration file, where it is to be
    /// created; `None` where it exists and stays as it is.
    pub config: Option<String>,
    /// What becomes of the canonical document file. It is written after the
    /// configuration file, and not at all where that write fails.
    pub data: DataSeed,
}

/// The mathematical content of a `DataSource`.
pub enum SourceView {
    Custom(Seq<char>),
    ConfigDir,
    LegacyDataDir,
}

/// The mathematical content of a `DataSeed`.
pub enum SeedView {
    Keep,
    CopyFrom(SourceView),
    WriteSkeleton,
}

impl View for DataSeed {
    type V = SeedView;

    open spec fn view(&self) -> SeedView {
        match self {
            DataSeed::Keep => SeedView::Keep,
            DataSeed::CopyFrom(DataSource::Custom(path)) => SeedView::CopyFrom(
                SourceView::Custom(path@),
            ),
            DataSeed::CopyFrom(DataSource::ConfigDir) => SeedView::CopyFrom(SourceView::ConfigDir),
            DataSeed::CopyFrom(DataSource::LegacyDataDir) => SeedView::CopyFrom(
                SourceView::LegacyDataDir,
            ),
            DataSeed::WriteSkeleton => SeedView::WriteSkeleton,
        }
    }
}

/// The table that a new configuration file is seeded with: the old sync
/// folder, where there was one, and nothing else.
pub open spec fn seed_table(sync_path: Option<Seq<char>>) -> ConfigView {
    ConfigView::empty().set(ConfigKey::SyncPath, sync_path)
}

/// The text of the configuration file that the migration creates, or
/// `None` where the file exists.
pub open spec fn config_seed(sync_path: Option<Seq<char>>, probe: Probe) -> Option<Seq<char>> {
    if probe.config_exists {
        None
    } else {
        Some(encode(seed_table(sync_path)))
    }
}

/// What becomes of the document file: it stays where it exists; else it is
/// copied from the first source that exists, in the order custom path,
/// configuration directory, old data directory; else it is a new skeleton.
pub open spec fn data_seed(data_file_path: Option<Seq<char>>, probe: Probe) -> SeedView {
    if probe.data_exists {
        SeedView::Keep
    } else if data_file_path is Some && probe.custom_data_exists {
        SeedView::CopyFrom(SourceView::Custom(data_file_path->0))
    } else if probe.config_dir_data_exists {
        SeedView::CopyFrom(SourceView::ConfigDir)
    } else if probe.legacy_data_exists {
        SeedView::CopyFrom(SourceView::LegacyDataDir)
    } else {
        SeedView::WriteSkeleton
    }
}

/// What is found when the migration is run again after its plan has been
/// carried out: both canonical files exist.
pub open spec fn after_migration(probe: Probe) -> Probe {
    Probe { config_exists: true, data_exists: true, ..probe }
}

/// The migration is idempotent: once the canonical files exist, whatever
/// else exists and whatever the old configuration says, it writes nothing.
pub proof fn lemma_migration_idempotent(
    sync_path: Option<Seq<char>>,
    data_file_path: Option<Seq<char>>,
    probe: Probe,
)
    ensures
        config_seed(sync_path, after_migration(probe)) is None,
        data_seed(data_file_path, after_migration(probe)) == SeedView::Keep,
{
}

/// From an installation that has nothing but an old configuration and an
/// old document, the migration creates both canonical files: the
/// configuration with the old sync folder, the document as a copy of the
/// old one.
pub proof fn lemma_migration_from_legacy(
    sync_path: Option<Seq<char>>,
    data_file_path: Option<Seq<char>>,
    probe: Probe,
)
    requires
        !probe.config_exists,
        !probe.data_exists,
        (data_file_path is Some && probe.custom_data_exists) || probe.config_dir_data_exists
            || probe.legacy_data_exists,
    ensures
        config_seed(sync_path, probe) == Some(encode(seed_table(sync_path))),
        data_seed(data_file_path, probe) is CopyFrom,
{
}

/// Decides what the migration writes. The configuration file is created
/// only where it is missing, seeded with the old sync folder. The document
/// file is created only where it is missing: as a copy of the first old
/// document that exists, and as a new skeleton where none does.
pub fn plan_migration(legacy: &LegacyConfig, probe: Probe) -> (plan: MigrationPlan)
    ensures
        text_of(plan.config) == config_seed(text_of(legacy.sync_path), probe),
        plan.data@ == data_seed(text_of(legacy.data_file_path), probe),
{
    let config = if probe.config_exists {
        None
    } else {
        let mut table = ConfigTable::new();
        table.set(ConfigKey::SyncPath, clone_text(&legacy.sync_path));
        Some(encode_table(&table))
    };
    let data = if probe.data_exists {
        DataSeed::Keep
    } else {
        match &legacy.data_file_path {
            Some(path) if probe.custom_data_exists => DataSeed::CopyFrom(
                DataSource::Custom(path.clone()),
            ),
            _ => if probe.config_dir_data_exists {
                DataSeed::CopyFrom(DataSource::ConfigDir)
            } else if probe.legacy_data_exists {
                DataSeed::CopyFrom(DataSource::LegacyDataDir)
            } else {
                DataSeed::WriteSkeleton
            },
        }
    };
    MigrationPlan { config, data }
}

} // verus!

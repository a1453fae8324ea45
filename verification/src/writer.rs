//! The atomic file writer, as a plan: the steps that put new content at a
//! path so that a reader finds the old content or the new, never a part of
//! either, and so that the old content survives as a backup.
//!
//! The caller performs the steps in order and reports each outcome to
//! `after_action`. Where the platform's rename cannot replace a file, the
//! target is removed just before the rename; between those two steps the
//! path holds nothing. This gap is a limit of such platforms and is stated
//! in the laws below, not hidden.

use crate::error::StoreError;
use crate::paths::{backup_path, backup_suffix, lemma_siblings_differ, temp_path, temp_suffix};
use vstd::prelude::*;

verus! {

/// One step of a write.
#[derive(Debug, PartialEq, Eq)]
pub enum FileAction {
    /// Create the directory that holds `of`, and its parents, if missing.
    EnsureParentDir { of: String },
    /// Copy `from` to `to`. A failure of this step is ignored.
    Backup { from: String, to: String },
    /// Write `content` to `path`, flush, and sync to disk before closing.
    WriteDurable { path: String, content: String },
    /// Delete `path`.
    Remove { path: String },
    /// Rename `from` to `to`.
    Rename { from: String, to: String },
}

/// The mathematical content of a `FileAction`.
pub enum ActionView {
    EnsureParentDir { of: Seq<char> },
    Backup { from: Seq<char>, to: Seq<char> },
    WriteDurable { path: Seq<char>, content: Seq<char> },
    Remove { path: Seq<char> },
    Rename { from: Seq<char>, to: Seq<char> },
}

impl View for FileAction {
    type V = ActionView;

    open spec fn view(&self) -> ActionView {
        match self {
            FileAction::EnsureParentDir { of } => ActionView::EnsureParentDir { of: of@ },
            FileAction::Backup { from, to } => ActionView::Backup { from: from@, to: to@ },
            FileAction::WriteDurable { path, content } => ActionView::WriteDurable {
                path: path@,
                content: content@,
            },
            FileAction::Remove { path } => ActionView::Remove { path: path@ },
            FileAction::Rename { from, to } => ActionView::Rename { from: from@, to: to@ },
        }
    }
}

/// The views of the actions in `plan`, in order.
pub open spec fn action_views(plan: Seq<FileAction>) -> Seq<ActionView> {
    plan.map_values(|a: FileAction| a@)
}

/// The steps that write `content` to `path`: make sure the directory is
/// there; copy an existing target to its backup; stage the content in the
/// temporary sibling; where the rename cannot replace a file, remove an
/// existing target; rename the staged file onto the target.
pub open spec fn write_plan(
    path: Seq<char>,
    content: Seq<char>,
    target_exists: bool,
    rename_replaces: bool,
) -> Seq<ActionView> {
    let temp = path + temp_suffix();
    seq![ActionView::EnsureParentDir { of: path }] + (if target_exists {
        seq![ActionView::Backup { from: path, to: path + backup_suffix() }]
    } else {
        Seq::empty()
    }) + seq![ActionView::WriteDurable { path: temp, content }] + (if target_exists
        && !rename_replaces {
        seq![ActionView::Remove { path }]
    } else {
        Seq::empty()
    }) + seq![ActionView::Rename { from: temp, to: path }]
}

/// The files of a directory tree, each path with its content.
pub type Files = Map<Seq<char>, Seq<char>>;

/// The files after `action` has been performed. Every step succeeds, but for
/// the backup copy, which succeeds where `backup_ok` says so and otherwise
/// fails and changes nothing.
pub open spec fn perform(action: ActionView, files: Files, backup_ok: bool) -> Files {
    match action {
        ActionView::EnsureParentDir { .. } => files,
        ActionView::Backup { from, to } => if backup_ok && files.contains_key(from) {
            files.insert(to, files[from])
        } else {
            files
        },
        ActionView::WriteDurable { path, content } => files.insert(path, content),
        ActionView::Remove { path } => files.remove(path),
        ActionView::Rename { from, to } => if files.contains_key(from) {
            files.remove(from).insert(to, files[from])
        } else {
            files
        },
    }
}

/// The files after all of `actions` have been performed in order.
pub open spec fn perform_all(actions: Seq<ActionView>, files: Files, backup_ok: bool) -> Files
    decreases actions.len(),
{
    if actions.len() == 0 {
        files
    } else {
        perform_all(actions.skip(1), perform(actions[0], files, backup_ok), backup_ok)
    }
}

/// The files after `content` has been written to `path` by the plan.
pub open spec fn written(
    files: Files,
    path: Seq<char>,
    content: Seq<char>,
    rename_replaces: bool,
    backup_ok: bool,
) -> Files {
    perform_all(
        write_plan(path, content, files.contains_key(path), rename_replaces),
        files,
        backup_ok,
    )
}

/// What a reader may find at `path` while `content` is being written over
/// `before`: what was there before, or all of `content`; and, only where
/// `gap` allows it, nothing.
pub open spec fn whole(
    files: Files,
    before: Files,
    path: Seq<char>,
    content: Seq<char>,
    gap: bool,
) -> bool {
    ||| files.contains_key(path) && files[path] == content
    ||| files.contains_key(path) && before.contains_key(path) && files[path] == before[path]
    ||| !files.contains_key(path) && (gap || !before.contains_key(path))
}

/// `whole` holds now and after each of `actions`.
pub open spec fn whole_throughout(
    actions: Seq<ActionView>,
    files: Files,
    before: Files,
    path: Seq<char>,
    content: Seq<char>,
    gap: bool,
    backup_ok: bool,
) -> bool
    decreases actions.len(),
{
    whole(files, before, path, content, gap) && (actions.len() > 0 ==> whole_throughout(
        actions.skip(1),
        perform(actions[0], files, backup_ok),
        before,
        path,
        content,
        gap,
        backup_ok,
    ))
}

/// The plan, written out for each case.
proof fn lemma_plan_shape(
    path: Seq<char>,
    content: Seq<char>,
    target_exists: bool,
    rename_replaces: bool,
)
    ensures
        ({
            let temp = path + temp_suffix();
            let backup = path + backup_suffix();
            let dir = ActionView::EnsureParentDir { of: path };
            let copy = ActionView::Backup { from: path, to: backup };
            let stage = ActionView::WriteDurable { path: temp, content };
            let remove = ActionView::Remove { path };
            let rename = ActionView::Rename { from: temp, to: path };
            write_plan(path, content, target_exists, rename_replaces) == if !target_exists {
                seq![dir, stage, rename]
            } else if rename_replaces {
                seq![dir, copy, stage, rename]
            } else {
                seq![dir, copy, stage, remove, rename]
            }
        }),
{
    let temp = path + temp_suffix();
    let backup = path + backup_suffix();
    let dir = ActionView::EnsureParentDir { of: path };
    let copy = ActionView::Backup { from: path, to: backup };
    let stage = ActionView::WriteDurable { path: temp, content };
    let remove = ActionView::Remove { path };
    let rename = ActionView::Rename { from: temp, to: path };
    let plan = write_plan(path, content, target_exists, rename_replaces);
    if !target_exists {
        assert(plan =~= seq![dir, stage, rename]);
    } else if rename_replaces {
        assert(plan =~= seq![dir, copy, stage, rename]);
    } else {
        assert(plan =~= seq![dir, copy, stage, remove, rename]);
    }
}

/// After a write, the path holds the new content, whether or not the
/// backup copy succeeded. Where it succeeded, the backup holds what the path
/// held before; where it failed, the backup is as it was. No staging file is
/// left, and no other file has changed.
pub proof fn lemma_write_outcome(
    files: Files,
    path: Seq<char>,
    content: Seq<char>,
    rename_replaces: bool,
    backup_ok: bool,
)
    ensures
        ({
            let after = written(files, path, content, rename_replaces, backup_ok);
            let backup = path + backup_suffix();
            let temp = path + temp_suffix();
            &&& after.contains_key(path) && after[path] == content
            &&& files.contains_key(path) && backup_ok ==> after.contains_key(backup)
                && after[backup] == files[path]
            &&& !files.contains_key(path) || !backup_ok ==> (after.contains_key(backup)
                == files.contains_key(backup) && (files.contains_key(backup) ==> after[backup]
                == files[backup]))
            &&& !after.contains_key(temp)
            &&& forall|other: Seq<char>|
                other != path && other != backup && other != temp ==> (after.contains_key(other)
                    == files.contains_key(other) && (files.contains_key(other) ==> after[other]
                    == files[other]))
        }),
{
    lemma_siblings_differ(path);
    lemma_plan_shape(path, content, files.contains_key(path), rename_replaces);
    reveal_with_fuel(perform_all, 6);
}

/// Writing one content and then another to the same path leaves the second
/// at the path and, where the backup copy of the second write succeeds, the
/// first in the backup.
pub proof fn lemma_second_write_keeps_first(
    files: Files,
    path: Seq<char>,
    first: Seq<char>,
    second: Seq<char>,
    rename_replaces: bool,
    first_backup_ok: bool,
)
    ensures
        ({
            let once = written(files, path, first, rename_replaces, first_backup_ok);
            let twice = written(once, path, second, rename_replaces, true);
            &&& twice.contains_key(path) && twice[path] == second
            &&& twice.contains_key(path + backup_suffix()) && twice[path + backup_suffix()]
                == first
        }),
{
    lemma_write_outcome(files, path, first, rename_replaces, first_backup_ok);
    lemma_write_outcome(
        written(files, path, first, rename_replaces, first_backup_ok),
        path,
        second,
        rename_replaces,
        true,
    );
}

/// At every point of a write, the path holds what it held before or all of
/// the new content, whether or not the backup copy succeeds. A write that
/// stops at a step that failed leaves the files at one of these points.
/// Where the rename cannot replace a file, there is one more state: after
/// the old target is removed and before the staged file is renamed, the
/// path holds nothing.
pub proof fn lemma_write_is_atomic(
    files: Files,
    path: Seq<char>,
    content: Seq<char>,
    rename_replaces: bool,
    backup_ok: bool,
)
    ensures
        whole_throughout(
            write_plan(path, content, files.contains_key(path), rename_replaces),
            files,
            files,
            path,
            content,
            !rename_replaces,
            backup_ok,
        ),
{
    lemma_siblings_differ(path);
    lemma_plan_shape(path, content, files.contains_key(path), rename_replaces);
    reveal_with_fuel(whole_throughout, 6);
}

impl FileAction {
    /// Whether a failure of this step is ignored: true of the backup copy only.
    pub fn is_advisory(&self) -> (advisory: bool)
        ensures
            advisory == (self@ is Backup),
    {
        match self {
            FileAction::Backup { .. } => true,
            _ => false,
        }
    }
}

/// The steps that write `content` to `path`. `target_exists` says whether a
/// file is at `path` now; `rename_replaces` says whether the platform's
/// rename replaces an existing file.
pub fn plan_write(path: &str, content: &str, target_exists: bool, rename_replaces: bool) -> (plan:
    Vec<FileAction>)
    ensures
        action_views(plan@) == write_plan(path@, content@, target_exists, rename_replaces),
{
    let mut plan: Vec<FileAction> = Vec::new();
    plan.push(FileAction::EnsureParentDir { of: path.to_owned() });
    if target_exists {
        plan.push(FileAction::Backup { from: path.to_owned(), to: backup_path(path) });
    }
    plan.push(FileAction::WriteDurable { path: temp_path(path), content: content.to_owned() });
    if target_exists && !rename_replaces {
        plan.push(FileAction::Remove { path: path.to_owned() });
    }
    plan.push(FileAction::Rename { from: temp_path(path), to: path.to_owned() });
    proof {
        lemma_plan_shape(path@, content@, target_exists, rename_replaces);
        assert(action_views(plan@) =~= write_plan(path@, content@, target_exists, rename_replaces));
    }
    plan
}

/// What a write does after one of its steps: it goes on after a step that
/// succeeded and after a backup that failed, and it stops with `Io`,
/// carrying the platform's description, after any other failure.
pub fn after_action(action: &FileAction, outcome: Result<(), String>) -> (r: Result<(), StoreError>)
    ensures
        match outcome {
            Ok(_) => r is Ok,
            Err(description) => if action@ is Backup {
                r is Ok
            } else {
                r is Err && r->Err_0@ == crate::error::ErrorView::Io(description@)
            },
        },
{
    match outcome {
        Ok(_) => Ok(()),
        Err(description) => if action.is_advisory() {
            Ok(())
        } else {
            Err(StoreError::Io(description))
        },
    }
}

} // verus!

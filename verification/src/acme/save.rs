//! The steps by which a certificate and its key are written, so that a
//! save either leaves both files of the new version whole or leaves
//! nothing of the new version.
//!
//! The caller performs the action of each step on the disk and reports
//! whether it succeeded; `next_step` tells what comes next. A step that
//! fails before anything of the new version is written ends the save at
//! once: the files of the prior version are not removed.

use vstd::prelude::*;

verus! {

/// A step of a save. Each step but the last three names the action that
/// the caller performs.
#[derive(Debug, Clone, Copy, PartialEq, Eq, Structural)]
pub enum SaveStep {
    /// Create the certificate directory, if it is not there.
    CreateDir,
    /// Rename the certificate file to its backup path, if it is there.
    BackupCert,
    /// Rename the key file to its backup path, if it is there.
    BackupKey,
    /// Write the certificate file.
    WriteCert,
    /// Write the key file.
    WriteKey,
    /// Restrict the key file to its owner (mode 0600), where the host has
    /// such modes.
    RestrictKey,
    /// Remove the certificate file, if it is there; a write has failed.
    RemoveCert,
    /// Remove the key file, if it is there; a write has failed.
    RemoveKey,
    /// The save succeeded.
    Saved,
    /// The save failed, and left nothing of the new version behind.
    Failed,
    /// The save failed, and what it left of the new version could not be
    /// removed.
    Broken,
}

/// How a file stands on the disk.
#[derive(Debug, Clone, Copy, PartialEq, Eq, Structural)]
pub enum FileState {
    Absent,
    /// The file of the prior version, as it stood before the save
    Prior,
    /// Something of the new version, but not the whole file
    Partial,
    /// The file of the new version, whole
    Whole,
}

/// Whether a file holds nothing of the new version: it is absent, or it is
/// the file of the prior version.
pub open spec fn untouched(f: FileState) -> bool {
    f == FileState::Absent || f == FileState::Prior
}

/// The files as they stand before a save: each is absent or of the prior
/// version.
pub open spec fn files_before(cert_there: bool, key_there: bool) -> Files {
    Files {
        cert: if cert_there {
            FileState::Prior
        } else {
            FileState::Absent
        },
        key: if key_there {
            FileState::Prior
        } else {
            FileState::Absent
        },
    }
}

/// The two files of a domain.
#[derive(Debug, Clone, Copy, PartialEq, Eq, Structural)]
pub struct Files {
    pub cert: FileState,
    pub key: FileState,
}

/// The step that follows `step`, given whether its action succeeded. A
/// failure before the first write ends the save; a failure from the first
/// write on leads to the removal of both files.
pub open spec fn step_after(step: SaveStep, ok: bool) -> SaveStep {
    match step {
        SaveStep::CreateDir => if ok {
            SaveStep::BackupCert
        } else {
            SaveStep::Failed
        },
        SaveStep::BackupCert => if ok {
            SaveStep::BackupKey
        } else {
            SaveStep::Failed
        },
        SaveStep::BackupKey => if ok {
            SaveStep::WriteCert
        } else {
            SaveStep::Failed
        },
        SaveStep::WriteCert => if ok {
            SaveStep::WriteKey
        } else {
            SaveStep::RemoveCert
        },
        SaveStep::WriteKey => if ok {
            SaveStep::RestrictKey
        } else {
            SaveStep::RemoveCert
        },
        SaveStep::RestrictKey => if ok {
            SaveStep::Saved
        } else {
            SaveStep::RemoveCert
        },
        SaveStep::RemoveCert => if ok {
            SaveStep::RemoveKey
        } else {
            SaveStep::Broken
        },
        SaveStep::RemoveKey => if ok {
            SaveStep::Failed
        } else {
            SaveStep::Broken
        },
        SaveStep::Saved => SaveStep::Saved,
        SaveStep::Failed => SaveStep::Failed,
        SaveStep::Broken => SaveStep::Broken,
    }
}

/// What a failed write leaves of the file it was to write.
#[derive(Debug, Clone, Copy, PartialEq, Eq, Structural)]
pub enum Residue {
    Nothing,
    /// A part of the file
    Part,
    /// All of the file
    All,
}

/// How a file that was absent stands after a failed write.
pub open spec fn left_of(residue: Residue) -> FileState {
    match residue {
        Residue::Nothing => FileState::Absent,
        Residue::Part => FileState::Partial,
        Residue::All => FileState::Whole,
    }
}

/// The files after the action of `step`. A rename or a removal that
/// succeeds leaves the file absent; a write that succeeds leaves it whole,
/// and one that fails leaves it as `residue` tells; an action that fails
/// otherwise changes nothing.
pub open spec fn files_after(files: Files, step: SaveStep, ok: bool, residue: Residue) -> Files {
    match step {
        SaveStep::BackupCert | SaveStep::RemoveCert => if ok {
            Files { cert: FileState::Absent, ..files }
        } else {
            files
        },
        SaveStep::BackupKey | SaveStep::RemoveKey => if ok {
            Files { key: FileState::Absent, ..files }
        } else {
            files
        },
        SaveStep::WriteCert => if ok {
            Files { cert: FileState::Whole, ..files }
        } else {
            Files { cert: left_of(residue), ..files }
        },
        SaveStep::WriteKey => if ok {
            Files { key: FileState::Whole, ..files }
        } else {
            Files { key: left_of(residue), ..files }
        },
        _ => files,
    }
}

/// What holds of the files before the action of a step, in a save that
/// started with `CreateDir` on files of the prior version. The removals
/// are reached only behind the backups, so that they never remove a file
/// of the prior version.
pub open spec fn files_at(step: SaveStep, files: Files) -> bool {
    match step {
        SaveStep::CreateDir => untouched(files.cert) && untouched(files.key),
        SaveStep::BackupCert => untouched(files.cert) && untouched(files.key),
        SaveStep::BackupKey => files.cert == FileState::Absent && untouched(files.key),
        SaveStep::WriteCert => files.cert == FileState::Absent && files.key == FileState::Absent,
        SaveStep::WriteKey => files.cert == FileState::Whole && files.key == FileState::Absent,
        SaveStep::RestrictKey => files.cert == FileState::Whole && files.key == FileState::Whole,
        SaveStep::RemoveCert => files.cert != FileState::Prior && files.key != FileState::Prior,
        SaveStep::RemoveKey => files.cert == FileState::Absent && files.key != FileState::Prior,
        SaveStep::Saved => files.cert == FileState::Whole && files.key == FileState::Whole,
        SaveStep::Failed => untouched(files.cert) && untouched(files.key),
        SaveStep::Broken => files.cert != FileState::Prior && files.key != FileState::Prior,
    }
}

/// Where a save stands after the reports in `events`, each with the
/// residue of a failed write.
pub open spec fn run(step: SaveStep, files: Files, events: Seq<(bool, Residue)>) -> (
    SaveStep,
    Files,
)
    decreases events.len(),
{
    if events.len() == 0 {
        (step, files)
    } else {
        run(
            step_after(step, events[0].0),
            files_after(files, step, events[0].0, events[0].1),
            events.skip(1),
        )
    }
}

/// One step keeps what holds of the files.
pub proof fn lemma_step_keeps_files(step: SaveStep, files: Files, ok: bool, residue: Residue)
    requires
        files_at(step, files),
    ensures
        files_at(step_after(step, ok), files_after(files, step, ok, residue)),
{
}

/// A save is whole or leaves nothing: whatever stood on the disk and
/// whatever succeeds or fails, a save that ends as `Saved` leaves both
/// files of the new version whole, and one that ends as `Failed` leaves
/// nothing of the new version: each file is absent, or is the file of the
/// prior version. No removal ever meets a file of the prior version.
pub proof fn lemma_save_is_whole_or_nothing(
    cert_there: bool,
    key_there: bool,
    events: Seq<(bool, Residue)>,
)
    ensures
        ({
            let (end, left) = run(
                SaveStep::CreateDir,
                files_before(cert_there, key_there),
                events,
            );
            &&& end == SaveStep::Saved ==> left.cert == FileState::Whole && left.key
                == FileState::Whole
            &&& end == SaveStep::Failed ==> untouched(left.cert) && untouched(left.key)
            &&& end == SaveStep::RemoveCert || end == SaveStep::RemoveKey ==> left.cert
                != FileState::Prior && left.key != FileState::Prior
        }),
{
    lemma_run_keeps_files(SaveStep::CreateDir, files_before(cert_there, key_there), events);
}

proof fn lemma_run_keeps_files(step: SaveStep, files: Files, events: Seq<(bool, Residue)>)
    requires
        files_at(step, files),
    ensures
        files_at(run(step, files, events).0, run(step, files, events).1),
    decreases events.len(),
{
    if events.len() > 0 {
        lemma_step_keeps_files(step, files, events[0].0, events[0].1);
        lemma_run_keeps_files(
            step_after(step, events[0].0),
            files_after(files, step, events[0].0, events[0].1),
            events.skip(1),
        );
    }
}

/// The step in which a save starts.
pub fn first_step() -> (r: SaveStep)
    ensures
        r == SaveStep::CreateDir,
{
    SaveStep::CreateDir
}

/// The step that follows `step`, given whether its action succeeded.
pub fn next_step(step: SaveStep, ok: bool) -> (r: SaveStep)
    ensures
        r == step_after(step, ok),
{
    match step {
        SaveStep::CreateDir => if ok {
            SaveStep::BackupCert
        } else {
            SaveStep::Failed
        },
        SaveStep::BackupCert => if ok {
            SaveStep::BackupKey
        } else {
            SaveStep::Failed
        },
        SaveStep::BackupKey => if ok {
            SaveStep::WriteCert
        } else {
            SaveStep::Failed
        },
        SaveStep::WriteCert => if ok {
            SaveStep::WriteKey
        } else {
            SaveStep::RemoveCert
        },
        SaveStep::WriteKey => if ok {
            SaveStep::RestrictKey
        } else {
            SaveStep::RemoveCert
        },
        SaveStep::RestrictKey => if ok {
            SaveStep::Saved
        } else {
            SaveStep::RemoveCert
        },
        SaveStep::RemoveCert => if ok {
            SaveStep::RemoveKey
        } else {
            SaveStep::Broken
        },
        SaveStep::RemoveKey => if ok {
            SaveStep::Failed
        } else {
            SaveStep::Broken
        },
        SaveStep::Saved => SaveStep::Saved,
        SaveStep::Failed => SaveStep::Failed,
        SaveStep::Broken => SaveStep::Broken,
    }
}

/// Whether a save has ended.
pub fn is_final(step: SaveStep) -> (b: bool)
    ensures
        b == (step == SaveStep::Saved || step == SaveStep::Failed || step == SaveStep::Broken),
{
    match step {
        SaveStep::Saved => true,
        SaveStep::Failed => true,
        SaveStep::Broken => true,
        _ => false,
    }
}

} // verus!

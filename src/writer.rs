use vstd::prelude::*;

verus! {

/// A phase of replacing a file's bytes through a temporary file staged in the
/// same directory.
#[derive(PartialEq, Eq, Structural, Clone, Copy, Debug)]
pub enum WritePhase {
    /// Find the directory that holds the target.
    ResolveParent,
    /// Create the temporary file in that directory.
    CreateTemp,
    /// Copy the target's permission bits, when the target exists.
    CopyPermissions,
    /// Write all the bytes to the temporary file.
    WriteData,
    /// Force the temporary file to stable storage.
    Sync,
    /// Rename the temporary file over the target.
    Commit,
}

/// What the writer does after a phase.
#[derive(PartialEq, Eq, Structural, Clone, Copy, Debug)]
pub enum WriteNext {
    /// Go on with this phase.
    Run(WritePhase),
    /// The target holds the new bytes.
    Done,
    /// Stop, remove the temporary file if any, and report this phase.
    Fail(WritePhase),
}

/// The phase after `p` when each phase succeeds.
pub open spec fn following(p: WritePhase) -> WriteNext {
    match p {
        WritePhase::ResolveParent => WriteNext::Run(WritePhase::CreateTemp),
        WritePhase::CreateTemp => WriteNext::Run(WritePhase::CopyPermissions),
        WritePhase::CopyPermissions => WriteNext::Run(WritePhase::WriteData),
        WritePhase::WriteData => WriteNext::Run(WritePhase::Sync),
        WritePhase::Sync => WriteNext::Run(WritePhase::Commit),
        WritePhase::Commit => WriteNext::Done,
    }
}

/// The decision `after_phase` makes, as a value.
pub open spec fn after_phase_spec(p: WritePhase, ok: bool) -> WriteNext {
    if ok || p == WritePhase::CopyPermissions {
        following(p)
    } else {
        WriteNext::Fail(p)
    }
}

/// Decides what follows phase `p`, which succeeded when `ok` holds: a failed
/// permission copy is passed over, any other failure stops the write with
/// its phase.
pub fn after_phase(p: WritePhase, ok: bool) -> (r: WriteNext)
    ensures
        r == after_phase_spec(p, ok),
{
    if !ok && p != WritePhase::CopyPermissions {
        return WriteNext::Fail(p);
    }
    match p {
        WritePhase::ResolveParent => WriteNext::Run(WritePhase::CreateTemp),
        WritePhase::CreateTemp => WriteNext::Run(WritePhase::CopyPermissions),
        WritePhase::CopyPermissions => WriteNext::Run(WritePhase::WriteData),
        WritePhase::WriteData => WriteNext::Run(WritePhase::Sync),
        WritePhase::Sync => WriteNext::Run(WritePhase::Commit),
        WritePhase::Commit => WriteNext::Done,
    }
}

/// Whether a failure in phase `p` happened while staging, before the target
/// could be touched, rather than at the commit.
pub fn is_staging_phase(p: WritePhase) -> (r: bool)
    ensures
        r == (p != WritePhase::Commit),
{
    p != WritePhase::Commit
}

/// The commit is reached only from a sync that succeeded, and the write is
/// done only after a commit that succeeded: the target never sees unsynced or
/// partial bytes.
pub proof fn lemma_commit_only_after_sync(p: WritePhase, ok: bool)
    ensures
        after_phase_spec(p, ok) == WriteNext::Run(WritePhase::Commit) ==> p == WritePhase::Sync && ok,
        after_phase_spec(p, ok) == WriteNext::Done ==> p == WritePhase::Commit && ok,
{
}

} // verus!

//! The error and outcome vocabulary shared by the whole crate.

use vstd::prelude::*;

verus! {

/// One of the three manifest fields the tool consumes.
#[derive(Clone, Copy, Debug, PartialEq, Eq, Structural)]
pub enum Field {
    AppId,
    GameName,
    InstallDir,
}

/// The two copy phases of one synchronization item; the manifest file is
/// copied before the payload directory.
#[derive(Clone, Copy, Debug, PartialEq, Eq, Structural)]
pub enum CopyPhase {
    ManifestFile,
    Payload,
}

/// Everything that can go wrong while listing or synchronizing.
#[derive(Clone, Copy, Debug, PartialEq, Eq, Structural)]
pub enum SteamError {
    /// The running platform is none of the known families, so no default
    /// library root exists (a startup-time configuration error).
    ConfigurationError,
    /// A root that should be enumerable is not a readable directory.
    PathError,
    /// A manifest file could not be read.
    ManifestUnreadable,
    /// A manifest was read but the given field did not match.
    FieldMissing(Field),
    /// The install directory named by a manifest is absent.
    InstallDirMissing,
    /// A copy source root has no `common/` payload directory.
    CommonFolderMissing,
    /// The `common/` payload directory of a copy destination could not be
    /// created.
    DirectoryCreateFailed,
    /// A copy failed in the given phase.
    CopyFailed(CopyPhase),
    /// A batch was started with no identifiers at all.
    NothingToSync,
}

/// The per-identifier result of one backup/restore item: a failed item is
/// recorded and the batch moves on to the next identifier.
#[derive(Clone, Copy, Debug, PartialEq, Eq, Structural)]
pub enum ItemOutcome {
    Success,
    Failed(SteamError),
}

impl ItemOutcome {
    /// Whether the item counts as a failure in the batch summary.
    pub open spec fn spec_is_failure(&self) -> bool {
        *self !== ItemOutcome::Success
    }

    #[verifier::when_used_as_spec(spec_is_failure)]
    pub fn is_failure(&self) -> (r: bool)
        ensures
            r == self.spec_is_failure(),
    {
        match self {
            ItemOutcome::Success => false,
            ItemOutcome::Failed(_) => true,
        }
    }
}

} // verus!

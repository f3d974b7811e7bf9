//! The backup/restore engine for one batch of application identifiers.
//!
//! Backup and restore are the same operation with source and destination
//! roots swapped: per identifier, load the manifest from the source root,
//! resolve the install directory under the source's payload directory,
//! copy the manifest file into the destination root, then copy the install
//! directory into the destination's payload directory — recording one
//! outcome per identifier and moving on to the next whatever happened.
//!
//! The engine performs no I/O. [`ItemSync`] is a state machine: each call
//! of [`ItemSync::step`] consumes the answer to the previous action and
//! returns the next [`SyncAction`] for the caller to perform (read a file,
//! probe a directory, copy), until the action is [`SyncAction::Done`] with
//! the item's outcome.

use vstd::prelude::*;

use crate::errors::{CopyPhase, Field, ItemOutcome, SteamError};
use crate::manifest::{extract_field, AppManifest};
use crate::steamapps::{common_path_spec, manifest_path_spec, path_join, SteamApps};

verus! {

/// What the engine asks its caller to do next for one item.
pub enum SyncAction {
    /// Read the file at `path` fully; answer with `ManifestRead`.
    ReadManifest { path: String },
    /// Probe whether `path` is a directory; answer with `InstallDirChecked`.
    CheckInstallDir { path: String },
    /// Copy the file `from` into the directory `to_dir`, overwriting;
    /// answer with `ManifestCopied`.
    CopyManifestFile { from: String, to_dir: String },
    /// Recursively copy the directory `from` into the directory `to_dir`,
    /// overwriting and reporting progress; answer with `PayloadCopied`.
    CopyPayloadDir { from: String, to_dir: String },
    /// The item is finished with the given outcome; nothing is expected.
    Done { outcome: ItemOutcome },
}

/// The caller's answer to the previous action: what the read, the probe or
/// the copy came to.
pub enum SyncEvent {
    /// The manifest text, or `None` when the read failed in any way.
    ManifestRead { contents: Option<String> },
    /// Whether the install directory exists as a directory.
    InstallDirChecked { is_dir: bool },
    /// Whether the manifest file copy succeeded.
    ManifestCopied { ok: bool },
    /// Whether the payload directory copy succeeded.
    PayloadCopied { ok: bool },
}

/// Which answer one item is waiting for.
#[derive(Clone, Copy, Debug, PartialEq, Eq, Structural)]
pub enum SyncPhase {
    AwaitManifest,
    AwaitDirCheck,
    AwaitManifestCopy,
    AwaitPayloadCopy,
    Complete,
}

/// The install directory of a manifest text resolved under a source root:
/// the root's payload directory joined with the manifest's `installdir`
/// value. Meaningful only when that field is present.
pub open spec fn resolved_install_dir(source_root: Seq<char>, text: Seq<char>) -> Seq<char> {
    match extract_field(text, "installdir"@) {
        Some(d) => path_join(common_path_spec(source_root), d),
        None => Seq::empty(),
    }
}

/// The synchronization of one application identifier from a source root to
/// a destination root.
pub struct ItemSync {
    /// The root the manifest and payload are read from.
    pub source: SteamApps,
    /// The root they are copied into.
    pub dest: SteamApps,
    /// The identifier being synchronized.
    pub appid: String,
    /// Which answer the item waits for.
    pub phase: SyncPhase,
    /// The resolved install directory, once the manifest has been read.
    pub install_dir: Option<String>,
    /// The recorded outcome, once the item is complete.
    pub outcome: Option<ItemOutcome>,
}

impl ItemSync {
    /// The state invariant: once the manifest has been read successfully
    /// the install directory is resolved, and exactly the complete item
    /// carries an outcome.
    pub open spec fn wf(self) -> bool {
        &&& ((self.phase == SyncPhase::AwaitDirCheck || self.phase == SyncPhase::AwaitManifestCopy
            || self.phase == SyncPhase::AwaitPayloadCopy) ==> self.install_dir is Some)
        &&& (self.outcome is Some <==> self.phase == SyncPhase::Complete)
    }

    /// Whether `event` answers the action the item is waiting for.
    pub open spec fn expects(self, event: SyncEvent) -> bool {
        match (self.phase, event) {
            (SyncPhase::AwaitManifest, SyncEvent::ManifestRead { .. }) => true,
            (SyncPhase::AwaitDirCheck, SyncEvent::InstallDirChecked { .. }) => true,
            (SyncPhase::AwaitManifestCopy, SyncEvent::ManifestCopied { .. }) => true,
            (SyncPhase::AwaitPayloadCopy, SyncEvent::PayloadCopied { .. }) => true,
            _ => false,
        }
    }

    /// The item ends now with `outcome`, which the action announces.
    pub open spec fn completes_with(post: ItemSync, action: SyncAction, outcome: ItemOutcome) -> bool {
        &&& post.phase == SyncPhase::Complete
        &&& post.outcome == Some(outcome)
        &&& action == (SyncAction::Done { outcome })
    }

    /// The full transition relation of [`ItemSync::step`]: what the state
    /// after the event and the returned action must be, given the state
    /// before and the event.
    pub open spec fn step_post(pre: ItemSync, post: ItemSync, event: SyncEvent, action: SyncAction) -> bool {
        &&& post.source == pre.source
        &&& post.dest == pre.dest
        &&& post.appid == pre.appid
        &&& match (pre.phase, event) {
            (SyncPhase::AwaitManifest, SyncEvent::ManifestRead { contents }) => match contents {
                None => Self::completes_with(
                    post,
                    action,
                    ItemOutcome::Failed(SteamError::ManifestUnreadable),
                ),
                Some(text) => if extract_field(text@, "installdir"@) is None {
                    Self::completes_with(
                        post,
                        action,
                        ItemOutcome::Failed(SteamError::FieldMissing(Field::InstallDir)),
                    )
                } else {
                    &&& post.phase == SyncPhase::AwaitDirCheck
                    &&& post.outcome is None
                    &&& post.install_dir matches Some(d) && d@ == resolved_install_dir(
                        pre.source.location@,
                        text@,
                    )
                    &&& action matches SyncAction::CheckInstallDir { path } && path@
                        == resolved_install_dir(pre.source.location@, text@)
                },
            },
            (SyncPhase::AwaitDirCheck, SyncEvent::InstallDirChecked { is_dir }) => if !is_dir {
                Self::completes_with(
                    post,
                    action,
                    ItemOutcome::Failed(SteamError::InstallDirMissing),
                )
            } else {
                &&& post.phase == SyncPhase::AwaitManifestCopy
                &&& post.outcome is None
                &&& post.install_dir == pre.install_dir
                &&& action matches SyncAction::CopyManifestFile { from, to_dir } && from@
                    == manifest_path_spec(pre.source.location@, pre.appid@) && to_dir@
                    == pre.dest.location@
            },
            (SyncPhase::AwaitManifestCopy, SyncEvent::ManifestCopied { ok }) => if !ok {
                Self::completes_with(
                    post,
                    action,
                    ItemOutcome::Failed(SteamError::CopyFailed(CopyPhase::ManifestFile)),
                )
            } else {
                &&& post.phase == SyncPhase::AwaitPayloadCopy
                &&& post.outcome is None
                &&& post.install_dir == pre.install_dir
                &&& action matches SyncAction::CopyPayloadDir { from, to_dir } && (
                pre.install_dir matches Some(d) && from@ == d@) && to_dir@ == common_path_spec(
                    pre.dest.location@,
                )
            },
            (SyncPhase::AwaitPayloadCopy, SyncEvent::PayloadCopied { ok }) => Self::completes_with(
                post,
                action,
                if ok {
                    ItemOutcome::Success
                } else {
                    ItemOutcome::Failed(SteamError::CopyFailed(CopyPhase::Payload))
                },
            ),
            _ => false,
        }
    }

    /// Begin one item: the first action reads the manifest at the source
    /// root's conventional metadata path for the identifier.
    pub fn start(source: SteamApps, dest: SteamApps, appid: String) -> (r: (ItemSync, SyncAction))
        ensures
            r.0.wf(),
            r.0.source == source,
            r.0.dest == dest,
            r.0.appid == appid,
            r.0.phase == SyncPhase::AwaitManifest,
            r.1 matches SyncAction::ReadManifest { path } && path@ == manifest_path_spec(
                source.location@,
                appid@,
            ),
    {
        let path = source.get_manifest_path(appid.as_str());
        let item = ItemSync {
            source,
            dest,
            appid,
            phase: SyncPhase::AwaitManifest,
            install_dir: None,
            outcome: None,
        };
        (item, SyncAction::ReadManifest { path })
    }

    /// Record the outcome and finish the item.
    fn finish(&mut self, outcome: ItemOutcome) -> (action: SyncAction)
        ensures
            final(self).source == old(self).source,
            final(self).dest == old(self).dest,
            final(self).appid == old(self).appid,
            final(self).install_dir == old(self).install_dir,
            Self::completes_with(*final(self), action, outcome),
    {
        self.phase = SyncPhase::Complete;
        self.outcome = Some(outcome);
        SyncAction::Done { outcome }
    }

    /// Consume the answer to the previous action and return the next one.
    /// The transition relation [`ItemSync::step_post`] pins down the whole
    /// behaviour: which outcome each failure yields, and which paths each
    /// copy uses.
    pub fn step(&mut self, event: SyncEvent) -> (action: SyncAction)
        requires
            old(self).wf(),
            old(self).expects(event),
        ensures
            final(self).wf(),
            Self::step_post(*old(self), *final(self), event, action),
    {
        match event {
            SyncEvent::ManifestRead { contents } => match contents {
                None => self.finish(ItemOutcome::Failed(SteamError::ManifestUnreadable)),
                Some(text) => {
                    let m = AppManifest::new(text);
                    let common = self.source.common_path();
                    match m.get_installdir(common.as_str()) {
                        None => self.finish(
                            ItemOutcome::Failed(SteamError::FieldMissing(Field::InstallDir)),
                        ),
                        Some(dir) => {
                            let path = dir.clone();
                            self.install_dir = Some(dir);
                            self.phase = SyncPhase::AwaitDirCheck;
                            SyncAction::CheckInstallDir { path }
                        },
                    }
                },
            },
            SyncEvent::InstallDirChecked { is_dir } => {
                if !is_dir {
                    self.finish(ItemOutcome::Failed(SteamError::InstallDirMissing))
                } else {
                    let from = self.source.get_manifest_path(self.appid.as_str());
                    let to_dir = self.dest.location.clone();
                    self.phase = SyncPhase::AwaitManifestCopy;
                    SyncAction::CopyManifestFile { from, to_dir }
                }
            },
            SyncEvent::ManifestCopied { ok } => {
                if !ok {
                    self.finish(ItemOutcome::Failed(SteamError::CopyFailed(CopyPhase::ManifestFile)))
                } else {
                    let from = match &self.install_dir {
                        Some(d) => d.clone(),
                        None => vstd::pervasive::unreached(),
                    };
                    let to_dir = self.dest.common_path();
                    self.phase = SyncPhase::AwaitPayloadCopy;
                    SyncAction::CopyPayloadDir { from, to_dir }
                }
            },
            SyncEvent::PayloadCopied { ok } => {
                if ok {
                    self.finish(ItemOutcome::Success)
                } else {
                    self.finish(ItemOutcome::Failed(SteamError::CopyFailed(CopyPhase::Payload)))
                }
            },
        }
    }

    /// The recorded outcome of a complete item.
    pub fn outcome(&self) -> (r: Option<ItemOutcome>)
        ensures
            r == self.outcome,
    {
        match &self.outcome {
            Some(o) => Some(*o),
            None => None,
        }
    }
}

/// The batch preflight shared by backup and restore, checked in this
/// order: the source root must already have a payload directory (there is
/// nothing to copy from otherwise), the destination's payload directory
/// must exist or be created, and the identifier list must not be empty.
/// Any failure aborts the whole batch before any item runs.
pub fn batch_preflight(source_common_is_dir: bool, dest_common_available: bool, n_ids: usize) -> (r:
    Result<(), SteamError>)
    ensures
        r == if !source_common_is_dir {
            Err::<(), SteamError>(SteamError::CommonFolderMissing)
        } else if !dest_common_available {
            Err::<(), SteamError>(SteamError::DirectoryCreateFailed)
        } else if n_ids == 0 {
            Err::<(), SteamError>(SteamError::NothingToSync)
        } else {
            Ok::<(), SteamError>(())
        },
{
    if !source_common_is_dir {
        Err(SteamError::CommonFolderMissing)
    } else if !dest_common_available {
        Err(SteamError::DirectoryCreateFailed)
    } else if n_ids == 0 {
        Err(SteamError::NothingToSync)
    } else {
        Ok(())
    }
}

/// How many of the outcomes are failures.
pub open spec fn failure_count(outcomes: Seq<ItemOutcome>) -> int
    decreases outcomes.len(),
{
    if outcomes.len() == 0 {
        0
    } else {
        failure_count(outcomes.drop_last()) + if outcomes.last().spec_is_failure() {
            1int
        } else {
            0int
        }
    }
}

/// A batch counts zero failures exactly when every item succeeded, and
/// never counts more failures than items.
pub proof fn lemma_failure_count(outcomes: Seq<ItemOutcome>)
    ensures
        0 <= failure_count(outcomes) <= outcomes.len(),
        (failure_count(outcomes) == 0) <==> (forall|i: int|
            0 <= i < outcomes.len() ==> outcomes[i] == ItemOutcome::Success),
    decreases outcomes.len(),
{
    if outcomes.len() > 0 {
        lemma_failure_count(outcomes.drop_last());
        assert(forall|i: int|
            0 <= i < outcomes.len() - 1 ==> outcomes[i] == #[trigger] outcomes.drop_last()[i]);
        if failure_count(outcomes) == 0 {
            assert(failure_count(outcomes.drop_last()) == 0);
            assert(!outcomes.last().spec_is_failure());
            assert forall|i: int| 0 <= i < outcomes.len() implies outcomes[i]
                == ItemOutcome::Success by {
                if i < outcomes.len() - 1 {
                    assert(outcomes[i] == outcomes.drop_last()[i]);
                }
            }
        }
    }
}

/// The tally of one finished batch: how many items failed out of how many.
/// The caller's exit status distinguishes zero failures from any other
/// count.
pub struct BatchSummary {
    pub total: usize,
    pub failures: usize,
}

/// Tally a finished batch's outcomes.
#[verifier::loop_isolation(false)]
pub fn batch_summary(outcomes: &Vec<ItemOutcome>) -> (r: BatchSummary)
    ensures
        r.total == outcomes.len(),
        r.failures == failure_count(outcomes@),
        (r.failures == 0) <==> (forall|i: int|
            0 <= i < outcomes@.len() ==> outcomes@[i] == ItemOutcome::Success),
{
    let mut failures: usize = 0;
    let mut i: usize = 0;
    proof {
        assert(outcomes@.subrange(0, 0) =~= Seq::<ItemOutcome>::empty());
    }
    while i < outcomes.len()
        invariant
            0 <= i <= outcomes@.len(),
            failures == failure_count(outcomes@.subrange(0, i as int)),
            failures <= i,
        decreases outcomes@.len() - i,
    {
        proof {
            assert(outcomes@.subrange(0, i + 1).drop_last() =~= outcomes@.subrange(0, i as int));
            assert(outcomes@.subrange(0, i + 1).last() == outcomes@[i as int]);
            lemma_failure_count(outcomes@.subrange(0, i + 1));
        }
        if outcomes[i].is_failure() {
            failures = failures + 1;
        }
        i += 1;
    }
    proof {
        assert(outcomes@.subrange(0, outcomes@.len() as int) =~= outcomes@);
        lemma_failure_count(outcomes@);
    }
    BatchSummary { total: outcomes.len(), failures }
}

} // verus!

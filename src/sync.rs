use vstd::prelude::*;

verus! {

/// Why an install or an update failed.
#[derive(Clone, Copy, PartialEq, Eq, Structural, Debug)]
pub enum ErrorKind {
    /// The update target is not a local repository.
    RepositoryNotFound,
    /// The repository has no `origin` remote.
    RemoteMissing,
    /// Cloning or fetching from the remote failed.
    NetworkOrTransport,
    /// A branch or reference was missing or could not be moved.
    ReferenceResolution,
}

/// A failure, with the message of the git implementation that reported it.
#[derive(Clone, Debug)]
pub struct SyncError {
    pub kind: ErrorKind,
    pub message: String,
}

/// How an install or an update ended.
#[derive(Clone, Debug)]
pub enum SyncOutcome {
    /// The local branch already held the fetched commit; nothing changed.
    UpToDate,
    /// The local branch was moved forward to the fetched commit.
    FastForwarded,
    /// A fresh clone was made.
    ClonedFresh,
    /// Local and remote histories diverged; nothing changed.
    Diverged,
    /// A step failed before anything changed on disk.
    Failed(SyncError),
}

/// The step an update has reached.
#[derive(Clone, Copy, PartialEq, Eq, Structural, Debug)]
pub enum UpdateStage {
    Opening,
    FindingRemote,
    ResolvingBranch,
    Fetching,
    Comparing,
    Advancing,
    Finished,
}

/// What the git implementation reports back after performing an action.
#[derive(Clone, Debug)]
pub enum GitEvent {
    /// The action was carried out.
    Succeeded,
    /// The local tip and the fetched commit were compared.
    Compared { fetched_in_local: bool, local_in_fetched: bool },
    /// The action failed, with the git implementation's message.
    Failed(String),
}

/// What the git implementation is asked to do next.
#[derive(Clone, Debug)]
pub enum GitAction {
    /// Open the repository at the update's path.
    OpenRepository,
    /// Look up the named remote.
    FindRemote { remote: String },
    /// Check that the remote has the branch.
    ResolveRemoteBranch { remote: String, branch: String },
    /// Fetch the branch from the remote into `FETCH_HEAD`.
    Fetch { remote: String, branch: String },
    /// Compare the current branch tip with `FETCH_HEAD`, each way round for ancestry.
    CompareTips,
    /// Move the branch to `FETCH_HEAD`, make it the head and force-checkout the working tree.
    FastForward { branch: String },
    /// The update is over.
    Finish(SyncOutcome),
}

/// The relationship of the local branch tip to the fetched commit.
#[derive(Clone, Copy, PartialEq, Eq, Structural, Debug)]
pub enum Analysis {
    UpToDate,
    FastForward,
    Diverged,
}

/// The remote an update fetches from.
pub open spec fn origin() -> Seq<char> {
    seq!['o', 'r', 'i', 'g', 'i', 'n']
}

/// The branch an update tracks. It is always `main`: when the remote has no branch of that
/// name, the update fails with a reference resolution error before anything is fetched.
pub open spec fn main_branch() -> Seq<char> {
    seq!['m', 'a', 'i', 'n']
}

pub open spec fn analysis_of(fetched_in_local: bool, local_in_fetched: bool) -> Analysis {
    if fetched_in_local {
        Analysis::UpToDate
    } else if local_in_fetched {
        Analysis::FastForward
    } else {
        Analysis::Diverged
    }
}

/// Decides what a comparison of the local tip with the fetched commit calls for.
pub fn analyze(fetched_in_local: bool, local_in_fetched: bool) -> (r: Analysis)
    ensures
        r == analysis_of(fetched_in_local, local_in_fetched),
{
    if fetched_in_local {
        Analysis::UpToDate
    } else if local_in_fetched {
        Analysis::FastForward
    } else {
        Analysis::Diverged
    }
}

/// The kind of failure that a failed action at `stage` stands for.
pub open spec fn failure_kind(stage: UpdateStage) -> ErrorKind {
    match stage {
        UpdateStage::Opening => ErrorKind::RepositoryNotFound,
        UpdateStage::FindingRemote => ErrorKind::RemoteMissing,
        UpdateStage::Fetching => ErrorKind::NetworkOrTransport,
        _ => ErrorKind::ReferenceResolution,
    }
}

/// The events the action of `stage` can report: a comparison while comparing, success
/// otherwise, or a failure.
pub open spec fn event_fits(stage: UpdateStage, e: GitEvent) -> bool {
    stage != UpdateStage::Finished && match e {
        GitEvent::Succeeded => stage != UpdateStage::Comparing,
        GitEvent::Compared { .. } => stage == UpdateStage::Comparing,
        GitEvent::Failed(_) => true,
    }
}

/// The stage that follows `stage` when its action reports `e`.
pub open spec fn next_stage(stage: UpdateStage, e: GitEvent) -> UpdateStage {
    match e {
        GitEvent::Failed(_) => UpdateStage::Finished,
        GitEvent::Compared { fetched_in_local, local_in_fetched } => {
            if analysis_of(fetched_in_local, local_in_fetched) == Analysis::FastForward {
                UpdateStage::Advancing
            } else {
                UpdateStage::Finished
            }
        },
        GitEvent::Succeeded => match stage {
            UpdateStage::Opening => UpdateStage::FindingRemote,
            UpdateStage::FindingRemote => UpdateStage::ResolvingBranch,
            UpdateStage::ResolvingBranch => UpdateStage::Fetching,
            UpdateStage::Fetching => UpdateStage::Comparing,
            _ => UpdateStage::Finished,
        },
    }
}

/// The action that follows `stage` when its action reports `e`.
pub open spec fn next_action(stage: UpdateStage, e: GitEvent, a: GitAction) -> bool {
    match e {
        GitEvent::Failed(m) => a == GitAction::Finish(
            SyncOutcome::Failed(SyncError { kind: failure_kind(stage), message: m }),
        ),
        GitEvent::Compared { fetched_in_local, local_in_fetched } => match analysis_of(
            fetched_in_local,
            local_in_fetched,
        ) {
            Analysis::UpToDate => a == GitAction::Finish(SyncOutcome::UpToDate),
            Analysis::Diverged => a == GitAction::Finish(SyncOutcome::Diverged),
            Analysis::FastForward => a matches GitAction::FastForward { branch } && branch@
                == main_branch(),
        },
        GitEvent::Succeeded => match stage {
            UpdateStage::Opening => a matches GitAction::FindRemote { remote } && remote@
                == origin(),
            UpdateStage::FindingRemote => a matches GitAction::ResolveRemoteBranch {
                remote,
                branch,
            } && remote@ == origin() && branch@ == main_branch(),
            UpdateStage::ResolvingBranch => a matches GitAction::Fetch { remote, branch } && remote@
                == origin() && branch@ == main_branch(),
            UpdateStage::Fetching => a == GitAction::CompareTips,
            _ => a == GitAction::Finish(SyncOutcome::FastForwarded),
        },
    }
}

/// Only fast-forwarding changes the local clone.
pub open spec fn mutates(a: GitAction) -> bool {
    a is FastForward
}

/// An update starts by opening the repository.
pub fn start_update() -> (r: (UpdateStage, GitAction))
    ensures
        r.0 == UpdateStage::Opening,
        r.1 == GitAction::OpenRepository,
{
    (UpdateStage::Opening, GitAction::OpenRepository)
}

/// Decides the next step of an update from the stage it is at and what its last action
/// reported. Any failure ends the update with that failure; a comparison ends it unless
/// the branch can be fast-forwarded.
pub fn step_update(stage: UpdateStage, event: GitEvent) -> (r: (UpdateStage, GitAction))
    requires
        event_fits(stage, event),
    ensures
        r.0 == next_stage(stage, event),
        next_action(stage, event, r.1),
        mutates(r.1) ==> stage == UpdateStage::Comparing,
        r.0 == UpdateStage::Finished <==> r.1 is Finish,
{
    proof {
        reveal_strlit("main");
        reveal_strlit("origin");
        assert("main"@ =~= main_branch());
        assert("origin"@ =~= origin());
    }
    match event {
        GitEvent::Failed(message) => {
            let kind = match stage {
                UpdateStage::Opening => ErrorKind::RepositoryNotFound,
                UpdateStage::FindingRemote => ErrorKind::RemoteMissing,
                UpdateStage::Fetching => ErrorKind::NetworkOrTransport,
                _ => ErrorKind::ReferenceResolution,
            };
            (
                UpdateStage::Finished,
                GitAction::Finish(SyncOutcome::Failed(SyncError { kind, message })),
            )
        },
        GitEvent::Compared { fetched_in_local, local_in_fetched } => {
            match analyze(fetched_in_local, local_in_fetched) {
                Analysis::UpToDate => (UpdateStage::Finished, GitAction::Finish(SyncOutcome::UpToDate)),
                Analysis::Diverged => (UpdateStage::Finished, GitAction::Finish(SyncOutcome::Diverged)),
                Analysis::FastForward => (
                    UpdateStage::Advancing,
                    GitAction::FastForward { branch: String::from_str("main") },
                ),
            }
        },
        GitEvent::Succeeded => match stage {
            UpdateStage::Opening => (
                UpdateStage::FindingRemote,
                GitAction::FindRemote { remote: String::from_str("origin") },
            ),
            UpdateStage::FindingRemote => (
                UpdateStage::ResolvingBranch,
                GitAction::ResolveRemoteBranch {
                    remote: String::from_str("origin"),
                    branch: String::from_str("main"),
                },
            ),
            UpdateStage::ResolvingBranch => (
                UpdateStage::Fetching,
                GitAction::Fetch {
                    remote: String::from_str("origin"),
                    branch: String::from_str("main"),
                },
            ),
            UpdateStage::Fetching => (UpdateStage::Comparing, GitAction::CompareTips),
            _ => (UpdateStage::Finished, GitAction::Finish(SyncOutcome::FastForwarded)),
        },
    }
}

/// A local clone as an update sees it.
pub struct CloneModel {
    /// The commits of the tracked branch, oldest first; the last one is its tip.
    pub history: Seq<int>,
    /// The commit whose files the working tree holds exactly, or `None` when it holds
    /// local edits.
    pub worktree: Option<int>,
}

/// The tip of history `a` is an ancestor of, or equal to, the tip of history `b`.
pub open spec fn is_ancestor(a: Seq<int>, b: Seq<int>) -> bool {
    a.len() <= b.len() && b.subrange(0, a.len() as int) == a
}

/// What comparing the clone's tip with the fetched history `remote` reports.
pub open spec fn comparison(local: CloneModel, remote: Seq<int>) -> GitEvent {
    GitEvent::Compared {
        fetched_in_local: is_ancestor(remote, local.history),
        local_in_fetched: is_ancestor(local.history, remote),
    }
}

/// The clone after action `a`, with `remote` fetched: fast-forwarding moves the branch to
/// the fetched tip and force-checks it out; every other action leaves the clone alone.
pub open spec fn apply(local: CloneModel, a: GitAction, remote: Seq<int>) -> CloneModel {
    if mutates(a) {
        CloneModel { history: remote, worktree: Some(remote.last()) }
    } else {
        local
    }
}

/// Nothing but a comparison that allows a fast-forward leads to an action that changes
/// the clone; in particular no failure does.
pub proof fn lemma_only_fast_forward_mutates(stage: UpdateStage, e: GitEvent, a: GitAction)
    requires
        next_action(stage, e, a),
        mutates(a),
    ensures
        e matches GitEvent::Compared { fetched_in_local, local_in_fetched } && analysis_of(
            fetched_in_local,
            local_in_fetched,
        ) == Analysis::FastForward,
{
}

/// Updating a clone that already holds the fetched commit reports `UpToDate` and changes
/// nothing, so a second update reports `UpToDate` again.
pub proof fn lemma_update_idempotent(
    local: CloneModel,
    remote: Seq<int>,
    first: GitAction,
    second: GitAction,
)
    requires
        is_ancestor(remote, local.history),
        next_action(UpdateStage::Comparing, comparison(local, remote), first),
        next_action(
            UpdateStage::Comparing,
            comparison(apply(local, first, remote), remote),
            second,
        ),
    ensures
        next_stage(UpdateStage::Comparing, comparison(local, remote)) == UpdateStage::Finished,
        first == GitAction::Finish(SyncOutcome::UpToDate),
        apply(local, first, remote) == local,
        second == GitAction::Finish(SyncOutcome::UpToDate),
        apply(apply(local, first, remote), second, remote) == local,
{
}

/// A clone behind its remote by one or more commits, with no commits of its own, is
/// fast-forwarded: its branch tip becomes the remote tip and its working tree holds exactly
/// that commit, local edits or not. The update then reports `FastForwarded`.
pub proof fn lemma_update_fast_forwards(
    local: CloneModel,
    remote: Seq<int>,
    advance: GitAction,
    finish: GitAction,
)
    requires
        is_ancestor(local.history, remote),
        local.history.len() < remote.len(),
        next_action(UpdateStage::Comparing, comparison(local, remote), advance),
        next_action(UpdateStage::Advancing, GitEvent::Succeeded, finish),
    ensures
        next_stage(UpdateStage::Comparing, comparison(local, remote)) == UpdateStage::Advancing,
        advance matches GitAction::FastForward { branch } && branch@ == main_branch(),
        apply(local, advance, remote).history == remote,
        apply(local, advance, remote).history.last() == remote.last(),
        apply(local, advance, remote).worktree == Some(remote.last()),
        next_stage(UpdateStage::Advancing, GitEvent::Succeeded) == UpdateStage::Finished,
        finish == GitAction::Finish(SyncOutcome::FastForwarded),
{
}

/// A clone whose history and the remote's have diverged is left exactly as it was, and
/// the update does not fail.
pub proof fn lemma_update_diverged_no_op(local: CloneModel, remote: Seq<int>, a: GitAction)
    requires
        !is_ancestor(local.history, remote),
        !is_ancestor(remote, local.history),
        next_action(UpdateStage::Comparing, comparison(local, remote), a),
    ensures
        next_stage(UpdateStage::Comparing, comparison(local, remote)) == UpdateStage::Finished,
        a == GitAction::Finish(SyncOutcome::Diverged),
        apply(local, a, remote) == local,
{
}

} // verus!

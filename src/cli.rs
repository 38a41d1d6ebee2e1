use vstd::prelude::*;

use crate::log::{error, info, log_line, success, LogKind};
use crate::sync::{ErrorKind, SyncError, SyncOutcome};
use crate::url::Repository;

verus! {

/// What installing a template asks of the git implementation, and the line announcing it.
pub struct CloneRequest {
    /// The remote to clone.
    pub url: String,
    /// The directory under the data root to clone into.
    pub directory: String,
    /// The line to show before cloning.
    pub notice: String,
}

/// The directory under the data root that installing `repo` creates: one named after
/// the repository.
pub open spec fn install_dir(repo: Repository) -> Seq<char> {
    repo.name@
}

/// Plans the install of `repo`: a clone of its URL into a directory named after it.
pub fn install(repo: &Repository) -> (r: CloneRequest)
    ensures
        r.url@ == repo.url@,
        r.directory@ == install_dir(*repo),
        r.notice@ == log_line(
            LogKind::Info,
            "install"@,
            "installing template "@ + repo.name@ + " by "@ + repo.username@,
        ),
{
    let mut message = String::from_str("installing template ");
    message.append(repo.name.as_str());
    message.append(" by ");
    message.append(repo.username.as_str());
    CloneRequest {
        url: repo.url.clone(),
        directory: repo.name.clone(),
        notice: info("install", message.as_str()),
    }
}

/// The outcome of a clone: a fresh clone, or the clone's failure as a transport error.
pub fn install_outcome(result: Result<(), String>) -> (r: SyncOutcome)
    ensures
        match result {
            Ok(()) => r == SyncOutcome::ClonedFresh,
            Err(m) => r == SyncOutcome::Failed(
                SyncError { kind: ErrorKind::NetworkOrTransport, message: m },
            ),
        },
{
    match result {
        Ok(()) => SyncOutcome::ClonedFresh,
        Err(message) => SyncOutcome::Failed(
            SyncError { kind: ErrorKind::NetworkOrTransport, message },
        ),
    }
}

/// The console line that reports `outcome` for `ctx`. A divergence gets none: the clone
/// is left as it was, silently.
pub open spec fn report_line(ctx: Seq<char>, outcome: SyncOutcome) -> Option<Seq<char>> {
    match outcome {
        SyncOutcome::UpToDate => Some(log_line(LogKind::Info, ctx, "up to date"@)),
        SyncOutcome::FastForwarded => Some(log_line(LogKind::Success, ctx, "updated"@)),
        SyncOutcome::ClonedFresh => Some(log_line(LogKind::Success, ctx, "installed"@)),
        SyncOutcome::Diverged => None,
        SyncOutcome::Failed(e) => Some(log_line(LogKind::Error, ctx, e.message@)),
    }
}

/// Builds the console line that reports `outcome` for `ctx`, if it gets one.
pub fn report(ctx: &str, outcome: &SyncOutcome) -> (r: Option<String>)
    ensures
        match r {
            Some(line) => report_line(ctx@, *outcome) == Some(line@),
            None => report_line(ctx@, *outcome) is None,
        },
{
    match outcome {
        SyncOutcome::UpToDate => Some(info(ctx, "up to date")),
        SyncOutcome::FastForwarded => Some(success(ctx, "updated")),
        SyncOutcome::ClonedFresh => Some(success(ctx, "installed")),
        SyncOutcome::Diverged => None,
        SyncOutcome::Failed(e) => Some(error(ctx, e.message.as_str())),
    }
}

/// An entry of the data root's listing.
pub struct DirEntry {
    pub name: String,
    pub is_dir: bool,
}

/// The names of the directories among `entries`, in listing order.
pub open spec fn directory_names(entries: Seq<DirEntry>) -> Seq<Seq<char>>
    decreases entries.len(),
{
    if entries.len() == 0 {
        seq![]
    } else {
        let rest = directory_names(entries.drop_last());
        if entries.last().is_dir {
            rest.push(entries.last().name@)
        } else {
            rest
        }
    }
}

pub open spec fn names_of(v: Seq<String>) -> Seq<Seq<char>> {
    v.map_values(|s: String| s@)
}

/// The repositories to update: the one named, or else every directory of the data root.
pub fn update(name: Option<&String>, entries: &Vec<DirEntry>) -> (r: Vec<String>)
    ensures
        match name {
            Some(n) => names_of(r@) == seq![n@],
            None => names_of(r@) == directory_names(entries@),
        },
{
    let mut targets: Vec<String> = Vec::new();
    match name {
        Some(n) => {
            targets.push(n.clone());
            assert(names_of(targets@) =~= seq![n@]);
        },
        None => {
            let mut i: usize = 0;
            while i < entries.len()
                invariant
                    i <= entries@.len(),
                    names_of(targets@) == directory_names(entries@.take(i as int)),
                decreases entries@.len() - i,
            {
                assert(entries@.take(i + 1).drop_last() =~= entries@.take(i as int));
                if entries[i].is_dir {
                    targets.push(entries[i].name.clone());
                }
                assert(names_of(targets@) =~= directory_names(entries@.take(i + 1)));
                i = i + 1;
            }
            assert(entries@.take(i as int) =~= entries@);
        },
    }
    targets
}

} // verus!

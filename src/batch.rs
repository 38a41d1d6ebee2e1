use vstd::prelude::*;

use crate::cli::{directory_names, install_dir, names_of, DirEntry};
use crate::sync::SyncOutcome;
use crate::url::Repository;

verus! {

/// A batch of updates: the repositories to update, and the outcome of each one attempted
/// so far.
pub struct BatchView {
    pub targets: Seq<Seq<char>>,
    pub results: Seq<(Seq<char>, SyncOutcome)>,
}

/// Results are recorded for a prefix of the targets, in order.
pub open spec fn batch_wf(v: BatchView) -> bool {
    &&& v.results.len() <= v.targets.len()
    &&& forall|i: int| 0 <= i < v.results.len() ==> (#[trigger] v.results[i]).0 == v.targets[i]
}

pub open spec fn batch_start(targets: Seq<Seq<char>>) -> BatchView {
    BatchView { targets, results: seq![] }
}

/// The batch after the next target's update ended with `outcome`, whatever it was.
pub open spec fn recorded(v: BatchView, outcome: SyncOutcome) -> BatchView {
    BatchView {
        targets: v.targets,
        results: v.results.push((v.targets[v.results.len() as int], outcome)),
    }
}

/// The batch after the updates of its next targets ended with `outcomes`, in order.
pub open spec fn replay(v: BatchView, outcomes: Seq<SyncOutcome>) -> BatchView
    decreases outcomes.len(),
{
    if outcomes.len() == 0 {
        v
    } else {
        recorded(replay(v, outcomes.drop_last()), outcomes.last())
    }
}

/// Updates of several repositories, one after another. A failed update is recorded like
/// any other outcome and the batch goes on with the next repository.
pub struct BatchUpdate {
    targets: Vec<String>,
    results: Vec<(String, SyncOutcome)>,
}

impl View for BatchUpdate {
    type V = BatchView;

    closed spec fn view(&self) -> BatchView {
        BatchView {
            targets: names_of(self.targets@),
            results: self.results@.map_values(|p: (String, SyncOutcome)| (p.0@, p.1)),
        }
    }
}

impl BatchUpdate {
    /// A batch over `targets`, none of them attempted yet.
    pub fn new(targets: Vec<String>) -> (r: BatchUpdate)
        ensures
            r@ == batch_start(names_of(targets@)),
            batch_wf(r@),
    {
        let r = BatchUpdate { targets, results: Vec::new() };
        assert(r@.results =~= Seq::<(Seq<char>, SyncOutcome)>::empty());
        r
    }

    /// Every target has been attempted.
    pub fn is_done(&self) -> (r: bool)
        requires
            batch_wf(self@),
        ensures
            r == (self@.results.len() == self@.targets.len()),
    {
        self.results.len() == self.targets.len()
    }

    /// The repository to update next, or `None` once every target has been attempted.
    pub fn next_target(&self) -> (r: Option<String>)
        requires
            batch_wf(self@),
        ensures
            r is None <==> self@.results.len() == self@.targets.len(),
            r matches Some(t) ==> t@ == self@.targets[self@.results.len() as int],
    {
        if self.results.len() < self.targets.len() {
            Some(self.targets[self.results.len()].clone())
        } else {
            None
        }
    }

    /// Records how the update of the next target ended.
    pub fn record(&mut self, outcome: SyncOutcome)
        requires
            batch_wf(old(self)@),
            old(self)@.results.len() < old(self)@.targets.len(),
        ensures
            final(self)@ == recorded(old(self)@, outcome),
            batch_wf(final(self)@),
    {
        let name = self.targets[self.results.len()].clone();
        self.results.push((name, outcome));
        assert(self@.results =~= old(self)@.results.push(
            (old(self)@.targets[old(self)@.results.len() as int], outcome),
        ));
    }

    /// The outcomes recorded so far, each with its repository's name.
    pub fn results(&self) -> (r: &Vec<(String, SyncOutcome)>)
        ensures
            r@.map_values(|p: (String, SyncOutcome)| (p.0@, p.1)) == self@.results,
    {
        &self.results
    }
}

/// However each update ends, failures included, a batch attempts its targets in order,
/// one after another, and records each one's own outcome: after as many outcomes as
/// targets, every target has been attempted once.
pub proof fn lemma_batch_attempts_every_target(
    targets: Seq<Seq<char>>,
    outcomes: Seq<SyncOutcome>,
)
    requires
        outcomes.len() <= targets.len(),
    ensures
        batch_wf(replay(batch_start(targets), outcomes)),
        replay(batch_start(targets), outcomes).targets == targets,
        replay(batch_start(targets), outcomes).results.len() == outcomes.len(),
        forall|i: int|
            0 <= i < outcomes.len() ==> #[trigger] replay(batch_start(targets), outcomes).results[i]
                == (targets[i], outcomes[i]),
    decreases outcomes.len(),
{
    if outcomes.len() > 0 {
        lemma_batch_attempts_every_target(targets, outcomes.drop_last());
    }
}

/// The directories that installing `repos` created.
pub open spec fn installed_dirs(repos: Seq<Repository>) -> Set<Seq<char>> {
    repos.map_values(|r: Repository| install_dir(r)).to_set()
}

proof fn lemma_directory_names_contains(entries: Seq<DirEntry>, x: Seq<char>)
    ensures
        directory_names(entries).contains(x) <==> exists|i: int|
            0 <= i < entries.len() && (#[trigger] entries[i]).is_dir && entries[i].name@ == x,
    decreases entries.len(),
{
    if entries.len() > 0 {
        let init = entries.drop_last();
        let n = entries.len() - 1;
        let dn = directory_names(entries);
        let di = directory_names(init);
        lemma_directory_names_contains(init, x);
        assert forall|j: int| 0 <= j < n implies #[trigger] init[j] == entries[j] by {}
        if dn.contains(x) {
            let k = choose|k: int| 0 <= k < dn.len() && dn[k] == x;
            if k < di.len() {
                assert(di[k] == x);
                assert(di.contains(x));
                let j = choose|j: int|
                    0 <= j < init.len() && (#[trigger] init[j]).is_dir && init[j].name@ == x;
                assert(entries[j] == init[j]);
            } else {
                assert(entries[n].is_dir && entries[n].name@ == x);
            }
        }
        if exists|i: int| 0 <= i < entries.len() && (#[trigger] entries[i]).is_dir && entries[i].name@ == x {
            let j = choose|j: int|
                0 <= j < entries.len() && (#[trigger] entries[j]).is_dir && entries[j].name@ == x;
            if j < n {
                assert(init[j] == entries[j]);
                assert(di.contains(x));
                let k = choose|k: int| 0 <= k < di.len() && di[k] == x;
                if entries.last().is_dir {
                    assert(dn[k] == di[k]);
                }
            } else {
                assert(dn[di.len() as int] == x);
            }
        }
    }
}

proof fn lemma_directory_names_distinct(entries: Seq<DirEntry>)
    requires
        forall|i: int, j: int|
            0 <= i < j < entries.len() ==> (#[trigger] entries[i]).name@ != (#[trigger] entries[j]).name@,
    ensures
        directory_names(entries).no_duplicates(),
    decreases entries.len(),
{
    if entries.len() > 0 {
        let init = entries.drop_last();
        let n = entries.len() - 1;
        assert forall|i: int, j: int|
            0 <= i < j < init.len() implies (#[trigger] init[i]).name@ != (#[trigger] init[j]).name@ by {
            assert(init[i] == entries[i] && init[j] == entries[j]);
        }
        lemma_directory_names_distinct(init);
        if entries.last().is_dir {
            let x = entries[n].name@;
            lemma_directory_names_contains(init, x);
            if directory_names(init).contains(x) {
                let j = choose|j: int|
                    0 <= j < init.len() && (#[trigger] init[j]).is_dir && init[j].name@ == x;
                assert(init[j] == entries[j]);
            }
            let di = directory_names(init);
            let dn = directory_names(entries);
            assert forall|i: int, j: int| 0 <= i < dn.len() && 0 <= j < dn.len() && i != j implies dn[i]
                != dn[j] by {
                if i < di.len() && j < di.len() {
                    assert(dn[i] == di[i] && dn[j] == di[j]);
                } else if i < di.len() {
                    assert(dn[i] == di[i]);
                } else {
                    assert(dn[j] == di[j]);
                }
            }
        }
    }
}

/// A batch update targets exactly the directories that installs created, each once, when
/// the data root lists each of them and no other directory (a listing names each entry
/// once).
pub proof fn lemma_batch_targets_installed(repos: Seq<Repository>, entries: Seq<DirEntry>)
    requires
        forall|i: int|
            0 <= i < entries.len() && (#[trigger] entries[i]).is_dir ==> installed_dirs(
                repos,
            ).contains(entries[i].name@),
        forall|d: Seq<char>|
            installed_dirs(repos).contains(d) ==> exists|i: int|
                0 <= i < entries.len() && (#[trigger] entries[i]).is_dir && entries[i].name@ == d,
        forall|i: int, j: int|
            0 <= i < j < entries.len() ==> (#[trigger] entries[i]).name@ != (#[trigger] entries[j]).name@,
    ensures
        directory_names(entries).to_set() == installed_dirs(repos),
        directory_names(entries).no_duplicates(),
{
    lemma_directory_names_distinct(entries);
    assert forall|d: Seq<char>|
        directory_names(entries).to_set().contains(d) <==> installed_dirs(repos).contains(d) by {
        lemma_directory_names_contains(entries, d);
    }
    assert(directory_names(entries).to_set() =~= installed_dirs(repos));
}

} // verus!

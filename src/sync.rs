//! The synchronization stage: a fetch with pruning for each repository of the
//! working set, and what a failed fetch does to the run.
use vstd::prelude::*;

use crate::reconcile::WorkingSet;

verus! {

/// The fetch that synchronizes one repository.
#[derive(Debug)]
pub struct FetchRequest {
    /// The remote fetched from.
    pub remote: String,
    /// The refspecs handed to the fetch; empty means the remote's own.
    pub refspecs: Vec<String>,
    /// Whether remote-tracking references gone upstream are removed.
    pub prune: bool,
}

/// The fetch made for every repository: from `origin`, with the remote's own
/// refspecs, pruning stale remote-tracking references.
pub fn fetch_request() -> (r: FetchRequest)
    ensures
        r.remote@ == "origin"@,
        r.refspecs@.len() == 0,
        r.prune,
{
    FetchRequest { remote: "origin".to_string(), refspecs: Vec::new(), prune: true }
}

/// How the fetch of one repository ended.
#[derive(Clone, Copy, Debug, PartialEq, Eq, Structural)]
pub enum FetchOutcome {
    /// The references were brought up to date.
    Fetched,
    /// The repository has no remote named `origin`.
    NotConfigured,
    /// The fetch could not complete.
    Failed,
}

/// What the run does after a fetch.
#[derive(Clone, Copy, Debug, PartialEq, Eq, Structural)]
pub enum Next {
    /// Go on with the next repository.
    Proceed,
    /// Stop the run with an error.
    Stop,
}

/// Proceed after a successful fetch, or after any fetch when told to continue.
pub open spec fn next_of(continue_on_fetch_error: bool, outcome: FetchOutcome) -> Next {
    if outcome == FetchOutcome::Fetched || continue_on_fetch_error {
        Next::Proceed
    } else {
        Next::Stop
    }
}

/// Decides what follows a fetch. A failed fetch, or a missing `origin`, stops the
/// run unless the run was told to continue on fetch errors.
pub fn after_fetch(continue_on_fetch_error: bool, outcome: FetchOutcome) -> (r: Next)
    ensures
        r == next_of(continue_on_fetch_error, outcome),
{
    match outcome {
        FetchOutcome::Fetched => Next::Proceed,
        _ => if continue_on_fetch_error {
            Next::Proceed
        } else {
            Next::Stop
        },
    }
}

/// The state of synchronization, as mathematics.
pub ghost struct SyncModel {
    /// Whether a failed fetch leaves the run going.
    pub continue_on_fetch_error: bool,
    /// The positions of the repositories fetched, in order.
    pub fetched: Seq<usize>,
    /// The positions of the repositories whose fetch failed, in order.
    pub failed: Seq<usize>,
    /// Whether a failed fetch stopped the run.
    pub stopped: bool,
}

/// Synchronization before any fetch.
pub open spec fn start_model(continue_on_fetch_error: bool) -> SyncModel {
    SyncModel { continue_on_fetch_error, fetched: seq![], failed: seq![], stopped: false }
}

/// The model after the fetch of repository `member` ended with `outcome`. Once the
/// run is stopped nothing changes.
pub open spec fn sync_apply(m: SyncModel, member: usize, outcome: FetchOutcome) -> SyncModel {
    if m.stopped {
        m
    } else if outcome == FetchOutcome::Fetched {
        SyncModel { fetched: m.fetched.push(member), ..m }
    } else {
        SyncModel {
            failed: m.failed.push(member),
            stopped: next_of(m.continue_on_fetch_error, outcome) == Next::Stop,
            ..m
        }
    }
}

/// The model after the fetches of `members`, in order, ended as `outcomes` says.
pub open spec fn sync_run(continue_on_fetch_error: bool, members: Seq<usize>, outcomes: Seq<FetchOutcome>) -> SyncModel
    decreases members.len(),
{
    if members.len() == 0 || outcomes.len() == 0 {
        start_model(continue_on_fetch_error)
    } else {
        sync_apply(
            sync_run(continue_on_fetch_error, members.drop_last(), outcomes.drop_last()),
            members.last(),
            outcomes.last(),
        )
    }
}

/// The fetches of the working set, recorded one outcome at a time.
pub struct Synchronizer {
    continue_on_fetch_error: bool,
    fetched: Vec<usize>,
    failed: Vec<usize>,
    stopped: bool,
}

impl View for Synchronizer {
    type V = SyncModel;

    closed spec fn view(&self) -> SyncModel {
        SyncModel {
            continue_on_fetch_error: self.continue_on_fetch_error,
            fetched: self.fetched@,
            failed: self.failed@,
            stopped: self.stopped,
        }
    }
}

impl Synchronizer {
    /// A synchronization before any fetch.
    pub fn new(continue_on_fetch_error: bool) -> (r: Synchronizer)
        ensures
            r@ == start_model(continue_on_fetch_error),
    {
        Synchronizer { continue_on_fetch_error, fetched: Vec::new(), failed: Vec::new(), stopped: false }
    }

    /// Records how the fetch of repository `member` ended and returns what the
    /// run does next.
    pub fn record(&mut self, member: usize, outcome: FetchOutcome) -> (r: Next)
        ensures
            final(self)@ == sync_apply(old(self)@, member, outcome),
            r == if old(self)@.stopped {
                Next::Stop
            } else {
                next_of(old(self)@.continue_on_fetch_error, outcome)
            },
    {
        if self.stopped {
            return Next::Stop;
        }
        let next = after_fetch(self.continue_on_fetch_error, outcome);
        match outcome {
            FetchOutcome::Fetched => self.fetched.push(member),
            _ => {
                self.failed.push(member);
                if next == Next::Stop {
                    self.stopped = true;
                }
            },
        }
        next
    }

    /// The positions of the repositories fetched.
    pub fn fetched(&self) -> (r: &Vec<usize>)
        ensures
            r@ == self@.fetched,
    {
        &self.fetched
    }

    /// The positions of the repositories whose fetch failed.
    pub fn failed(&self) -> (r: &Vec<usize>)
        ensures
            r@ == self@.failed,
    {
        &self.failed
    }

    /// Whether a failed fetch stopped the run.
    pub fn stopped(&self) -> (r: bool)
        ensures
            r == self@.stopped,
    {
        self.stopped
    }
}

/// Records the fetches of `members`, in order, as `outcomes` says they ended.
pub fn synchronize(continue_on_fetch_error: bool, members: &Vec<usize>, outcomes: &Vec<FetchOutcome>) -> (r: Synchronizer)
    requires
        members.len() == outcomes.len(),
    ensures
        r@ == sync_run(continue_on_fetch_error, members@, outcomes@),
{
    let mut s = Synchronizer::new(continue_on_fetch_error);
    let mut i: usize = 0;
    while i < members.len()
        invariant
            i <= members.len(),
            members.len() == outcomes.len(),
            s@ == sync_run(continue_on_fetch_error, members@.subrange(0, i as int), outcomes@.subrange(0, i as int)),
        decreases members.len() - i,
    {
        assert(members@.subrange(0, i + 1).drop_last() == members@.subrange(0, i as int));
        assert(outcomes@.subrange(0, i + 1).drop_last() == outcomes@.subrange(0, i as int));
        s.record(members[i], outcomes[i]);
        i += 1;
    }
    assert(members@.subrange(0, members.len() as int) == members@);
    assert(outcomes@.subrange(0, outcomes.len() as int) == outcomes@);
    s
}

/// Whether the whole run succeeded: no existing repository failed to open and no
/// failed fetch stopped the run. Failed clones do not count against it.
pub fn run_succeeded(working: &WorkingSet, sync: &Synchronizer) -> (r: bool)
    ensures
        r == (!working@.aborted && !sync@.stopped),
{
    !working.aborted() && !sync.stopped()
}

} // verus!

verus! {

/// Unless told to continue, the first failed fetch ends synchronization: the
/// repositories before it were fetched in working-set order, it alone is
/// reported as failed, and no later repository is fetched.
pub proof fn lemma_first_fetch_failure_stops(members: Seq<usize>, outcomes: Seq<FetchOutcome>, k: int)
    requires
        members.len() == outcomes.len(),
        0 <= k < members.len(),
        outcomes[k] != FetchOutcome::Fetched,
        forall|i: int| 0 <= i < k ==> #[trigger] outcomes[i] == FetchOutcome::Fetched,
    ensures
        sync_run(false, members, outcomes).stopped,
        sync_run(false, members, outcomes).fetched == members.subrange(0, k),
        sync_run(false, members, outcomes).failed == seq![members[k]],
    decreases members.len(),
{
    let (pm, po) = (members.drop_last(), outcomes.drop_last());
    if k < members.len() - 1 {
        assert(pm[k] == members[k] && po[k] == outcomes[k]);
        assert forall|i: int| 0 <= i < k implies #[trigger] po[i] == FetchOutcome::Fetched by {
            assert(po[i] == outcomes[i]);
        }
        lemma_first_fetch_failure_stops(pm, po, k);
        assert(pm.subrange(0, k) == members.subrange(0, k));
        assert(sync_run(false, members, outcomes) == sync_apply(sync_run(false, pm, po), members.last(), outcomes.last()));
    } else {
        lemma_all_fetched(pm, po);
        assert(pm == members.subrange(0, k));
    }
}

/// When every fetch succeeds, every member is fetched, in order.
pub proof fn lemma_all_fetched(members: Seq<usize>, outcomes: Seq<FetchOutcome>)
    requires
        members.len() == outcomes.len(),
        forall|i: int| 0 <= i < outcomes.len() ==> #[trigger] outcomes[i] == FetchOutcome::Fetched,
    ensures
        !sync_run(false, members, outcomes).stopped,
        !sync_run(false, members, outcomes).continue_on_fetch_error,
        sync_run(false, members, outcomes).fetched == members,
        sync_run(false, members, outcomes).failed == Seq::<usize>::empty(),
    decreases members.len(),
{
    if members.len() > 0 {
        let (pm, po) = (members.drop_last(), outcomes.drop_last());
        assert forall|i: int| 0 <= i < po.len() implies #[trigger] po[i] == FetchOutcome::Fetched by {
            assert(po[i] == outcomes[i]);
        }
        lemma_all_fetched(pm, po);
        assert(pm.push(members.last()) == members);
    }
}

} // verus!

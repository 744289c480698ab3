//! Clone-or-reuse decisions and the working set they build.
use vstd::prelude::*;

use crate::discovery::{contains_git_dir, is_repository};
use crate::setup::PathKind;

verus! {

/// How a discovered repository comes to be present at the destination.
#[derive(Clone, Copy, Debug, PartialEq, Eq, Structural)]
pub enum Step {
    /// The destination already holds the repository: open it.
    Reuse,
    /// The destination does not hold it: clone it from the source side.
    Clone,
}

/// What the run does with a repository once its step has been carried out.
#[derive(Clone, Copy, Debug, PartialEq, Eq, Structural)]
pub enum Verdict {
    /// The repository joins the working set and is synchronized later.
    Keep,
    /// The clone failed: report it and go on without this repository.
    Exclude,
    /// An existing repository could not be opened: the run stops.
    Abort,
}

/// Reuse exactly when the destination is a directory holding a repository.
pub open spec fn step_for(destination: PathKind, marker: PathKind) -> Step {
    if destination == PathKind::Directory && is_repository(marker) {
        Step::Reuse
    } else {
        Step::Clone
    }
}

/// Decides between reuse and clone from what the destination path is and what its
/// metadata entry is. The source side is not consulted: an existing repository
/// at the destination is reused whatever state the source is in.
pub fn plan_repository(destination: PathKind, marker: PathKind) -> (r: Step)
    ensures
        r == step_for(destination, marker),
        r == Step::Reuse <==> (destination == PathKind::Directory && marker == PathKind::Directory),
{
    if destination == PathKind::Directory && contains_git_dir(marker) {
        Step::Reuse
    } else {
        Step::Clone
    }
}

/// Success keeps a repository; a failed clone excludes it; a failed open aborts.
pub open spec fn verdict_of(step: Step, succeeded: bool) -> Verdict {
    if succeeded {
        Verdict::Keep
    } else if step == Step::Clone {
        Verdict::Exclude
    } else {
        Verdict::Abort
    }
}

/// The verdict on a repository, from its step and whether that step succeeded.
/// A failed clone is isolated; a failed open ends the run.
pub fn verdict(step: Step, succeeded: bool) -> (r: Verdict)
    ensures
        r == verdict_of(step, succeeded),
{
    if succeeded {
        Verdict::Keep
    } else {
        match step {
            Step::Clone => Verdict::Exclude,
            Step::Reuse => Verdict::Abort,
        }
    }
}

/// The state of reconciliation, as mathematics.
pub ghost struct WorkingSetModel {
    /// The positions, in discovery order, of the repositories present at the
    /// destination.
    pub members: Seq<usize>,
    /// The positions of the repositories whose clone failed.
    pub excluded: Seq<usize>,
    /// How many clones were attempted.
    pub clones: nat,
    /// How many repositories have been handled.
    pub seen: nat,
    /// Whether an existing repository could not be opened.
    pub aborted: bool,
}

/// Reconciliation before any repository was handled.
pub open spec fn empty_model() -> WorkingSetModel {
    WorkingSetModel { members: seq![], excluded: seq![], clones: 0, seen: 0, aborted: false }
}

/// The model after the next repository's step ended as `succeeded` says. Once the
/// run is aborted nothing changes.
pub open spec fn apply(m: WorkingSetModel, step: Step, succeeded: bool) -> WorkingSetModel {
    if m.aborted {
        m
    } else {
        let clones = if step == Step::Clone { m.clones + 1 } else { m.clones };
        let next = m.seen + 1;
        match verdict_of(step, succeeded) {
            Verdict::Keep => WorkingSetModel {
                members: m.members.push(m.seen as usize),
                clones,
                seen: next,
                ..m
            },
            Verdict::Exclude => WorkingSetModel {
                excluded: m.excluded.push(m.seen as usize),
                clones,
                seen: next,
                ..m
            },
            Verdict::Abort => WorkingSetModel { aborted: true, clones, seen: next, ..m },
        }
    }
}

/// The model after the repositories' steps and outcomes, in discovery order.
pub open spec fn run(steps: Seq<Step>, oks: Seq<bool>) -> WorkingSetModel
    recommends
        steps.len() == oks.len(),
    decreases steps.len(),
{
    if steps.len() == 0 || oks.len() == 0 {
        empty_model()
    } else {
        apply(run(steps.drop_last(), oks.drop_last()), steps.last(), oks.last())
    }
}

/// The repositories present at the destination, in discovery order, built one
/// outcome at a time.
pub struct WorkingSet {
    members: Vec<usize>,
    excluded: Vec<usize>,
    clones: usize,
    seen: usize,
    aborted: bool,
}

impl View for WorkingSet {
    type V = WorkingSetModel;

    closed spec fn view(&self) -> WorkingSetModel {
        WorkingSetModel {
            members: self.members@,
            excluded: self.excluded@,
            clones: self.clones as nat,
            seen: self.seen as nat,
            aborted: self.aborted,
        }
    }
}

impl WorkingSet {
    /// No more clones were counted than repositories handled.
    pub closed spec fn wf(&self) -> bool {
        self.clones <= self.seen
    }

    /// A working set before any repository was handled.
    pub fn new() -> (r: WorkingSet)
        ensures
            r.wf(),
            r@ == empty_model(),
    {
        WorkingSet { members: Vec::new(), excluded: Vec::new(), clones: 0, seen: 0, aborted: false }
    }

    /// Records how the step of the next repository in discovery order ended and
    /// returns the verdict on it.
    pub fn record(&mut self, step: Step, succeeded: bool) -> (v: Verdict)
        requires
            old(self).wf(),
            old(self)@.seen < usize::MAX,
        ensures
            final(self).wf(),
            final(self)@ == apply(old(self)@, step, succeeded),
            !old(self)@.aborted ==> v == verdict_of(step, succeeded),
            old(self)@.aborted ==> v == Verdict::Abort,
    {
        if self.aborted {
            return Verdict::Abort;
        }
        let v = verdict(step, succeeded);
        if step == Step::Clone {
            self.clones = self.clones + 1;
        }
        match v {
            Verdict::Keep => self.members.push(self.seen),
            Verdict::Exclude => self.excluded.push(self.seen),
            Verdict::Abort => self.aborted = true,
        }
        self.seen = self.seen + 1;
        v
    }

    /// The positions of the repositories present at the destination.
    pub fn members(&self) -> (r: &Vec<usize>)
        ensures
            r@ == self@.members,
    {
        &self.members
    }

    /// The positions of the repositories whose clone failed.
    pub fn excluded(&self) -> (r: &Vec<usize>)
        ensures
            r@ == self@.excluded,
    {
        &self.excluded
    }

    /// How many clones were attempted.
    pub fn clones(&self) -> (r: usize)
        ensures
            r == self@.clones,
    {
        self.clones
    }

    /// Whether the run stopped because an existing repository could not be opened.
    pub fn aborted(&self) -> (r: bool)
        ensures
            r == self@.aborted,
    {
        self.aborted
    }
}

/// Builds the working set from the steps of all discovered repositories and
/// how each ended, in discovery order.
pub fn reconcile(steps: &Vec<Step>, oks: &Vec<bool>) -> (r: WorkingSet)
    requires
        steps.len() == oks.len(),
    ensures
        r.wf(),
        r@ == run(steps@, oks@),
{
    let mut ws = WorkingSet::new();
    let mut i: usize = 0;
    while i < steps.len()
        invariant
            i <= steps.len(),
            steps.len() == oks.len(),
            ws.wf(),
            ws@ == run(steps@.subrange(0, i as int), oks@.subrange(0, i as int)),
            ws@.seen <= i,
        decreases steps.len() - i,
    {
        assert(steps@.subrange(0, i + 1).drop_last() == steps@.subrange(0, i as int));
        assert(oks@.subrange(0, i + 1).drop_last() == oks@.subrange(0, i as int));
        ws.record(steps[i], oks[i]);
        i += 1;
    }
    assert(steps@.subrange(0, steps.len() as int) == steps@);
    assert(oks@.subrange(0, oks.len() as int) == oks@);
    ws
}

} // verus!

verus! {

/// How many of the steps are clones.
pub open spec fn count_clones(steps: Seq<Step>) -> nat
    decreases steps.len(),
{
    if steps.len() == 0 {
        0
    } else {
        count_clones(steps.drop_last()) + if steps.last() == Step::Clone { 1nat } else { 0nat }
    }
}

/// Every open succeeded: the only failures are failed clones.
pub open spec fn opens_succeed(steps: Seq<Step>, oks: Seq<bool>) -> bool {
    forall|i: int| 0 <= i < steps.len() && steps[i] == Step::Reuse ==> #[trigger] oks[i]
}

/// What holds of every run: the positions handled so far are split between the
/// members and the excluded in discovery order, and a clone is counted for each
/// clone step.
pub proof fn lemma_run_shape(steps: Seq<Step>, oks: Seq<bool>)
    requires
        steps.len() == oks.len(),
        steps.len() <= usize::MAX,
    ensures
        !run(steps, oks).aborted ==> run(steps, oks).seen == steps.len(),
        !run(steps, oks).aborted ==> run(steps, oks).clones == count_clones(steps),
        run(steps, oks).aborted <==> !opens_succeed(steps, oks),
        forall|a: int, b: int| 0 <= a < b < run(steps, oks).members.len()
            ==> run(steps, oks).members[a] < run(steps, oks).members[b],
        forall|a: int| 0 <= a < run(steps, oks).members.len() ==> (run(steps, oks).members[a] as int) < run(steps, oks).seen,
        forall|a: int| 0 <= a < run(steps, oks).excluded.len() ==> (run(steps, oks).excluded[a] as int) < run(steps, oks).seen,
        opens_succeed(steps, oks) ==> forall|j: int| 0 <= j < steps.len() ==> (
            run(steps, oks).members.contains(j as usize) <==> #[trigger] oks[j]),
        opens_succeed(steps, oks) ==> forall|j: int| 0 <= j < steps.len() ==> (
            run(steps, oks).excluded.contains(j as usize) <==> !#[trigger] oks[j]),
    decreases steps.len(),
{
    if steps.len() > 0 {
        let (ps, po) = (steps.drop_last(), oks.drop_last());
        lemma_run_shape(ps, po);
        let prev = run(ps, po);
        let cur = run(steps, oks);
        let n = steps.len() - 1;
        assert(opens_succeed(steps, oks) ==> opens_succeed(ps, po)) by {
            if opens_succeed(steps, oks) {
                assert forall|i: int| 0 <= i < ps.len() && ps[i] == Step::Reuse implies #[trigger] po[i] by {
                    assert(steps[i] == ps[i] && oks[i] == po[i]);
                }
            }
        }
        assert(!opens_succeed(ps, po) ==> !opens_succeed(steps, oks)) by {
            if !opens_succeed(ps, po) {
                let i = choose|i: int| !(0 <= i < ps.len() && ps[i] == Step::Reuse ==> #[trigger] po[i]);
                assert(steps[i] == ps[i] && oks[i] == po[i]);
            }
        }
        if opens_succeed(ps, po) && !opens_succeed(steps, oks) {
            let i = choose|i: int| !(0 <= i < steps.len() && steps[i] == Step::Reuse ==> #[trigger] oks[i]);
            if i < n {
                assert(steps[i] == ps[i] && oks[i] == po[i]);
            }
            assert(i == n);
        }
        if opens_succeed(steps, oks) {
            assert(steps[n] == Step::Reuse ==> oks[n]);
            assert forall|j: int| 0 <= j < steps.len() implies (
                cur.members.contains(j as usize) <==> #[trigger] oks[j]) by {
                if j < n {
                    assert(oks[j] == po[j]);
                    assert(prev.members.contains(j as usize) <==> po[j]);
                    if cur.members.contains(j as usize) && !prev.members.contains(j as usize) {
                        let k = choose|k: int| 0 <= k < cur.members.len() && cur.members[k] == j as usize;
                        assert(k == prev.members.len());
                    }
                    if prev.members.contains(j as usize) {
                        let k = choose|k: int| 0 <= k < prev.members.len() && prev.members[k] == j as usize;
                        assert(cur.members[k] == j as usize);
                    }
                } else {
                    if oks[j] {
                        assert(cur.members.last() == j as usize);
                    } else if cur.members.contains(j as usize) {
                        let k = choose|k: int| 0 <= k < cur.members.len() && cur.members[k] == j as usize;
                        assert(cur.members == prev.members);
                        assert(prev.members[k] < prev.seen);
                    }
                }
            }
            assert forall|j: int| 0 <= j < steps.len() implies (
                cur.excluded.contains(j as usize) <==> !#[trigger] oks[j]) by {
                if j < n {
                    assert(oks[j] == po[j]);
                    assert(prev.excluded.contains(j as usize) <==> !po[j]);
                    if cur.excluded.contains(j as usize) && !prev.excluded.contains(j as usize) {
                        let k = choose|k: int| 0 <= k < cur.excluded.len() && cur.excluded[k] == j as usize;
                        assert(k == prev.excluded.len());
                    }
                    if prev.excluded.contains(j as usize) {
                        let k = choose|k: int| 0 <= k < prev.excluded.len() && prev.excluded[k] == j as usize;
                        assert(cur.excluded[k] == j as usize);
                    }
                } else {
                    if !oks[j] {
                        assert(cur.excluded.last() == j as usize);
                    } else if cur.excluded.contains(j as usize) {
                        let k = choose|k: int| 0 <= k < cur.excluded.len() && cur.excluded[k] == j as usize;
                        assert(cur.excluded == prev.excluded);
                        assert(prev.excluded[k] < prev.seen);
                    }
                }
            }
        }
    }
}

/// An existing repository at the destination is reused: its step is `Reuse`
/// whatever the source side holds, no clone is attempted for it, and once opened
/// it joins the working set.
pub proof fn lemma_reuse_precedence(destination: PathKind, marker: PathKind, m: WorkingSetModel)
    requires
        destination == PathKind::Directory,
        is_repository(marker),
        !m.aborted,
    ensures
        step_for(destination, marker) == Step::Reuse,
        apply(m, step_for(destination, marker), true).clones == m.clones,
        apply(m, step_for(destination, marker), true).members == m.members.push(m.seen as usize),
        !apply(m, step_for(destination, marker), true).aborted,
{
}

/// When every destination already holds its repository, as after a complete run,
/// a run performs no clone; and when every open succeeds, every repository is in
/// the working set, in discovery order.
pub proof fn lemma_second_run_clones_nothing(destinations: Seq<PathKind>, markers: Seq<PathKind>, oks: Seq<bool>)
    requires
        destinations.len() == markers.len(),
        markers.len() == oks.len(),
        oks.len() <= usize::MAX,
        forall|i: int| 0 <= i < destinations.len() ==> #[trigger] destinations[i] == PathKind::Directory,
        forall|i: int| 0 <= i < markers.len() ==> is_repository(#[trigger] markers[i]),
    ensures
        run(Seq::new(oks.len(), |i: int| step_for(destinations[i], markers[i])), oks).clones == 0,
        (forall|i: int| 0 <= i < oks.len() ==> #[trigger] oks[i]) ==> run(
            Seq::new(oks.len(), |i: int| step_for(destinations[i], markers[i])),
            oks,
        ).members == Seq::new(oks.len(), |i: int| i as usize),
    decreases oks.len(),
{
    let steps = Seq::new(oks.len(), |i: int| step_for(destinations[i], markers[i]));
    if oks.len() > 0 {
        let (pd, pm, po) = (destinations.drop_last(), markers.drop_last(), oks.drop_last());
        lemma_second_run_clones_nothing(pd, pm, po);
        let psteps = Seq::new(po.len(), |i: int| step_for(pd[i], pm[i]));
        assert(steps.drop_last() == psteps);
        assert(steps.last() == Step::Reuse);
        if forall|i: int| 0 <= i < oks.len() ==> #[trigger] oks[i] {
            assert(forall|i: int| 0 <= i < po.len() ==> #[trigger] po[i] == oks[i]);
            lemma_run_shape(psteps, po);
            assert(opens_succeed(psteps, po));
            assert(run(steps, oks).members == Seq::new(oks.len(), |i: int| i as usize));
        }
    }
}

/// A failed clone is isolated: when every open succeeds the run is not aborted,
/// exactly the repositories whose step succeeded are in the working set, in
/// discovery order, and exactly the failed clones are reported as excluded.
pub proof fn lemma_clone_failures_isolated(steps: Seq<Step>, oks: Seq<bool>)
    requires
        steps.len() == oks.len(),
        steps.len() <= usize::MAX,
        opens_succeed(steps, oks),
    ensures
        !run(steps, oks).aborted,
        forall|j: int| 0 <= j < steps.len() ==> (run(steps, oks).members.contains(j as usize) <==> #[trigger] oks[j]),
        forall|j: int| 0 <= j < steps.len() ==> (
            run(steps, oks).excluded.contains(j as usize) <==> (#[trigger] steps[j] == Step::Clone && !oks[j])),
        forall|a: int, b: int| 0 <= a < b < run(steps, oks).members.len()
            ==> run(steps, oks).members[a] < run(steps, oks).members[b],
{
    lemma_run_shape(steps, oks);
    assert forall|j: int| 0 <= j < steps.len() implies (
        run(steps, oks).excluded.contains(j as usize) <==> (#[trigger] steps[j] == Step::Clone && !oks[j])) by {
        assert(steps[j] == Step::Reuse ==> oks[j]);
        assert(run(steps, oks).excluded.contains(j as usize) <==> !oks[j]);
    }
}

} // verus!

verus! {

/// The path that `std::path::Path::join(base, name)` builds, as text.
pub uninterp spec fn joined_path_of(base: Seq<char>, name: Seq<char>) -> Seq<char>;

/// Relies on `std::path::Path::join`: `name` appended to `base` as a path, which
/// depends on the two paths alone.
#[verifier::external_body]
fn join_path(base: &str, name: &str) -> (r: String)
    ensures
        r@ == joined_path_of(base@, name@),
{
    std::path::Path::new(base).join(name).to_string_lossy().into_owned()
}

/// Where a repository is found on the source side and where it belongs at the
/// destination.
#[derive(Debug)]
pub struct RepoLocation {
    /// The repository's name, relative to both roots.
    pub name: String,
    /// The source root joined with the name: what a clone is made from.
    pub source: String,
    /// The destination root joined with the name: where the repository lives.
    pub destination: String,
}

/// Places a discovered repository under both roots.
pub fn locate(source_root: &str, destination_root: &str, name: &str) -> (r: RepoLocation)
    ensures
        r.name@ == name@,
        r.source@ == joined_path_of(source_root@, name@),
        r.destination@ == joined_path_of(destination_root@, name@),
{
    RepoLocation {
        name: name.to_string(),
        source: join_path(source_root, name),
        destination: join_path(destination_root, name),
    }
}

} // verus!

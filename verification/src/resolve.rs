use vstd::prelude::*;
use vstd::multiset::Multiset;
use crate::filter::Filter;
use crate::model::{WorkflowRun, Artifact, ResolvedCandidate};

verus! {

broadcast use
    vstd::seq_lib::group_to_multiset_ensures,
    vstd::seq_lib::group_filter_ensures,
    Seq::lemma_filter_push,
    vstd::multiset::group_multiset_axioms;

/// A run survives the run-level filter when both its workflow name and its
/// source branch are accepted.
pub open spec fn run_passes(f: Filter, r: WorkflowRun) -> bool {
    f.spec_test_workflow(r.name@) && f.spec_test_branch(r.head_branch@)
}

/// The run-level filter as a predicate on runs.
pub open spec fn run_pred(f: Filter) -> spec_fn(WorkflowRun) -> bool {
    |r: WorkflowRun| run_passes(f, r)
}

/// The runs that survive the run-level filter, in their listed order.
pub open spec fn runs_kept(f: Filter, runs: Seq<WorkflowRun>) -> Seq<WorkflowRun> {
    runs.filter(run_pred(f))
}

/// Most recently updated first.
pub open spec fn sorted_desc(s: Seq<WorkflowRun>) -> bool {
    forall|i: int, j: int| 0 <= i <= j < s.len() ==> s[i].updated_at >= s[j].updated_at
}

/// An artifact qualifies for selection when it has not expired, its name is
/// accepted by the filter, and it can actually be downloaded.
pub open spec fn qualifies(f: Filter, a: Artifact) -> bool {
    &&& !a.expired
    &&& f.spec_test_artifact(a.name@)
    &&& a.archive_download_url is Some
}

/// The selection a qualifying artifact yields.
pub open spec fn candidate_of(a: Artifact) -> ResolvedCandidate {
    ResolvedCandidate { id: a.id, url: a.archive_download_url.unwrap(), name: a.name }
}

/// The artifact at index `i` is the one selection returns: it qualifies, no
/// qualifying artifact was updated later, and among equally recent qualifying
/// artifacts it is the first listed.
pub open spec fn selected_at(f: Filter, arts: Seq<Artifact>, i: int) -> bool {
    &&& 0 <= i < arts.len()
    &&& qualifies(f, arts[i])
    &&& (forall|j: int| 0 <= j < arts.len() && qualifies(f, #[trigger] arts[j])
            ==> arts[j].updated_at <= arts[i].updated_at)
    &&& (forall|j: int| 0 <= j < i && qualifies(f, #[trigger] arts[j])
            ==> arts[j].updated_at < arts[i].updated_at)
}

/// Keeps exactly the runs whose workflow name and branch pass the filter,
/// in their listed order.
fn filter_runs(runs: Vec<WorkflowRun>, f: &Filter) -> (kept: Vec<WorkflowRun>)
    ensures
        kept@ == runs_kept(*f, runs@),
{
    let ghost orig = runs@;
    let mut rest = runs;
    let mut kept: Vec<WorkflowRun> = Vec::new();
    let ghost mut seen: Seq<WorkflowRun> = Seq::empty();
    proof {
        assert(seen + rest@ =~= orig);
        assert(runs_kept(*f, seen) =~= Seq::<WorkflowRun>::empty());
    }
    while rest.len() > 0
        invariant
            seen + rest@ == orig,
            kept@ == runs_kept(*f, seen),
        decreases rest.len(),
    {
        let ghost old_rest = rest@;
        let r = rest.remove(0);
        let ghost rg = r;
        let keep = f.test_workflow(r.name.as_str()) && f.test_branch(r.head_branch.as_str());
        proof {
            assert(runs_kept(*f, seen.push(rg)) == if run_pred(*f)(rg) {
                runs_kept(*f, seen).push(rg)
            } else {
                runs_kept(*f, seen)
            });
            assert(run_pred(*f)(rg) == run_passes(*f, rg));
            assert(seen.push(rg) + rest@ =~= seen + old_rest);
        }
        if keep {
            kept.push(r);
        }
        proof {
            seen = seen.push(rg);
        }
    }
    proof {
        assert(seen =~= orig);
    }
    kept
}

/// The index of the most recently updated run; among equally recent ones,
/// the first.
fn index_of_latest(v: &Vec<WorkflowRun>) -> (k: usize)
    requires
        v@.len() > 0,
    ensures
        k < v@.len(),
        forall|j: int| 0 <= j < v@.len() ==> v@[j].updated_at <= v@[k as int].updated_at,
        forall|j: int| 0 <= j < k ==> v@[j].updated_at < v@[k as int].updated_at,
{
    let mut k: usize = 0;
    let mut i: usize = 1;
    while i < v.len()
        invariant
            k < i <= v@.len(),
            forall|j: int| 0 <= j < i ==> v@[j].updated_at <= v@[k as int].updated_at,
            forall|j: int| 0 <= j < k ==> v@[j].updated_at < v@[k as int].updated_at,
        decreases v@.len() - i,
    {
        if v[i].updated_at > v[k].updated_at {
            k = i;
        }
        i = i + 1;
    }
    k
}

/// Reorders the runs by last update, most recent first, keeping exactly the
/// given runs.
fn sort_runs_desc(input: Vec<WorkflowRun>) -> (out: Vec<WorkflowRun>)
    ensures
        sorted_desc(out@),
        out@.to_multiset() == input@.to_multiset(),
{
    let ghost orig = input@;
    let mut rest = input;
    let mut out: Vec<WorkflowRun> = Vec::new();
    proof {
        assert(out@.to_multiset().add(rest@.to_multiset()) =~= orig.to_multiset());
    }
    while rest.len() > 0
        invariant
            sorted_desc(out@),
            forall|i: int, j: int| 0 <= i < out@.len() && 0 <= j < rest@.len()
                ==> out@[i].updated_at >= rest@[j].updated_at,
            out@.to_multiset().add(rest@.to_multiset()) == orig.to_multiset(),
        decreases rest.len(),
    {
        let k = index_of_latest(&rest);
        let ghost old_rest = rest@;
        let ghost old_out = out@;
        let run = rest.remove(k);
        let ghost rg = run;
        out.push(run);
        proof {
            assert(old_rest[k as int] == rg);
            assert(old_rest.contains(rg));
            assert(out@ =~= old_out.push(rg));
            assert(out@.to_multiset() =~= old_out.to_multiset().insert(rg));
            assert(rest@ =~= old_rest.remove(k as int));
            assert(rest@.to_multiset() =~= old_rest.to_multiset().remove(rg));
            assert(out@.to_multiset().add(rest@.to_multiset()) =~= orig.to_multiset());
            assert forall|j: int| 0 <= j < rest@.len()
                implies rg.updated_at >= rest@[j].updated_at by {
                if j < k {
                    assert(rest@[j] == old_rest[j]);
                } else {
                    assert(rest@[j] == old_rest[j + 1]);
                }
            }
        }
    }
    proof {
        assert(rest@.to_multiset() =~= Multiset::<WorkflowRun>::empty());
        assert(out@.to_multiset() =~= orig.to_multiset());
    }
    out
}

/// One resolution call's cursor over the workflow runs still to be examined:
/// the runs that passed the run-level filter, ordered by last update, most
/// recent first.
pub struct Resolution {
    runs: Vec<WorkflowRun>,
}

/// The run handed out was the first remaining one with an artifact listing:
/// it came from index `k` of the remaining runs, every run before it had no
/// listing locator, and the cursor moved past it.
pub open spec fn yielded(
    pre: Seq<WorkflowRun>,
    post: Seq<WorkflowRun>,
    run: WorkflowRun,
    k: int,
) -> bool {
    &&& 0 <= k < pre.len()
    &&& run == pre[k]
    &&& run.artifacts_url is Some
    &&& (forall|j: int| 0 <= j < k ==> (#[trigger] pre[j]).artifacts_url is None)
    &&& post == pre.skip(k + 1)
}

impl Resolution {
    /// The runs still to be examined, in the order they will be examined.
    pub closed spec fn remaining(self) -> Seq<WorkflowRun> {
        self.runs@
    }

    pub open spec fn wf(self) -> bool {
        sorted_desc(self.remaining())
    }

    /// Starts a resolution over the listed runs: keeps exactly those whose
    /// workflow name and branch the filter accepts, ordered by last update,
    /// most recent first.
    pub fn new(runs: Vec<WorkflowRun>, f: &Filter) -> (res: Resolution)
        ensures
            res.wf(),
            res.remaining().to_multiset() == runs_kept(*f, runs@).to_multiset(),
            forall|i: int| 0 <= i < res.remaining().len()
                ==> run_passes(*f, #[trigger] res.remaining()[i]),
    {
        let kept = filter_runs(runs, f);
        let sorted = sort_runs_desc(kept);
        proof {
            assert forall|i: int| 0 <= i < sorted@.len()
                implies run_passes(*f, #[trigger] sorted@[i]) by {
                let x = sorted@[i];
                assert(sorted@.contains(x));
                assert(sorted@.to_multiset().count(x) > 0);
                assert(kept@.to_multiset().count(x) > 0);
                assert(kept@.contains(x));
                let idx = choose|idx: int| 0 <= idx < kept@.len() && kept@[idx] == x;
                assert(run_passes(*f, runs_kept(*f, runs@)[idx]));
            }
        }
        Resolution { runs: sorted }
    }

    /// Hands out the next run to fetch artifacts for: the first remaining run
    /// that has an artifact listing. Runs without one are passed over without
    /// being handed out, and a listing request is never owed for them. `None`
    /// means every remaining run lacked a listing and the resolution is over.
    pub fn next_run(&mut self) -> (r: Option<WorkflowRun>)
        requires
            old(self).wf(),
        ensures
            final(self).wf(),
            (r matches Some(run) ==> exists|k: int|
                yielded(old(self).remaining(), final(self).remaining(), run, k)),
            r is None ==> {
                &&& (forall|j: int| 0 <= j < old(self).remaining().len()
                        ==> (#[trigger] old(self).remaining()[j]).artifacts_url is None)
                &&& final(self).remaining().len() == 0
            },
    {
        let ghost pre = self.runs@;
        loop
            invariant
                pre == old(self).runs@,
                sorted_desc(self.runs@),
                self.runs@ == pre.skip(pre.len() - self.runs@.len()),
                self.runs@.len() <= pre.len(),
                forall|j: int| 0 <= j < pre.len() - self.runs@.len()
                    ==> (#[trigger] pre[j]).artifacts_url is None,
            decreases self.runs@.len(),
        {
            if self.runs.len() == 0 {
                proof {
                    assert(pre.skip(pre.len() as int) =~= self.runs@);
                }
                return None;
            }
            let ghost old_remaining = self.runs@;
            let ghost k = pre.len() - self.runs@.len();
            let run = self.runs.remove(0);
            proof {
                assert(old_remaining[0] == pre[k]);
                assert(self.runs@ =~= pre.skip(k + 1));
                assert forall|i: int, j: int| 0 <= i <= j < self.runs@.len()
                    implies self.runs@[i].updated_at >= self.runs@[j].updated_at by {
                    assert(self.runs@[i] == old_remaining[i + 1]);
                    assert(self.runs@[j] == old_remaining[j + 1]);
                }
            }
            if run.artifacts_url.is_some() {
                proof {
                    assert(yielded(pre, self.runs@, run, k));
                }
                return Some(run);
            }
        }
    }
}

/// An expired artifact is never the selected one, however recently it was
/// updated: selection only ever lands on a non-expired artifact whose name
/// passes the filter and that can be downloaded.
pub proof fn lemma_expired_never_selected(f: Filter, arts: Seq<Artifact>, i: int)
    requires
        selected_at(f, arts, i),
    ensures
        !arts[i].expired,
        f.spec_test_artifact(arts[i].name@),
        arts[i].archive_download_url is Some,
{
}

/// Runs are handed out most recently updated first: of two successive yields
/// of one resolution over runs in descending update order, the first handed
/// out is at least as recent as the second.
pub proof fn lemma_scan_order(
    pre: Seq<WorkflowRun>,
    mid: Seq<WorkflowRun>,
    post: Seq<WorkflowRun>,
    run1: WorkflowRun,
    run2: WorkflowRun,
    k1: int,
    k2: int,
)
    requires
        sorted_desc(pre),
        yielded(pre, mid, run1, k1),
        yielded(mid, post, run2, k2),
    ensures
        run1.updated_at >= run2.updated_at,
{
    assert(mid[k2] == pre[k1 + 1 + k2]);
}

/// Selects from one run's artifact listing: among the artifacts that have not
/// expired, whose name passes the filter and that have a download URL, the
/// most recently updated — among equally recent ones, the first listed. An
/// expired artifact is never selected, however recent.
pub fn select_artifact(arts: Vec<Artifact>, f: &Filter) -> (r: Option<ResolvedCandidate>)
    ensures
        (r matches Some(c) ==> exists|i: int|
            #[trigger] selected_at(*f, arts@, i) && c == candidate_of(arts@[i])),
        r is None ==> (forall|i: int| 0 <= i < arts@.len() ==> !qualifies(*f, #[trigger] arts@[i])),
{
    let mut best: usize = 0;
    let mut found = false;
    let mut i: usize = 0;
    while i < arts.len()
        invariant
            i <= arts@.len(),
            !found ==> (forall|j: int| 0 <= j < i ==> !qualifies(*f, #[trigger] arts@[j])),
            found ==> {
                &&& best < i
                &&& qualifies(*f, arts@[best as int])
                &&& (forall|j: int| 0 <= j < i && qualifies(*f, #[trigger] arts@[j])
                        ==> arts@[j].updated_at <= arts@[best as int].updated_at)
                &&& (forall|j: int| 0 <= j < best && qualifies(*f, #[trigger] arts@[j])
                        ==> arts@[j].updated_at < arts@[best as int].updated_at)
            },
        decreases arts@.len() - i,
    {
        let a = &arts[i];
        let q = !a.expired && f.test_artifact(a.name.as_str())
            && a.archive_download_url.is_some();
        if q {
            if !found {
                found = true;
                best = i;
            } else if a.updated_at > arts[best].updated_at {
                best = i;
            }
        }
        i = i + 1;
    }
    if found {
        proof {
            assert(selected_at(*f, arts@, best as int));
        }
        let mut listing = arts;
        let a = listing.remove(best);
        let url = a.archive_download_url.unwrap();
        Some(ResolvedCandidate { id: a.id, url, name: a.name })
    } else {
        None
    }
}

} // verus!

//! Workers and the shared repeat-priority list of automated workers.

use vstd::prelude::*;
use crate::kinds::{JobKind, ResourceKind, UndeadKind, WorkerStatus};
use crate::policies::RoutePolicy;
use crate::tile::TilePos;

verus! {

/// Where a hauler's bundle is headed.
#[derive(Debug, Clone, Copy, PartialEq, Eq, Structural)]
pub enum HaulDestination {
    Storage,
    Kiln,
}

impl Default for HaulDestination {
    fn default() -> (destination: HaulDestination)
        ensures
            destination == HaulDestination::Storage,
    {
        HaulDestination::Storage
    }
}

/// A committed haul: what to carry, from where, to where, under which
/// storage policy.
#[derive(Debug, Clone, Copy, PartialEq, Eq, Structural)]
pub struct HaulPlan {
    pub resource: ResourceKind,
    pub source: TilePos,
    pub destination: TilePos,
    pub storage_policy: RoutePolicy,
    pub destination_kind: HaulDestination,
}

/// A raised undead worker.
#[derive(Debug, Clone)]
pub struct Worker {
    pub id: u32,
    pub name: String,
    pub kind: UndeadKind,
    pub assignment: JobKind,
    pub position: TilePos,
    pub status: WorkerStatus,
    pub target_plot: Option<usize>,
    pub carrying: i32,
    pub carrying_resource: Option<ResourceKind>,
    pub priority_mode: bool,
    pub haul_plan: Option<HaulPlan>,
}

/// The roster, the selected worker and the repeat-priority order.
#[derive(Debug, Clone)]
pub struct WorkforceState {
    pub workers: Vec<Worker>,
    pub selected_worker: usize,
    pub next_worker_id: u32,
    pub priorities: Vec<JobKind>,
}

/// Every job, in the order a fresh domain tries them.
pub open spec fn default_priority_order() -> Seq<JobKind> {
    seq![JobKind::Guard, JobKind::Haul, JobKind::Dig, JobKind::Build, JobKind::Wood, JobKind::Refine]
}

/// A priority list repaired for the current job set: the listed jobs in
/// their first-listed order, then every missing job in default order.
pub open spec fn normalized_priorities(priorities: Seq<JobKind>) -> Seq<JobKind> {
    (priorities + default_priority_order()).remove_duplicates(Seq::empty())
}

pub fn default_priorities() -> (priorities: Vec<JobKind>)
    ensures
        priorities@ == default_priority_order(),
{
    let mut v: Vec<JobKind> = Vec::new();
    v.push(JobKind::Guard);
    v.push(JobKind::Haul);
    v.push(JobKind::Dig);
    v.push(JobKind::Build);
    v.push(JobKind::Wood);
    v.push(JobKind::Refine);
    assert(v@ =~= default_priority_order());
    v
}

fn jobs_contain(jobs: &Vec<JobKind>, job: JobKind) -> (found: bool)
    ensures
        found == jobs@.contains(job),
{
    let mut i: usize = 0;
    while i < jobs.len()
        invariant
            i <= jobs@.len(),
            forall|j: int| 0 <= j < i ==> jobs@[j] != job,
        decreases jobs.len() - i,
    {
        if jobs[i] == job {
            return true;
        }
        i = i + 1;
    }
    false
}

/// Removing duplicates keeps exactly one copy of every listed job.
pub proof fn lemma_remove_duplicates_unique(s: Seq<JobKind>, seen: Seq<JobKind>)
    requires
        seen.no_duplicates(),
    ensures
        s.remove_duplicates(seen).no_duplicates(),
    decreases s.len(),
{
    if s.len() > 0 {
        if seen.contains(s[0]) {
            lemma_remove_duplicates_unique(s.skip(1), seen);
        } else {
            let seen2 = seen + seq![s[0]];
            assert(seen2.no_duplicates()) by {
                assert forall|i: int, j: int| 0 <= i < seen2.len() && 0 <= j < seen2.len() && i != j implies seen2[i] != seen2[j] by {
                    if i == seen.len() as int {
                        assert(seen2[j] == seen[j]);
                    } else if j == seen.len() as int {
                        assert(seen2[i] == seen[i]);
                    }
                }
            }
            lemma_remove_duplicates_unique(s.skip(1), seen2);
        }
    }
}

/// The list `WorkforceState::normalize_priorities` leaves names every job
/// exactly once: it is a permutation of the six jobs.
pub proof fn lemma_normalized_is_permutation(priorities: Seq<JobKind>)
    ensures
        normalized_priorities(priorities).no_duplicates(),
        forall|job: JobKind| normalized_priorities(priorities).contains(job),
        normalized_priorities(priorities).len() == 6,
{
    let all = priorities + default_priority_order();
    all.lemma_remove_duplicates_properties(Seq::empty());
    lemma_remove_duplicates_unique(all, Seq::empty());
    let out = normalized_priorities(priorities);
    assert forall|job: JobKind| out.contains(job) by {
        let d = default_priority_order();
        let k: int = match job {
            JobKind::Guard => 0,
            JobKind::Haul => 1,
            JobKind::Dig => 2,
            JobKind::Build => 3,
            JobKind::Wood => 4,
            JobKind::Refine => 5,
        };
        assert(d[k] == job);
        assert(all[priorities.len() + k] == job);
        assert((all + Seq::<JobKind>::empty()).contains(job)) by {
            assert((all + Seq::<JobKind>::empty())[priorities.len() + k] == job);
        }
    }
    lemma_six_distinct_jobs(out);
}

/// A list of distinct jobs that names every job has exactly six entries.
proof fn lemma_six_distinct_jobs(s: Seq<JobKind>)
    requires
        s.no_duplicates(),
        forall|job: JobKind| s.contains(job),
    ensures
        s.len() == 6,
{
    let d = default_priority_order();
    assert(d.no_duplicates());
    s.unique_seq_to_set();
    d.unique_seq_to_set();
    assert(s.to_set() =~= d.to_set()) by {
        assert forall|job: JobKind| s.to_set().contains(job) <==> d.to_set().contains(job) by {
            let k: int = match job {
                JobKind::Guard => 0,
                JobKind::Haul => 1,
                JobKind::Dig => 2,
                JobKind::Build => 3,
                JobKind::Wood => 4,
                JobKind::Refine => 5,
            };
            assert(d[k] == job);
        }
    }
}

/// Calling `WorkforceState::normalize_priorities` a second time changes
/// nothing.
pub proof fn lemma_normalize_idempotent(priorities: Seq<JobKind>)
    ensures
        normalized_priorities(normalized_priorities(priorities)) == normalized_priorities(priorities),
{
    let once = normalized_priorities(priorities);
    lemma_normalized_is_permutation(priorities);
    lemma_remove_duplicates_of_complete(once);
}

/// Appending the default order to a complete list without duplicates and
/// removing duplicates gives the list back.
proof fn lemma_remove_duplicates_of_complete(s: Seq<JobKind>)
    requires
        s.no_duplicates(),
        forall|job: JobKind| s.contains(job),
    ensures
        (s + default_priority_order()).remove_duplicates(Seq::empty()) == s,
{
    let d = default_priority_order();
    let all = s + d;
    let n = s.len() as int;
    lemma_remove_duplicates_prefix(s, n);
    assert(s.take(n) == s);
    assert(all.take(n) == s);
    assert(all.skip(n) == d);
    lemma_remove_duplicates_tail_seen(d, s);
    all.lemma_remove_duplicates_append_index(n, Seq::empty());
    assert(all.remove_duplicates(Seq::empty()) == d.remove_duplicates(s));
}

/// Removing duplicates from a prefix of a list without duplicates keeps it.
proof fn lemma_remove_duplicates_prefix(s: Seq<JobKind>, i: int)
    requires
        s.no_duplicates(),
        0 <= i <= s.len(),
    ensures
        s.take(i).remove_duplicates(Seq::empty()) == s.take(i),
    decreases i,
{
    if i > 0 {
        lemma_remove_duplicates_prefix(s, i - 1);
        let pre = s.take(i - 1);
        pre.lemma_remove_duplicates_append(s[i - 1], Seq::empty());
        assert(!(pre + Seq::<JobKind>::empty()).contains(s[i - 1])) by {
            if (pre + Seq::<JobKind>::empty()).contains(s[i - 1]) {
                let k = choose|k: int| 0 <= k < pre.len() && (pre + Seq::<JobKind>::empty())[k] == s[i - 1];
                assert(s[k] == s[i - 1]);
            }
        }
        assert(pre + seq![s[i - 1]] == s.take(i));
        assert(pre + Seq::<JobKind>::empty() == pre);
    }
}

/// Removing duplicates from a list whose items were all seen adds nothing.
proof fn lemma_remove_duplicates_tail_seen(d: Seq<JobKind>, seen: Seq<JobKind>)
    requires
        forall|job: JobKind| seen.contains(job),
    ensures
        d.remove_duplicates(seen) == seen,
    decreases d.len(),
{
    if d.len() > 0 {
        assert(seen.contains(d[0]));
        lemma_remove_duplicates_tail_seen(d.skip(1), seen);
    }
}

/// Extending a prefix by one item extends its duplicate-free form by that
/// item exactly when it was not listed yet.
proof fn lemma_take_step(all: Seq<JobKind>, i: int)
    requires
        0 <= i < all.len(),
    ensures
        all.take(i).remove_duplicates(Seq::empty()).contains(all[i]) ==> all.take(i + 1).remove_duplicates(
            Seq::empty(),
        ) == all.take(i).remove_duplicates(Seq::empty()),
        !all.take(i).remove_duplicates(Seq::empty()).contains(all[i]) ==> all.take(i + 1).remove_duplicates(
            Seq::empty(),
        ) == all.take(i).remove_duplicates(Seq::empty()).push(all[i]),
{
    let pre = all.take(i);
    let job = all[i];
    pre.lemma_remove_duplicates_properties(Seq::empty());
    pre.lemma_remove_duplicates_append(job, Seq::empty());
    assert(pre + Seq::<JobKind>::empty() == pre);
    assert(pre + seq![job] == all.take(i + 1));
    assert(pre.remove_duplicates(Seq::empty()) + seq![job] == pre.remove_duplicates(Seq::empty()).push(job));
}

impl WorkforceState {
    pub fn default_priorities() -> (priorities: Vec<JobKind>)
        ensures
            priorities@ == default_priority_order(),
    {
        default_priorities()
    }

    /// Drops repeated jobs and appends the jobs the list is missing.
    pub fn normalize_priorities(&mut self)
        ensures
            final(self).priorities@ == normalized_priorities(old(self).priorities@),
            final(self).workers@ == old(self).workers@,
            final(self).selected_worker == old(self).selected_worker,
            final(self).next_worker_id == old(self).next_worker_id,
    {
        let defaults = default_priorities();
        let ghost all = self.priorities@ + defaults@;
        let ghost p = self.priorities@;
        let mut normalized: Vec<JobKind> = Vec::new();
        let mut i: usize = 0;
        while i < self.priorities.len()
            invariant
                all == self.priorities@ + defaults@,
                p == self.priorities@,
                i <= p.len(),
                normalized@ == all.take(i as int).remove_duplicates(Seq::empty()),
            decreases self.priorities.len() - i,
        {
            let job = self.priorities[i];
            proof {
                lemma_take_step(all, i as int);
            }
            if !jobs_contain(&normalized, job) {
                normalized.push(job);
            }
            i = i + 1;
        }
        let mut j: usize = 0;
        while j < defaults.len()
            invariant
                all == p + defaults@,
                defaults@ == default_priority_order(),
                j <= defaults@.len(),
                normalized@ == all.take(p.len() + j as int).remove_duplicates(Seq::empty()),
            decreases defaults.len() - j,
        {
            let job = defaults[j];
            proof {
                assert(all[p.len() + j as int] == job);
                lemma_take_step(all, p.len() + j as int);
            }
            if !jobs_contain(&normalized, job) {
                normalized.push(job);
            }
            j = j + 1;
        }
        assert(all.take(p.len() + 6int) == all);
        self.priorities = normalized;
    }
}

} // verus!

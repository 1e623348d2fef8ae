//! How automated workers pick their next job from the shared priority list.

use vstd::prelude::*;
use crate::data::GameConfig;
use crate::districts::{bias_of, policy_bias};
use crate::jobs::{release_plot, released};
use crate::kinds::{job_label, JobKind, PlotStatus, Technology, ZoneKind};
use crate::movement::{can_drop_cargo, cargo_dropped, drop_worker_cargo};
use crate::navigation::{grid_fits, route_exists, routable};
use crate::policies::{RoutePolicy, StewardshipPolicy};
use crate::progression::{input_need, production_input_need};
use crate::session::GameSession;
use crate::targets::{
    covered_posts, destination_for_worker, patrol_coverage, patrol_pool, work_tiles_fit, worker_dest,
};
use crate::text_util::push_str;
use crate::workforce::Worker;

verus! {

pub open spec fn any_carrying(workers: Seq<Worker>) -> bool {
    exists|i: int| 0 <= i < workers.len() && (#[trigger] workers[i]).carrying > 0
}

pub open spec fn any_ready_plot(session: GameSession) -> bool {
    exists|i: int|
        0 <= i < session.world.plots@.len() && (#[trigger] session.world.plots@[i]).status == PlotStatus::Ready
}

pub open spec fn any_unfinished(session: GameSession) -> bool {
    exists|i: int|
        0 <= i < session.world.buildings@.len() && !(#[trigger] session.world.buildings@[i]).complete
}

/// Some marked patrol post has no guard reaching it.
pub open spec fn patrol_gap(session: GameSession) -> bool {
    patrol_pool(session).len() > covered_posts(session, session.workforce.workers@).len()
}

/// There is work of kind `job` to do. `guard_called` says whether suspicion
/// has reached the level at which the stewardship policy calls guards out.
pub open spec fn job_wanted(session: GameSession, config: GameConfig, guard_called: bool, job: JobKind) -> bool {
    match job {
        JobKind::Guard => guard_called || session.stewardship_policy == StewardshipPolicy::Secure && patrol_gap(
            session,
        ),
        JobKind::Haul => session.economy.loose_bones > 0 || session.economy.loose_wood > 0 || input_need(
            session,
            crate::kinds::ResourceKind::Bones,
        ) > 0 && session.economy.bones > 0 || input_need(session, crate::kinds::ResourceKind::Wood) > 0
            && session.economy.wood > 0 || any_carrying(session.workforce.workers@),
        JobKind::Dig => any_ready_plot(session),
        JobKind::Wood => session.economy.wood < config.worker_wood_reserve || session.progress.unlocked_plots
            < config.victory_plots,
        JobKind::Build => any_unfinished(session),
        JobKind::Refine => session.progress.production is Some,
    }
}

/// Guard duty is open whenever suspicion calls guards out; under the Secure
/// stewardship policy it is also open, whatever the suspicion, while a
/// marked patrol post has no guard reaching it; under any other policy it
/// is open only when guards are called.
pub proof fn lemma_guard_wanted(session: GameSession, config: GameConfig, guard_called: bool)
    ensures
        guard_called ==> job_wanted(session, config, guard_called, JobKind::Guard),
        session.stewardship_policy == StewardshipPolicy::Secure && covered_posts(
            session,
            session.workforce.workers@,
        ).len() < patrol_pool(session).len() ==> job_wanted(session, config, guard_called, JobKind::Guard),
        session.stewardship_policy != StewardshipPolicy::Secure ==> job_wanted(
            session,
            config,
            guard_called,
            JobKind::Guard,
        ) == guard_called,
        covered_posts(session, session.workforce.workers@).len() >= patrol_pool(session).len() ==> job_wanted(
            session,
            config,
            guard_called,
            JobKind::Guard,
        ) == guard_called,
{
}

/// Whether there is work of kind `job` to do.
pub fn priority_available(session: &GameSession, config: &GameConfig, guard_called: bool, priority: JobKind) -> (wanted:
    bool)
    requires
        grid_fits(session.world),
        work_tiles_fit(session.world),
    ensures
        wanted == job_wanted(*session, *config, guard_called, priority),
        priority == JobKind::Guard && session.stewardship_policy == StewardshipPolicy::Secure && covered_posts(
            *session,
            session.workforce.workers@,
        ).len() < patrol_pool(*session).len() ==> wanted,
{
    match priority {
        JobKind::Guard => {
            if guard_called {
                return true;
            }
            if session.stewardship_policy != StewardshipPolicy::Secure {
                return false;
            }
            let coverage = patrol_coverage(session);
            coverage.total_posts > coverage.covered_posts
        },
        JobKind::Haul => {
            if session.economy.loose_bones > 0 || session.economy.loose_wood > 0 {
                return true;
            }
            if production_input_need(session, crate::kinds::ResourceKind::Bones) > 0 && session.economy.bones > 0 {
                return true;
            }
            if production_input_need(session, crate::kinds::ResourceKind::Wood) > 0 && session.economy.wood > 0 {
                return true;
            }
            let mut i: usize = 0;
            while i < session.workforce.workers.len()
                invariant
                    i <= session.workforce.workers@.len(),
                    priority == JobKind::Haul,
                    forall|j: int| 0 <= j < i ==> (#[trigger] session.workforce.workers@[j]).carrying <= 0,
                decreases session.workforce.workers.len() - i,
            {
                if session.workforce.workers[i].carrying > 0 {
                    assert(session.workforce.workers@[i as int].carrying > 0);
                    return true;
                }
                i = i + 1;
            }
            false
        },
        JobKind::Dig => {
            let mut i: usize = 0;
            while i < session.world.plots.len()
                invariant
                    i <= session.world.plots@.len(),
                    priority == JobKind::Dig,
                    forall|j: int| 0 <= j < i ==> (#[trigger] session.world.plots@[j]).status != PlotStatus::Ready,
                decreases session.world.plots.len() - i,
            {
                if session.world.plots[i].status == PlotStatus::Ready {
                    assert(session.world.plots@[i as int].status == PlotStatus::Ready);
                    return true;
                }
                i = i + 1;
            }
            false
        },
        JobKind::Wood => session.economy.wood < config.worker_wood_reserve || session.progress.unlocked_plots
            < config.victory_plots,
        JobKind::Build => {
            let mut i: usize = 0;
            while i < session.world.buildings.len()
                invariant
                    i <= session.world.buildings@.len(),
                    priority == JobKind::Build,
                    forall|j: int| 0 <= j < i ==> (#[trigger] session.world.buildings@[j]).complete,
                decreases session.world.buildings.len() - i,
            {
                if !session.world.buildings[i].complete {
                    assert(!session.world.buildings@[i as int].complete);
                    return true;
                }
                i = i + 1;
            }
            false
        },
        JobKind::Refine => session.progress.production.is_some(),
    }
}

/// Worker `worker`, were it assigned to `job` and bound to no grave.
pub open spec fn as_if_assigned(worker: Worker, job: JobKind) -> Worker {
    Worker { assignment: job, target_plot: None, ..worker }
}

/// Worker `index`, assigned to `job`, would have a destination it can walk to.
pub open spec fn job_reachable(session: GameSession, index: int, job: JobKind) -> bool {
    &&& 0 <= index < session.workforce.workers@.len()
    &&& {
        let worker = as_if_assigned(session.workforce.workers@[index], job);
        match worker_dest(session, worker) {
            Some(destination) => routable(session.world, worker.position, destination),
            None => false,
        }
    }
}

fn assigned_copy(worker: &Worker, job: JobKind) -> (copy: Worker)
    ensures
        copy == as_if_assigned(*worker, job),
{
    Worker {
        id: worker.id,
        name: worker.name.clone(),
        kind: worker.kind,
        assignment: job,
        position: worker.position,
        status: worker.status,
        target_plot: None,
        carrying: worker.carrying,
        carrying_resource: worker.carrying_resource,
        priority_mode: worker.priority_mode,
        haul_plan: worker.haul_plan,
    }
}

/// Whether worker `index`, assigned to `job`, would have a destination it
/// can walk to.
pub fn has_reachable_destination(session: &GameSession, worker_index: usize, job: JobKind) -> (reachable: bool)
    requires
        grid_fits(session.world),
        work_tiles_fit(session.world),
    ensures
        reachable == job_reachable(*session, worker_index as int, job),
{
    if worker_index >= session.workforce.workers.len() {
        return false;
    }
    let worker = assigned_copy(&session.workforce.workers[worker_index], job);
    match destination_for_worker(session, &worker) {
        None => false,
        Some(destination) => route_exists(session, worker.position, destination),
    }
}

/// The first job of `priorities` with work to do that worker `index` cannot
/// reach.
pub open spec fn first_unreachable(
    session: GameSession,
    config: GameConfig,
    guard_called: bool,
    index: int,
    priorities: Seq<JobKind>,
) -> Option<JobKind>
    decreases priorities.len(),
{
    if priorities.len() == 0 {
        None
    } else if job_wanted(session, config, guard_called, priorities[0]) && !job_reachable(session, index, priorities[0]) {
        Some(priorities[0])
    } else {
        first_unreachable(session, config, guard_called, index, priorities.skip(1))
    }
}

/// The first priority with work to do that worker `index` cannot reach.
pub fn priority_route_skip(session: &GameSession, config: &GameConfig, guard_called: bool, worker_index: usize) -> (skipped:
    Option<JobKind>)
    requires
        grid_fits(session.world),
        work_tiles_fit(session.world),
    ensures
        skipped == first_unreachable(*session, *config, guard_called, worker_index as int, session.workforce.priorities@),
{
    let priorities = &session.workforce.priorities;
    let mut i: usize = 0;
    assert(priorities@.skip(0) == priorities@);
    while i < priorities.len()
        invariant
            i <= priorities@.len(),
            priorities@ == session.workforce.priorities@,
            grid_fits(session.world),
            work_tiles_fit(session.world),
            first_unreachable(*session, *config, guard_called, worker_index as int, priorities@) == first_unreachable(
                *session,
                *config,
                guard_called,
                worker_index as int,
                priorities@.skip(i as int),
            ),
        decreases priorities.len() - i,
    {
        let ghost rest = priorities@.skip(i as int);
        assert(rest[0] == priorities@[i as int]);
        assert(rest.skip(1) == priorities@.skip(i as int + 1));
        let job = priorities[i];
        if priority_available(session, config, guard_called, job) && !has_reachable_destination(
            session,
            worker_index,
            job,
        ) {
            return Some(job);
        }
        i = i + 1;
    }
    None
}

/// The jobs of `priorities` with work to do that worker `index` can reach,
/// in priority order.
pub open spec fn open_jobs(
    session: GameSession,
    config: GameConfig,
    guard_called: bool,
    index: int,
    priorities: Seq<JobKind>,
) -> Seq<JobKind>
    decreases priorities.len(),
{
    if priorities.len() == 0 {
        Seq::empty()
    } else {
        let kept = open_jobs(session, config, guard_called, index, priorities.drop_last());
        let job = priorities.last();
        if job_wanted(session, config, guard_called, job) && job_reachable(session, index, job) {
            kept.push(job)
        } else {
            kept
        }
    }
}

/// The job of `jobs` with the least stewardship bias, the first on a tie.
pub open spec fn least_biased(session: GameSession, jobs: Seq<JobKind>) -> Option<JobKind>
    decreases jobs.len(),
{
    if jobs.len() == 0 {
        None
    } else {
        match least_biased(session, jobs.drop_last()) {
            None => Some(jobs.last()),
            Some(best) => if bias_of(session, jobs.last()) < bias_of(session, best) {
                Some(jobs.last())
            } else {
                Some(best)
            },
        }
    }
}

/// The job automated worker `index` takes: among the priorities with work
/// to do that it can reach, the least biased one, else its current job.
pub open spec fn chosen_job(session: GameSession, config: GameConfig, guard_called: bool, index: int) -> JobKind {
    match least_biased(
        session,
        open_jobs(session, config, guard_called, index, session.workforce.priorities@),
    ) {
        Some(job) => job,
        None => session.workforce.workers@[index].assignment,
    }
}

pub fn choose_priority(session: &GameSession, config: &GameConfig, guard_called: bool, worker_index: usize) -> (job:
    JobKind)
    requires
        grid_fits(session.world),
        work_tiles_fit(session.world),
        worker_index < session.workforce.workers@.len(),
    ensures
        job == chosen_job(*session, *config, guard_called, worker_index as int),
{
    let priorities = &session.workforce.priorities;
    let mut available: Vec<JobKind> = Vec::new();
    let mut i: usize = 0;
    while i < priorities.len()
        invariant
            i <= priorities@.len(),
            priorities@ == session.workforce.priorities@,
            grid_fits(session.world),
            work_tiles_fit(session.world),
            available@ == open_jobs(*session, *config, guard_called, worker_index as int, priorities@.take(i as int)),
        decreases priorities.len() - i,
    {
        assert(priorities@.take(i as int + 1).drop_last() == priorities@.take(i as int));
        let job = priorities[i];
        if priority_available(session, config, guard_called, job) && has_reachable_destination(
            session,
            worker_index,
            job,
        ) {
            available.push(job);
        }
        i = i + 1;
    }
    assert(priorities@.take(i as int) == priorities@);
    let mut best: Option<JobKind> = None;
    let mut best_bias: usize = 0;
    let mut k: usize = 0;
    while k < available.len()
        invariant
            k <= available@.len(),
            best == least_biased(*session, available@.take(k as int)),
            best matches Some(b) ==> best_bias == bias_of(*session, b),
        decreases available.len() - k,
    {
        assert(available@.take(k as int + 1).drop_last() == available@.take(k as int));
        let job = available[k];
        let bias = policy_bias(session, job);
        match best {
            None => {
                best = Some(job);
                best_bias = bias;
            },
            Some(_) => {
                if bias < best_bias {
                    best = Some(job);
                    best_bias = bias;
                }
            },
        }
        k = k + 1;
    }
    assert(available@.take(k as int) == available@);
    match best {
        Some(job) => job,
        None => session.workforce.workers[worker_index].assignment,
    }
}

/// The district a job works in, if it works in one.
pub open spec fn district_of(job: JobKind) -> Option<ZoneKind> {
    match job {
        JobKind::Dig | JobKind::Wood => Some(ZoneKind::Work),
        JobKind::Haul => Some(ZoneKind::Storage),
        JobKind::Guard => Some(ZoneKind::Patrol),
        JobKind::Build | JobKind::Refine => None,
    }
}

/// An automated worker waits on a marked-only district: the job it skips
/// for want of a route works in a district whose policy is marked-only, and
/// it would find no destination there at all.
pub open spec fn marked_only_wait(session: GameSession, config: GameConfig, guard_called: bool, index: int) -> Option<
    (JobKind, ZoneKind),
> {
    if !session.research.completed@.contains(Technology::DomainStewardship) || index < 0 || index
        >= session.workforce.workers@.len() || !session.workforce.workers@[index].priority_mode {
        None
    } else {
        match first_unreachable(session, config, guard_called, index, session.workforce.priorities@) {
            None => None,
            Some(job) => match district_of(job) {
                None => None,
                Some(kind) => if session.world.route_policies.policy_of(kind) == RoutePolicy::MarkedOnly
                    && worker_dest(session, as_if_assigned(session.workforce.workers@[index], job)) is None {
                    Some((job, kind))
                } else {
                    None
                },
            },
        }
    }
}

pub fn marked_only_priority_wait(session: &GameSession, config: &GameConfig, guard_called: bool, worker_index: usize) -> (wait:
    Option<(JobKind, ZoneKind)>)
    requires
        grid_fits(session.world),
        work_tiles_fit(session.world),
    ensures
        wait == marked_only_wait(*session, *config, guard_called, worker_index as int),
{
    if !session.research.is_unlocked(Technology::DomainStewardship) {
        return None;
    }
    if worker_index >= session.workforce.workers.len() {
        return None;
    }
    if !session.workforce.workers[worker_index].priority_mode {
        return None;
    }
    let job = match priority_route_skip(session, config, guard_called, worker_index) {
        None => {
            return None;
        },
        Some(job) => job,
    };
    let kind = match job {
        JobKind::Dig | JobKind::Wood => ZoneKind::Work,
        JobKind::Haul => ZoneKind::Storage,
        JobKind::Guard => ZoneKind::Patrol,
        JobKind::Build | JobKind::Refine => {
            return None;
        },
    };
    if session.world.route_policies.for_kind(kind) != RoutePolicy::MarkedOnly {
        return None;
    }
    let hypothetical = assigned_copy(&session.workforce.workers[worker_index], job);
    if destination_for_worker(session, &hypothetical).is_none() {
        Some((job, kind))
    } else {
        None
    }
}

pub open spec fn skipped_message(name: Seq<char>, job: JobKind) -> Seq<char> {
    name + " skipped "@ + job_label(job) + ": no route."@
}

/// Lets automated worker `index` take the job its priorities call for. A
/// change of job sets its cargo down as loose material on its tile and lets
/// go of its grave, and is reported
/// when a higher priority had to be skipped for want of a route. Manual
/// workers keep their job.
pub fn automate_worker(session: &mut GameSession, config: &GameConfig, guard_called: bool, index: usize) -> (report:
    Option<String>)
    requires
        grid_fits(old(session).world),
        work_tiles_fit(old(session).world),
        index < old(session).workforce.workers@.len(),
        can_drop_cargo(*old(session), index),
    ensures
        ({
            let before = old(session).workforce.workers@[index as int];
            let after = final(session).workforce.workers@[index as int];
            let job = chosen_job(*old(session), *config, guard_called, index as int);
            let skipped = first_unreachable(
                *old(session),
                *config,
                guard_called,
                index as int,
                old(session).workforce.priorities@,
            );
            &&& !before.priority_mode ==> *final(session) == *old(session) && report is None
            &&& before.priority_mode && job == before.assignment ==> *final(session) == *old(session) && report is None
            &&& before.priority_mode && job != before.assignment ==> {
                &&& after.assignment == job
                &&& after.target_plot is None
                &&& after.carrying == 0
                &&& after.haul_plan is None
                &&& final(session).world.plots@ == released(old(session).world.plots@, before.target_plot)
                &&& final(session).world == (crate::world::WorldState {
                    plots: final(session).world.plots,
                    ..old(session).world
                })
                &&& cargo_dropped(old(session).economy, final(session).economy, before)
                &&& final(session).progress == old(session).progress
                &&& final(session).pressure == old(session).pressure
                &&& final(session).research == old(session).research
                &&& final(session).workforce.priorities@ == old(session).workforce.priorities@
                &&& final(session).workforce.selected_worker == old(session).workforce.selected_worker
                &&& final(session).stewardship_policy == old(session).stewardship_policy
                &&& final(session).phase == old(session).phase
                &&& (report is Some <==> skipped is Some)
                &&& skipped matches Some(s) ==> report matches Some(m) && m@ == skipped_message(before.name@, s)
                &&& final(session).workforce.workers@.len() == old(session).workforce.workers@.len()
                &&& forall|j: int|
                    0 <= j < old(session).workforce.workers@.len() && j != index
                        ==> final(session).workforce.workers@[j] == old(session).workforce.workers@[j]
            }
        }),
{
    if !session.workforce.workers[index].priority_mode {
        return None;
    }
    let previous = session.workforce.workers[index].assignment;
    let skipped = priority_route_skip(session, config, guard_called, index);
    let job = choose_priority(session, config, guard_called, index);
    if job == previous {
        return None;
    }
    let report = match skipped {
        Some(skipped_job) => {
            let mut message = session.workforce.workers[index].name.clone();
            push_str(&mut message, " skipped ");
            push_str(&mut message, skipped_job.label());
            push_str(&mut message, ": no route.");
            Some(message)
        },
        None => None,
    };
    drop_worker_cargo(session, index);
    let plot_id = session.workforce.workers[index].target_plot;
    release_plot(&mut session.world.plots, plot_id);
    session.workforce.workers[index].target_plot = None;
    session.workforce.workers[index].assignment = job;
    report
}

} // verus!

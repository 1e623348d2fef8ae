//! Worker orders: assignments, selection, automation and the shared
//! priority list.

use vstd::prelude::*;
use crate::kinds::{job_label, zone_label, BuildingKind, GamePhase, JobKind, PlotStatus, Technology, WorkerStatus, ZoneKind};
use crate::policies::{
    route_policy_description, route_policy_label, route_policy_next, stewardship_label, stewardship_next, RoutePolicy,
    StewardshipPolicy,
};
use crate::movement::{can_drop_cargo, cargo_dropped, drop_worker_cargo};
use crate::session::GameSession;
use crate::text_util::push_str;
use crate::workforce::normalized_priorities;
use crate::world::Plot;

verus! {

/// The plots after a worker lets go of `plot_id`: a plot being dug becomes
/// ready again.
pub open spec fn released(plots: Seq<Plot>, plot_id: Option<usize>) -> Seq<Plot> {
    match plot_id {
        Some(id) => if id < plots.len() && plots[id as int].status == PlotStatus::Digging {
            plots.update(id as int, Plot { status: PlotStatus::Ready, ..plots[id as int] })
        } else {
            plots
        },
        None => plots,
    }
}

pub(crate) fn release_plot(plots: &mut Vec<Plot>, plot_id: Option<usize>)
    ensures
        final(plots)@ == released(old(plots)@, plot_id),
{
    if let Some(id) = plot_id {
        if id < plots.len() && plots[id].status == PlotStatus::Digging {
            let mut plot = plots[id];
            plot.status = PlotStatus::Ready;
            plots.set(id, plot);
        }
    }
}

pub open spec fn assignment_message(name: Seq<char>, job: JobKind) -> Seq<char> {
    if job == JobKind::Wood {
        name + " assigned to Gather Wood. Reassign it to Haul when timber is loose."@
    } else {
        name + " assigned to "@ + job_label(job) + "."@
    }
}

/// The newest feed line reads `message`.
pub open spec fn newest_feed(session: GameSession, message: Seq<char>) -> bool {
    session.pressure.feed@.len() >= 1 && session.pressure.feed@[0].message@ == message
}

/// Assigns the selected worker to `job`. A change of job sets the cargo down
/// as loose material on the worker's tile,
/// lets go of its grave and reports the new duty in the feed.
pub fn assign_job(session: &mut GameSession, job: JobKind) -> (result: Result<(), String>)
    requires
        can_drop_cargo(*old(session), old(session).workforce.selected_worker),
    ensures
        job == JobKind::Refine && !old(session).built(BuildingKind::OssuaryKiln) ==> (result matches Err(m) && m@
            == "Complete an Ossuary Kiln before assigning Refine Wards."@) && *final(session) == *old(session),
        !(job == JobKind::Refine && !old(session).built(BuildingKind::OssuaryKiln)) && old(session).workforce.selected_worker
            >= old(session).workforce.workers@.len() ==> (result matches Err(m) && m@ == "No worker is selected."@)
            && *final(session) == *old(session),
        result is Ok <==> !(job == JobKind::Refine && !old(session).built(BuildingKind::OssuaryKiln))
            && old(session).workforce.selected_worker < old(session).workforce.workers@.len(),
        result is Ok && old(session).workforce.workers@[old(session).workforce.selected_worker as int].assignment == job
            ==> *final(session) == *old(session),
        result is Ok && old(session).workforce.workers@[old(session).workforce.selected_worker as int].assignment != job
            ==> {
            let i = old(session).workforce.selected_worker as int;
            let before = old(session).workforce.workers@[i];
            let after = final(session).workforce.workers@[i];
            &&& final(session).workforce.workers@.len() == old(session).workforce.workers@.len()
            &&& after.assignment == job
            &&& after.status == WorkerStatus::Idle
            &&& after.carrying == 0
            &&& after.carrying_resource is None
            &&& after.haul_plan is None
            &&& after.target_plot is None
            &&& after.name == before.name
            &&& after.position == before.position
            &&& forall|j: int|
                0 <= j < old(session).workforce.workers@.len() && j != i ==> final(session).workforce.workers@[j]
                    == old(session).workforce.workers@[j]
            &&& final(session).world.plots@ == released(old(session).world.plots@, before.target_plot)
            &&& final(session).world == (crate::world::WorldState {
                plots: final(session).world.plots,
                ..old(session).world
            })
            &&& cargo_dropped(old(session).economy, final(session).economy, before)
            &&& final(session).progress == old(session).progress
            &&& final(session).research == old(session).research
            &&& final(session).workforce.priorities@ == old(session).workforce.priorities@
            &&& newest_feed(*final(session), assignment_message(before.name@, job))
        },
{
    if job == JobKind::Refine && !session.has_building(BuildingKind::OssuaryKiln) {
        return Err(String::from_str("Complete an Ossuary Kiln before assigning Refine Wards."));
    }
    let index = session.workforce.selected_worker;
    if index >= session.workforce.workers.len() {
        return Err(String::from_str("No worker is selected."));
    }
    if session.workforce.workers[index].assignment == job {
        return Ok(());
    }
    drop_worker_cargo(session, index);
    let plot_id = session.workforce.workers[index].target_plot;
    session.workforce.workers[index].target_plot = None;
    release_plot(&mut session.world.plots, plot_id);
    let mut message = session.workforce.workers[index].name.clone();
    session.workforce.workers[index].assignment = job;
    session.workforce.workers[index].status = WorkerStatus::Idle;
    session.workforce.workers[index].carrying = 0;
    if job == JobKind::Wood {
        push_str(&mut message, " assigned to Gather Wood. Reassign it to Haul when timber is loose.");
    } else {
        push_str(&mut message, " assigned to ");
        push_str(&mut message, job.label());
        push_str(&mut message, ".");
    }
    session.add_feed(message);
    Ok(())
}

/// Selects the worker at `index` when there is one.
pub fn select_worker(session: &mut GameSession, index: usize)
    ensures
        index < old(session).workforce.workers@.len() ==> final(session).workforce.selected_worker == index,
        index >= old(session).workforce.workers@.len() ==> final(session).workforce.selected_worker == old(
            session,
        ).workforce.selected_worker,
        final(session).workforce.workers@ == old(session).workforce.workers@,
        final(session).world == old(session).world,
        final(session).economy == old(session).economy,
        final(session).research == old(session).research,
        final(session).pressure == old(session).pressure,
{
    if index < session.workforce.workers.len() {
        session.workforce.selected_worker = index;
    }
}

pub open spec fn automation_message(name: Seq<char>, priority_mode: bool) -> Seq<char> {
    name + " is now "@ + (if priority_mode { "following priorities"@ } else { "under direct orders"@ }) + "."@
}

/// `after` and `result` are what switching the selected worker's
/// automation makes of `before`.
pub open spec fn automation_switched(before: GameSession, after: GameSession, result: Result<(), String>) -> bool {
    &&& result is Ok <==> before.workforce.selected_worker < before.workforce.workers@.len()
    &&& result matches Err(m) ==> m@ == "No worker is selected."@ && after == before
    &&& result is Ok ==> {
        let i = before.workforce.selected_worker as int;
        let was = before.workforce.workers@[i];
        let now = after.workforce.workers@[i];
        &&& after.workforce.workers@.len() == before.workforce.workers@.len()
        &&& now.priority_mode == !was.priority_mode
        &&& now.target_plot is None
        &&& now.carrying == 0
        &&& now.haul_plan is None
        &&& now.assignment == was.assignment
        &&& now.name == was.name
        &&& forall|j: int|
            0 <= j < before.workforce.workers@.len() && j != i ==> after.workforce.workers@[j]
                == before.workforce.workers@[j]
        &&& after.world.plots@ == released(before.world.plots@, was.target_plot)
        &&& after.world == (crate::world::WorldState { plots: after.world.plots, ..before.world })
        &&& cargo_dropped(before.economy, after.economy, was)
        &&& after.progress == before.progress
        &&& after.research == before.research
        &&& after.workforce.priorities@ == before.workforce.priorities@
        &&& newest_feed(after, automation_message(was.name@, now.priority_mode))
    }
}

/// Switches the selected worker between direct orders and the shared
/// priorities; it drops its cargo and lets go of its grave.
pub fn toggle_automation(session: &mut GameSession) -> (result: Result<(), String>)
    requires
        can_drop_cargo(*old(session), old(session).workforce.selected_worker),
    ensures
        automation_switched(*old(session), *final(session), result),
{
    let index = session.workforce.selected_worker;
    if index >= session.workforce.workers.len() {
        return Err(String::from_str("No worker is selected."));
    }
    drop_worker_cargo(session, index);
    let plot_id = session.workforce.workers[index].target_plot;
    release_plot(&mut session.world.plots, plot_id);
    let mode = !session.workforce.workers[index].priority_mode;
    session.workforce.workers[index].priority_mode = mode;
    session.workforce.workers[index].target_plot = None;
    let mut message = session.workforce.workers[index].name.clone();
    push_str(&mut message, " is now ");
    if mode {
        push_str(&mut message, "following priorities");
    } else {
        push_str(&mut message, "under direct orders");
    }
    push_str(&mut message, ".");
    session.add_feed(message);
    Ok(())
}

/// The priority list with the entries at `a` and `b` exchanged.
pub open spec fn swapped(list: Seq<JobKind>, a: int, b: int) -> Seq<JobKind> {
    list.update(a, list[b]).update(b, list[a])
}

fn job_index(list: &Vec<JobKind>, job: JobKind) -> (index: Option<usize>)
    ensures
        match index {
            Some(i) => i < list@.len() && list@[i as int] == job && forall|j: int| 0 <= j < i ==> list@[j] != job,
            None => !list@.contains(job),
        },
{
    let mut i: usize = 0;
    while i < list.len()
        invariant
            i <= list@.len(),
            forall|j: int| 0 <= j < i ==> list@[j] != job,
        decreases list.len() - i,
    {
        if list[i] == job {
            return Some(i);
        }
        i = i + 1;
    }
    None
}

/// Where `job` sits in a repaired priority list.
pub open spec fn priority_index(list: Seq<JobKind>, job: JobKind) -> int {
    choose|i: int| 0 <= i < list.len() && list[i] == job
}

/// Moves `job` one place up (`direction` -1) or down (`direction` 1) in the
/// shared priority list, after repairing the list.
pub fn move_priority(session: &mut GameSession, job: JobKind, direction: i32) -> (result: Result<(), String>)
    ensures
        !old(session).research.completed@.contains(Technology::BindingRoutines) ==> (result matches Err(m) && m@
            == "Study Binding Routines before tuning worker priorities."@) && *final(session) == *old(session),
        old(session).research.completed@.contains(Technology::BindingRoutines) && direction != -1 && direction != 1
            ==> (result matches Err(m) && m@ == "Priority movement must be one step at a time."@) && *final(session)
            == *old(session),
        old(session).research.completed@.contains(Technology::BindingRoutines) && (direction == -1 || direction == 1)
            ==> {
            let list = normalized_priorities(old(session).workforce.priorities@);
            let i = priority_index(list, job);
            let j = i + direction;
            &&& 0 <= i < list.len()
            &&& list[i] == job
            &&& (result is Ok <==> 0 <= j < list.len())
            &&& result is Ok ==> final(session).workforce.priorities@ == swapped(list, i, j) && newest_feed(
                *final(session),
                job_label(job) + " moved in the worker priority list."@,
            )
            &&& result matches Err(m) ==> final(session).workforce.priorities@ == list && m@ == job_label(job) + (if direction
                < 0 {
                " is already the highest priority."@
            } else {
                " is already the lowest priority."@
            })
        },
        final(session).workforce.workers@ == old(session).workforce.workers@,
        final(session).world == old(session).world,
        final(session).economy == old(session).economy,
        final(session).research == old(session).research,
        final(session).progress == old(session).progress,
        final(session).pressure.stage == old(session).pressure.stage,
        final(session).pressure.active_event == old(session).pressure.active_event,
        final(session).pressure.event_history@ == old(session).pressure.event_history@,
        final(session).pressure.last_reason@ == old(session).pressure.last_reason@,
{
    if !session.research.is_unlocked(Technology::BindingRoutines) {
        return Err(String::from_str("Study Binding Routines before tuning worker priorities."));
    }
    if direction != -1 && direction != 1 {
        return Err(String::from_str("Priority movement must be one step at a time."));
    }
    session.workforce.normalize_priorities();
    proof {
        crate::workforce::lemma_normalized_is_permutation(old(session).workforce.priorities@);
    }
    let index = match job_index(&session.workforce.priorities, job) {
        Some(i) => i,
        None => {
            proof {
                assert(session.workforce.priorities@.contains(job));
            }
            return Err(String::from_str("That job is not in the priority list."));
        },
    };
    proof {
        let list = session.workforce.priorities@;
        let c = priority_index(list, job);
        assert(list[index as int] == job);
        if c != index as int {
            assert(list[c] == list[index as int]);
        }
    }
    let destination = if direction < 0 {
        if index == 0 {
            let mut message = String::from_str(job.label());
            push_str(&mut message, " is already the highest priority.");
            return Err(message);
        }
        index - 1
    } else {
        let destination = index + 1;
        if destination >= session.workforce.priorities.len() {
            let mut message = String::from_str(job.label());
            push_str(&mut message, " is already the lowest priority.");
            return Err(message);
        }
        destination
    };
    let first = session.workforce.priorities[index];
    let second = session.workforce.priorities[destination];
    session.workforce.priorities.set(index, second);
    session.workforce.priorities.set(destination, first);
    let mut message = String::from_str(job.label());
    push_str(&mut message, " moved in the worker priority list.");
    session.add_feed(message);
    Ok(())
}

/// Moving a job up and then down again restores the priority list.
pub proof fn lemma_move_up_then_down(list: Seq<JobKind>, i: int)
    requires
        1 <= i < list.len(),
    ensures
        swapped(swapped(list, i, i - 1), i - 1, i) == list,
{
    assert(swapped(swapped(list, i, i - 1), i - 1, i) =~= list);
}


// ---------------------------------------------------------------- policies

/// Policies change only during play, once Domain Stewardship is studied.
pub open spec fn policies_open(session: GameSession) -> bool {
    session.phase == GamePhase::Playing && session.research.completed@.contains(Technology::DomainStewardship)
}

pub open spec fn stewardship_message(policy: StewardshipPolicy) -> Seq<char> {
    "Stewardship policy: "@ + stewardship_label(policy) + "."@
}

pub open spec fn route_policy_message(kind: ZoneKind, policy: RoutePolicy) -> Seq<char> {
    zone_label(kind) + " route policy: "@ + route_policy_label(policy) + " \u{b7} "@ + route_policy_description(policy)
        + "."@
}

/// Moves the stewardship policy to the next one and notes it in the feed;
/// returns the new policy, or `None` (and changes nothing) while policies
/// are closed.
pub fn cycle_stewardship_policy(session: &mut GameSession) -> (policy: Option<StewardshipPolicy>)
    ensures
        !policies_open(*old(session)) ==> policy is None && *final(session) == *old(session),
        policies_open(*old(session)) ==> {
            &&& policy == Some(stewardship_next(old(session).stewardship_policy))
            &&& final(session).stewardship_policy == stewardship_next(old(session).stewardship_policy)
            &&& final(session).pressure.feed@.len() >= 1
            &&& final(session).pressure.feed@[0].message@ == stewardship_message(final(session).stewardship_policy)
            &&& final(session).world == old(session).world
            &&& final(session).workforce == old(session).workforce
            &&& final(session).economy == old(session).economy
            &&& final(session).progress == old(session).progress
            &&& final(session).research == old(session).research
            &&& final(session).phase == old(session).phase
        },
{
    if session.phase != GamePhase::Playing || !session.research.is_unlocked(Technology::DomainStewardship) {
        return None;
    }
    let next = session.stewardship_policy.next();
    session.stewardship_policy = next;
    let mut message = String::from_str("Stewardship policy: ");
    push_str(&mut message, next.label());
    push_str(&mut message, ".");
    session.add_feed(message);
    Some(next)
}

/// Moves the route policy of `kind` districts to the next one and notes it
/// in the feed; returns the new policy, or `None` (and changes nothing)
/// while policies are closed.
pub fn cycle_route_policy(session: &mut GameSession, kind: ZoneKind) -> (policy: Option<RoutePolicy>)
    ensures
        !policies_open(*old(session)) ==> policy is None && *final(session) == *old(session),
        policies_open(*old(session)) ==> {
            let next = route_policy_next(old(session).world.route_policies.policy_of(kind));
            &&& policy == Some(next)
            &&& final(session).world.route_policies.policy_of(kind) == next
            &&& forall|other: ZoneKind|
                other != kind ==> #[trigger] final(session).world.route_policies.policy_of(other)
                    == old(session).world.route_policies.policy_of(other)
            &&& final(session).world == (crate::world::WorldState {
                route_policies: final(session).world.route_policies,
                ..old(session).world
            })
            &&& final(session).pressure.feed@.len() >= 1
            &&& final(session).pressure.feed@[0].message@ == route_policy_message(kind, next)
            &&& final(session).workforce == old(session).workforce
            &&& final(session).economy == old(session).economy
            &&& final(session).progress == old(session).progress
            &&& final(session).research == old(session).research
            &&& final(session).stewardship_policy == old(session).stewardship_policy
            &&& final(session).phase == old(session).phase
        },
{
    if session.phase != GamePhase::Playing || !session.research.is_unlocked(Technology::DomainStewardship) {
        return None;
    }
    let next = session.world.route_policies.cycle(kind);
    let mut message = String::from_str(kind.label());
    push_str(&mut message, " route policy: ");
    push_str(&mut message, next.label());
    push_str(&mut message, " \u{b7} ");
    push_str(&mut message, next.description());
    push_str(&mut message, ".");
    session.add_feed(message);
    Some(next)
}


/// The player's automation order: refused with `locked` until Binding
/// Routines is studied, then switches the selected worker's automation.
pub fn request_automation_toggle(session: &mut GameSession, locked: &str) -> (result: Result<(), String>)
    requires
        can_drop_cargo(*old(session), old(session).workforce.selected_worker),
    ensures
        !old(session).research.completed@.contains(Technology::BindingRoutines) ==> (result matches Err(m) && m@
            == locked@) && *final(session) == *old(session),
        old(session).research.completed@.contains(Technology::BindingRoutines) ==> automation_switched(
            *old(session),
            *final(session),
            result,
        ),
{
    if !session.research.is_unlocked(Technology::BindingRoutines) {
        return Err(String::from_str(locked));
    }
    toggle_automation(session)
}

} // verus!

//! Derived operational alerts that point the player toward real blockers.

use vstd::prelude::*;
use crate::districts::{open_grave_at, open_grave_on, rule_active, rule_on, staffing_of, work_staffing};
use crate::kinds::{job_id, JobKind, PlotStatus, SuspicionStage, ZoneKind};
use crate::navigation::{grid_fits, route_exists, routable};
use crate::session::GameSession;
use crate::targets::{covered_posts, destination_for_worker, patrol_coverage, patrol_pool, work_tiles_fit, worker_dest};
use crate::text_util::{decimal, push_decimal, push_digits, push_str};
use crate::tile::TilePos;
use crate::workforce::Worker;
use crate::world::{zones_mark, Building, Plot, Selection, WorldState};

verus! {

#[derive(Debug, Clone, Copy, PartialEq, Eq, Structural)]
pub enum AlertSeverity {
    Critical,
    Warning,
    Info,
}

/// A blocker worth the player's attention and what to select for it.
#[derive(Debug, Clone)]
pub struct OperationalAlert {
    pub severity: AlertSeverity,
    pub title: &'static str,
    pub detail: String,
    pub target: Option<Selection>,
}

/// The first index of `workers` whose job is `job` (`holds`) or is not.
pub open spec fn first_worker_where(workers: Seq<Worker>, job: JobKind, holds: bool) -> Option<int>
    decreases workers.len(),
{
    if workers.len() == 0 {
        None
    } else if (workers[0].assignment == job) == holds {
        Some(0)
    } else {
        match first_worker_where(workers.skip(1), job, holds) {
            Some(i) => Some(i + 1),
            None => None,
        }
    }
}

pub open spec fn anyone_on(workers: Seq<Worker>, job: JobKind) -> bool {
    exists|i: int| 0 <= i < workers.len() && (#[trigger] workers[i]).assignment == job
}

pub open spec fn first_unfinished_building(buildings: Seq<Building>) -> Option<int>
    decreases buildings.len(),
{
    if buildings.len() == 0 {
        None
    } else if !buildings[0].complete {
        Some(0)
    } else {
        match first_unfinished_building(buildings.skip(1)) {
            Some(i) => Some(i + 1),
            None => None,
        }
    }
}

pub open spec fn first_building_of(buildings: Seq<Building>, kind: crate::kinds::BuildingKind) -> Option<int>
    decreases buildings.len(),
{
    if buildings.len() == 0 {
        None
    } else if buildings[0].kind == kind {
        Some(0)
    } else {
        match first_building_of(buildings.skip(1), kind) {
            Some(i) => Some(i + 1),
            None => None,
        }
    }
}

pub open spec fn first_ready_plot(plots: Seq<Plot>) -> Option<Plot>
    decreases plots.len(),
{
    if plots.len() == 0 {
        None
    } else if plots[0].status == PlotStatus::Ready {
        Some(plots[0])
    } else {
        first_ready_plot(plots.skip(1))
    }
}

pub open spec fn stage_text(stage: SuspicionStage) -> Seq<char> {
    match stage {
        SuspicionStage::Calm => "Calm"@,
        SuspicionStage::Rumour => "Rumour"@,
        SuspicionStage::Questioning => "Questioning"@,
        SuspicionStage::Investigation => "Investigation"@,
    }
}

/// Some worker carries material or is a hauler.
pub open spec fn hauling_covered(workers: Seq<Worker>) -> bool {
    exists|i: int|
        0 <= i < workers.len() && ((#[trigger] workers[i]).assignment == JobKind::Haul || workers[i].carrying > 0)
}

pub open spec fn materials_detail(bones: i32, wood: i32) -> Seq<char> {
    if bones > 0 && wood > 0 {
        decimal(bones as int) + " bones and "@ + decimal(wood as int) + " wood need a Haul order."@
    } else if bones > 0 {
        decimal(bones as int) + " loose bones need a Haul order."@
    } else {
        decimal(wood as int) + " loose wood need a Haul order."@
    }
}

/// One alert as (severity, title, detail, target).
pub type AlertView = (AlertSeverity, Seq<char>, Seq<char>, Option<Selection>);

pub open spec fn view_alert(alert: OperationalAlert) -> AlertView {
    (alert.severity, alert.title@, alert.detail@, alert.target)
}

pub open spec fn pressure_part(session: GameSession, pressure_percent: Option<Seq<char>>) -> Seq<AlertView> {
    match pressure_percent {
        None => Seq::empty(),
        Some(percent) => seq![
            (
                AlertSeverity::Critical,
                "Road pressure"@,
                stage_text(session.pressure.stage) + " at "@ + percent + "% \u{b7} assign Guards or spend a ward."@,
                match first_worker_where(session.workforce.workers@, JobKind::Guard, false) {
                    Some(i) => Some(Selection::Worker(i as usize)),
                    None => None,
                },
            ),
        ],
    }
}

pub open spec fn construction_part(session: GameSession) -> Seq<AlertView> {
    match first_unfinished_building(session.world.buildings@) {
        Some(i) if !anyone_on(session.workforce.workers@, JobKind::Build) => seq![
            (
                AlertSeverity::Warning,
                "Construction stalled"@,
                "Assign a worker to Build."@,
                Some(Selection::Building(i as usize)),
            ),
        ],
        _ => Seq::empty(),
    }
}

pub open spec fn production_part(session: GameSession) -> Seq<AlertView> {
    match session.progress.production {
        Some(order) if !anyone_on(session.workforce.workers@, JobKind::Refine) => seq![
            (
                AlertSeverity::Warning,
                "Kiln unattended"@,
                "Ward cycle loaded \u{b7} assign a Refine worker ("@ + decimal(session.progress.production_queue as int)
                    + " queued)."@,
                match first_building_of(session.world.buildings@, order.building) {
                    Some(i) => Some(Selection::Building(i as usize)),
                    None => None,
                },
            ),
        ],
        _ => Seq::empty(),
    }
}

pub open spec fn materials_part(session: GameSession) -> Seq<AlertView> {
    let economy = session.economy;
    if (economy.loose_bones > 0 || economy.loose_wood > 0) && !hauling_covered(session.workforce.workers@) {
        seq![
            (
                AlertSeverity::Warning,
                "Materials waiting"@,
                materials_detail(economy.loose_bones, economy.loose_wood),
                Some(
                    Selection::Ground(
                        match economy.loose_bones_source {
                            Some(t) => t,
                            None => match economy.loose_wood_source {
                                Some(t) => t,
                                None => session.world.stockpile_position,
                            },
                        },
                    ),
                ),
            ),
        ]
    } else {
        Seq::empty()
    }
}

pub open spec fn graves_part(session: GameSession) -> Seq<AlertView> {
    match first_ready_plot(session.world.plots@) {
        Some(plot) if !anyone_on(session.workforce.workers@, JobKind::Dig) => seq![
            (
                AlertSeverity::Info,
                "Grave work waiting"@,
                "An open plot needs a Dig order."@,
                Some(Selection::Grave(plot.id)),
            ),
        ],
        _ => Seq::empty(),
    }
}

/// `worker` heads for a tile that no walk from where it stands reaches.
pub open spec fn route_sealed(session: GameSession, worker: Worker) -> bool {
    match worker_dest(session, worker) {
        Some(d) => !routable(session.world, worker.position, d),
        None => false,
    }
}

/// The first of `workers` whose route is sealed.
pub open spec fn first_sealed(session: GameSession, workers: Seq<Worker>) -> Option<int>
    decreases workers.len(),
{
    if workers.len() == 0 {
        None
    } else {
        match first_sealed(session, workers.drop_last()) {
            Some(i) => Some(i),
            None => if route_sealed(session, workers.last()) {
                Some(workers.len() - 1)
            } else {
                None
            },
        }
    }
}

/// How many of `workers` have a sealed route.
pub open spec fn sealed_count(session: GameSession, workers: Seq<Worker>) -> nat
    decreases workers.len(),
{
    if workers.len() == 0 {
        0
    } else {
        sealed_count(session, workers.drop_last()) + if route_sealed(session, workers.last()) {
            1nat
        } else {
            0nat
        }
    }
}

pub open spec fn route_detail(worker: Worker, more: nat) -> Seq<char> {
    worker.name@ + " cannot reach its "@ + job_id(worker.assignment) + " target: obstructions seal the way"@ + (if more
        > 0 {
        " (+"@ + decimal(more as int) + " more blocked)"@
    } else {
        Seq::empty()
    }) + "."@
}

pub open spec fn route_part(session: GameSession) -> Seq<AlertView> {
    let workers = session.workforce.workers@;
    match first_sealed(session, workers) {
        Some(i) => seq![
            (
                AlertSeverity::Warning,
                "Route blocked"@,
                route_detail(workers[i], (sealed_count(session, workers) - 1) as nat),
                Some(Selection::Worker(i as usize)),
            ),
        ],
        None => Seq::empty(),
    }
}

pub open spec fn patrol_part(session: GameSession) -> Seq<AlertView> {
    let covered = covered_posts(session, session.workforce.workers@).len();
    let total = patrol_pool(session).len();
    if rule_on(session, ZoneKind::Patrol) && covered < total {
        seq![
            (
                AlertSeverity::Warning,
                "Patrol coverage"@,
                decimal(covered as int) + " of "@ + decimal(total as int) + " marked posts covered \u{b7} assign a Guard."@,
                match first_worker_where(session.workforce.workers@, JobKind::Guard, false) {
                    Some(i) => Some(Selection::Worker(i as usize)),
                    None => None,
                },
            ),
        ]
    } else {
        Seq::empty()
    }
}

/// The first of `plots` holding a grave being opened or ready to open on a
/// tile that a work district marks.
pub open spec fn marked_open_grave(world: WorldState, plots: Seq<Plot>) -> Option<Plot>
    decreases plots.len(),
{
    if plots.len() == 0 {
        None
    } else if (plots[0].status == PlotStatus::Ready || plots[0].status == PlotStatus::Digging) && zones_mark(
        world.zones@,
        ZoneKind::Work,
        plots[0].position,
    ) {
        Some(plots[0])
    } else {
        marked_open_grave(world, plots.skip(1))
    }
}

/// The first of `tiles` that a work district marks and no open grave holds.
pub open spec fn marked_forest(world: WorldState, tiles: Seq<TilePos>) -> Option<TilePos>
    decreases tiles.len(),
{
    if tiles.len() == 0 {
        None
    } else if zones_mark(world.zones@, ZoneKind::Work, tiles[0]) && !open_grave_at(world.plots@, tiles[0]) {
        Some(tiles[0])
    } else {
        marked_forest(world, tiles.skip(1))
    }
}

pub open spec fn work_part(session: GameSession) -> Seq<AlertView> {
    let world = session.world;
    let staffing = staffing_of(world, session.workforce.workers@);
    if !rule_on(session, ZoneKind::Work) {
        Seq::empty()
    } else if staffing.1 > 0 {
        match marked_open_grave(world, world.plots@) {
            Some(plot) => seq![
                (
                    AlertSeverity::Info,
                    "Work district idle"@,
                    "Marked Work has a ready grave \u{b7} assign Dig."@,
                    Some(Selection::Grave(plot.id)),
                ),
            ],
            None => Seq::empty(),
        }
    } else if staffing.2 > 0 {
        match marked_forest(world, world.forest_tiles@) {
            Some(tile) => seq![
                (
                    AlertSeverity::Info,
                    "Work district idle"@,
                    "Marked Work reaches the forest edge \u{b7} assign Wood."@,
                    Some(Selection::Ground(tile)),
                ),
            ],
            None => Seq::empty(),
        }
    } else {
        Seq::empty()
    }
}

/// The alerts for the current state, most pressing first: road pressure
/// (when `pressure_percent`, the caller's rendering of a suspicion past the
/// questioning threshold, is given), workers whose way is sealed, a stalled
/// construction, an unattended kiln, materials nobody hauls, marked patrol
/// posts no guard reaches, graves nobody digs and marked work nobody takes
/// up. A waiting pressure event silences them all.
pub open spec fn alerts_of(session: GameSession, pressure_percent: Option<Seq<char>>) -> Seq<AlertView> {
    if session.pressure.active_event is Some {
        Seq::empty()
    } else {
        pressure_part(session, pressure_percent) + route_part(session) + construction_part(session)
            + production_part(session) + materials_part(session) + patrol_part(session) + graves_part(session)
            + work_part(session)
    }
}

pub open spec fn optional_view(alert: Option<OperationalAlert>) -> Seq<AlertView> {
    match alert {
        Some(a) => seq![view_alert(a)],
        None => Seq::empty(),
    }
}

fn push_alert(alerts: &mut Vec<OperationalAlert>, alert: Option<OperationalAlert>)
    ensures
        final(alerts)@.map_values(|a: OperationalAlert| view_alert(a)) == old(alerts)@.map_values(
            |a: OperationalAlert| view_alert(a),
        ) + optional_view(alert),
{
    match alert {
        Some(a) => {
            alerts.push(a);
            assert(alerts@.map_values(|a: OperationalAlert| view_alert(a)) =~= old(alerts)@.map_values(
                |a: OperationalAlert| view_alert(a),
            ) + optional_view(Some(a)));
        },
        None => {
            assert(old(alerts)@.map_values(|a: OperationalAlert| view_alert(a)) + optional_view(alert) =~= old(
                alerts,
            )@.map_values(|a: OperationalAlert| view_alert(a)));
        },
    }
}

fn find_worker_where(workers: &Vec<Worker>, job: JobKind, holds: bool) -> (index: Option<usize>)
    ensures
        match index {
            Some(i) => first_worker_where(workers@, job, holds) == Some(i as int),
            None => first_worker_where(workers@, job, holds) is None,
        },
{
    let mut i: usize = 0;
    assert(workers@.skip(0) == workers@);
    while i < workers.len()
        invariant
            i <= workers@.len(),
            first_worker_where(workers@, job, holds) == match first_worker_where(workers@.skip(i as int), job, holds) {
                Some(k) => Some(k + i),
                None => None::<int>,
            },
        decreases workers.len() - i,
    {
        let ghost rest = workers@.skip(i as int);
        assert(rest[0] == workers@[i as int]);
        assert(rest.skip(1) == workers@.skip(i as int + 1));
        if (workers[i].assignment == job) == holds {
            assert(first_worker_where(rest, job, holds) == Some(0int));
            return Some(i);
        }
        i = i + 1;
    }
    None
}

fn find_unfinished(buildings: &Vec<Building>) -> (index: Option<usize>)
    ensures
        match index {
            Some(i) => first_unfinished_building(buildings@) == Some(i as int),
            None => first_unfinished_building(buildings@) is None,
        },
{
    let mut i: usize = 0;
    assert(buildings@.skip(0) == buildings@);
    while i < buildings.len()
        invariant
            i <= buildings@.len(),
            first_unfinished_building(buildings@) == match first_unfinished_building(buildings@.skip(i as int)) {
                Some(k) => Some(k + i),
                None => None::<int>,
            },
        decreases buildings.len() - i,
    {
        let ghost rest = buildings@.skip(i as int);
        assert(rest[0] == buildings@[i as int]);
        assert(rest.skip(1) == buildings@.skip(i as int + 1));
        if !buildings[i].complete {
            assert(first_unfinished_building(rest) == Some(0int));
            return Some(i);
        }
        i = i + 1;
    }
    None
}

fn find_building_of(buildings: &Vec<Building>, kind: crate::kinds::BuildingKind) -> (index: Option<usize>)
    ensures
        match index {
            Some(i) => first_building_of(buildings@, kind) == Some(i as int),
            None => first_building_of(buildings@, kind) is None,
        },
{
    let mut i: usize = 0;
    assert(buildings@.skip(0) == buildings@);
    while i < buildings.len()
        invariant
            i <= buildings@.len(),
            first_building_of(buildings@, kind) == match first_building_of(buildings@.skip(i as int), kind) {
                Some(k) => Some(k + i),
                None => None::<int>,
            },
        decreases buildings.len() - i,
    {
        let ghost rest = buildings@.skip(i as int);
        assert(rest[0] == buildings@[i as int]);
        assert(rest.skip(1) == buildings@.skip(i as int + 1));
        if buildings[i].kind == kind {
            assert(first_building_of(rest, kind) == Some(0int));
            return Some(i);
        }
        i = i + 1;
    }
    None
}

fn find_ready_plot(plots: &Vec<Plot>) -> (plot: Option<Plot>)
    ensures
        plot == first_ready_plot(plots@),
{
    let mut i: usize = 0;
    assert(plots@.skip(0) == plots@);
    while i < plots.len()
        invariant
            i <= plots@.len(),
            first_ready_plot(plots@) == first_ready_plot(plots@.skip(i as int)),
        decreases plots.len() - i,
    {
        let ghost rest = plots@.skip(i as int);
        assert(rest[0] == plots@[i as int]);
        assert(rest.skip(1) == plots@.skip(i as int + 1));
        if plots[i].status == PlotStatus::Ready {
            return Some(plots[i]);
        }
        i = i + 1;
    }
    None
}

fn someone_on(workers: &Vec<Worker>, job: JobKind) -> (found: bool)
    ensures
        found == anyone_on(workers@, job),
{
    let mut i: usize = 0;
    while i < workers.len()
        invariant
            i <= workers@.len(),
            forall|k: int| 0 <= k < i ==> (#[trigger] workers@[k]).assignment != job,
        decreases workers.len() - i,
    {
        if workers[i].assignment == job {
            assert(workers@[i as int].assignment == job);
            return true;
        }
        i = i + 1;
    }
    false
}

fn hauling_is_covered(workers: &Vec<Worker>) -> (found: bool)
    ensures
        found == hauling_covered(workers@),
{
    let mut i: usize = 0;
    while i < workers.len()
        invariant
            i <= workers@.len(),
            forall|k: int|
                0 <= k < i ==> !((#[trigger] workers@[k]).assignment == JobKind::Haul || workers@[k].carrying > 0),
        decreases workers.len() - i,
    {
        if workers[i].assignment == JobKind::Haul || workers[i].carrying > 0 {
            assert(workers@[i as int].assignment == JobKind::Haul || workers@[i as int].carrying > 0);
            return true;
        }
        i = i + 1;
    }
    false
}

fn alert_of(severity: AlertSeverity, title: &'static str, detail: String, target: Option<Selection>) -> (alert:
    OperationalAlert)
    ensures
        view_alert(alert) == (severity, title@, detail@, target),
{
    OperationalAlert { severity, title, detail, target }
}

fn pressure_alert(session: &GameSession, pressure_percent: Option<&str>) -> (alert: Option<OperationalAlert>)
    ensures
        optional_view(alert) == pressure_part(
            *session,
            match pressure_percent {
                Some(p) => Some(p@),
                None => None::<Seq<char>>,
            },
        ),
{
    match pressure_percent {
        None => None,
        Some(percent) => {
            let mut detail = String::new();
            push_str(
                &mut detail,
                match session.pressure.stage {
                    SuspicionStage::Calm => "Calm",
                    SuspicionStage::Rumour => "Rumour",
                    SuspicionStage::Questioning => "Questioning",
                    SuspicionStage::Investigation => "Investigation",
                },
            );
            push_str(&mut detail, " at ");
            push_str(&mut detail, percent);
            push_str(&mut detail, "% \u{b7} assign Guards or spend a ward.");
            let target = match find_worker_where(&session.workforce.workers, JobKind::Guard, false) {
                Some(i) => Some(Selection::Worker(i)),
                None => None,
            };
            Some(alert_of(AlertSeverity::Critical, "Road pressure", detail, target))
        },
    }
}

fn construction_alert(session: &GameSession) -> (alert: Option<OperationalAlert>)
    ensures
        optional_view(alert) == construction_part(*session),
{
    match find_unfinished(&session.world.buildings) {
        Some(index) => if !someone_on(&session.workforce.workers, JobKind::Build) {
            Some(
                alert_of(
                    AlertSeverity::Warning,
                    "Construction stalled",
                    String::from_str("Assign a worker to Build."),
                    Some(Selection::Building(index)),
                ),
            )
        } else {
            None
        },
        None => None,
    }
}

fn production_alert(session: &GameSession) -> (alert: Option<OperationalAlert>)
    ensures
        optional_view(alert) == production_part(*session),
{
    match session.progress.production {
        Some(order) => if !someone_on(&session.workforce.workers, JobKind::Refine) {
            let mut detail = String::from_str("Ward cycle loaded \u{b7} assign a Refine worker (");
            push_digits(&mut detail, session.progress.production_queue as u64);
            push_str(&mut detail, " queued).");
            let target = match find_building_of(&session.world.buildings, order.building) {
                Some(i) => Some(Selection::Building(i)),
                None => None,
            };
            Some(alert_of(AlertSeverity::Warning, "Kiln unattended", detail, target))
        } else {
            None
        },
        None => None,
    }
}

fn materials_alert(session: &GameSession) -> (alert: Option<OperationalAlert>)
    ensures
        optional_view(alert) == materials_part(*session),
{
    let economy = &session.economy;
    if (economy.loose_bones > 0 || economy.loose_wood > 0) && !hauling_is_covered(&session.workforce.workers) {
        let source = match economy.loose_bones_source {
            Some(t) => t,
            None => match economy.loose_wood_source {
                Some(t) => t,
                None => session.world.stockpile_position(),
            },
        };
        let mut detail = String::new();
        if economy.loose_bones > 0 && economy.loose_wood > 0 {
            push_decimal(&mut detail, economy.loose_bones as i64);
            push_str(&mut detail, " bones and ");
            push_decimal(&mut detail, economy.loose_wood as i64);
            push_str(&mut detail, " wood need a Haul order.");
        } else if economy.loose_bones > 0 {
            push_decimal(&mut detail, economy.loose_bones as i64);
            push_str(&mut detail, " loose bones need a Haul order.");
        } else {
            push_decimal(&mut detail, economy.loose_wood as i64);
            push_str(&mut detail, " loose wood need a Haul order.");
        }
        assert(detail@ =~= materials_detail(economy.loose_bones, economy.loose_wood));
        Some(alert_of(AlertSeverity::Warning, "Materials waiting", detail, Some(Selection::Ground(source))))
    } else {
        None
    }
}

fn graves_alert(session: &GameSession) -> (alert: Option<OperationalAlert>)
    ensures
        optional_view(alert) == graves_part(*session),
{
    match find_ready_plot(&session.world.plots) {
        Some(plot) => if !someone_on(&session.workforce.workers, JobKind::Dig) {
            Some(
                alert_of(
                    AlertSeverity::Info,
                    "Grave work waiting",
                    String::from_str("An open plot needs a Dig order."),
                    Some(Selection::Grave(plot.id)),
                ),
            )
        } else {
            None
        },
        None => None,
    }
}

fn route_alert(session: &GameSession) -> (alert: Option<OperationalAlert>)
    requires
        grid_fits(session.world),
        work_tiles_fit(session.world),
    ensures
        optional_view(alert) == route_part(*session),
{
    let workers = &session.workforce.workers;
    let mut first: Option<usize> = None;
    let mut count: usize = 0;
    let mut i: usize = 0;
    while i < workers.len()
        invariant
            i <= workers@.len(),
            workers@ == session.workforce.workers@,
            grid_fits(session.world),
            work_tiles_fit(session.world),
            count == sealed_count(*session, workers@.take(i as int)),
            count <= i,
            match first {
                Some(f) => f < i && first_sealed(*session, workers@.take(i as int)) == Some(f as int),
                None => first_sealed(*session, workers@.take(i as int)) is None,
            },
            first_sealed(*session, workers@.take(i as int)) is None <==> count == 0,
        decreases workers.len() - i,
    {
        assert(workers@.take(i as int + 1).drop_last() == workers@.take(i as int));
        assert(workers@.take(i as int + 1).last() == workers@[i as int]);
        let worker = &workers[i];
        let sealed = match destination_for_worker(session, worker) {
            Some(d) => !route_exists(session, worker.position, d),
            None => false,
        };
        if sealed {
            count = count + 1;
            if first.is_none() {
                first = Some(i);
            }
        }
        i = i + 1;
    }
    assert(workers@.take(i as int) == workers@);
    match first {
        Some(f) => {
            let worker = &workers[f];
            let mut detail = String::new();
            push_str(&mut detail, worker.name.as_str());
            push_str(&mut detail, " cannot reach its ");
            push_str(&mut detail, worker.assignment.id());
            push_str(&mut detail, " target: obstructions seal the way");
            let more = count - 1;
            if more > 0 {
                push_str(&mut detail, " (+");
                push_digits(&mut detail, more as u64);
                push_str(&mut detail, " more blocked)");
            }
            push_str(&mut detail, ".");
            assert(detail@ =~= route_detail(workers@[f as int], more as nat));
            Some(alert_of(AlertSeverity::Warning, "Route blocked", detail, Some(Selection::Worker(f))))
        },
        None => None,
    }
}

fn patrol_alert(session: &GameSession) -> (alert: Option<OperationalAlert>)
    requires
        grid_fits(session.world),
        work_tiles_fit(session.world),
    ensures
        optional_view(alert) == patrol_part(*session),
{
    if !rule_active(session, ZoneKind::Patrol) {
        return None;
    }
    let coverage = patrol_coverage(session);
    if coverage.covered_posts < coverage.total_posts {
        let mut detail = String::new();
        push_digits(&mut detail, coverage.covered_posts as u64);
        push_str(&mut detail, " of ");
        push_digits(&mut detail, coverage.total_posts as u64);
        push_str(&mut detail, " marked posts covered \u{b7} assign a Guard.");
        let target = match find_worker_where(&session.workforce.workers, JobKind::Guard, false) {
            Some(i) => Some(Selection::Worker(i)),
            None => None,
        };
        Some(alert_of(AlertSeverity::Warning, "Patrol coverage", detail, target))
    } else {
        None
    }
}

fn find_marked_open_grave(world: &WorldState) -> (plot: Option<Plot>)
    ensures
        plot == marked_open_grave(*world, world.plots@),
{
    let plots = &world.plots;
    let mut i: usize = 0;
    assert(plots@.skip(0) == plots@);
    while i < plots.len()
        invariant
            i <= plots@.len(),
            marked_open_grave(*world, world.plots@) == marked_open_grave(*world, plots@.skip(i as int)),
        decreases plots.len() - i,
    {
        let ghost rest = plots@.skip(i as int);
        assert(rest[0] == plots@[i as int]);
        assert(rest.skip(1) == plots@.skip(i as int + 1));
        let plot = plots[i];
        if (plot.status == PlotStatus::Ready || plot.status == PlotStatus::Digging) && world.zone_contains(
            ZoneKind::Work,
            plot.position,
        ) {
            return Some(plot);
        }
        i = i + 1;
    }
    None
}

fn find_marked_forest(world: &WorldState) -> (tile: Option<TilePos>)
    ensures
        tile == marked_forest(*world, world.forest_tiles@),
{
    let tiles = &world.forest_tiles;
    let mut i: usize = 0;
    assert(tiles@.skip(0) == tiles@);
    while i < tiles.len()
        invariant
            i <= tiles@.len(),
            marked_forest(*world, world.forest_tiles@) == marked_forest(*world, tiles@.skip(i as int)),
        decreases tiles.len() - i,
    {
        let ghost rest = tiles@.skip(i as int);
        assert(rest[0] == tiles@[i as int]);
        assert(rest.skip(1) == tiles@.skip(i as int + 1));
        let tile = tiles[i];
        if world.zone_contains(ZoneKind::Work, tile) && !open_grave_on(&world.plots, tile) {
            return Some(tile);
        }
        i = i + 1;
    }
    None
}

fn work_alert(session: &GameSession) -> (alert: Option<OperationalAlert>)
    ensures
        optional_view(alert) == work_part(*session),
{
    if !rule_active(session, ZoneKind::Work) {
        return None;
    }
    let staffing = work_staffing(session);
    if staffing.dig_gap > 0 {
        match find_marked_open_grave(&session.world) {
            Some(plot) => Some(
                alert_of(
                    AlertSeverity::Info,
                    "Work district idle",
                    String::from_str("Marked Work has a ready grave \u{b7} assign Dig."),
                    Some(Selection::Grave(plot.id)),
                ),
            ),
            None => None,
        }
    } else if staffing.wood_gap > 0 {
        match find_marked_forest(&session.world) {
            Some(tile) => Some(
                alert_of(
                    AlertSeverity::Info,
                    "Work district idle",
                    String::from_str("Marked Work reaches the forest edge \u{b7} assign Wood."),
                    Some(Selection::Ground(tile)),
                ),
            ),
            None => None,
        }
    } else {
        None
    }
}

/// The alerts for the current state, most pressing first.
/// `pressure_percent` is the caller's rendering of suspicion when it has
/// passed the questioning threshold, and `None` below it.
pub fn collect(session: &GameSession, pressure_percent: Option<&str>) -> (alerts: Vec<OperationalAlert>)
    requires
        grid_fits(session.world),
        work_tiles_fit(session.world),
    ensures
        alerts@.map_values(|a: OperationalAlert| view_alert(a)) == alerts_of(
            *session,
            match pressure_percent {
                Some(p) => Some(p@),
                None => None::<Seq<char>>,
            },
        ),
{
    let mut alerts: Vec<OperationalAlert> = Vec::new();
    assert(alerts@.map_values(|a: OperationalAlert| view_alert(a)) =~= Seq::<AlertView>::empty());
    if session.pressure.active_event.is_some() {
        return alerts;
    }
    push_alert(&mut alerts, pressure_alert(session, pressure_percent));
    push_alert(&mut alerts, route_alert(session));
    push_alert(&mut alerts, construction_alert(session));
    push_alert(&mut alerts, production_alert(session));
    push_alert(&mut alerts, materials_alert(session));
    push_alert(&mut alerts, patrol_alert(session));
    push_alert(&mut alerts, graves_alert(session));
    push_alert(&mut alerts, work_alert(session));
    alerts
}

} // verus!

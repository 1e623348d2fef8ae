//! Domain Stewardship rules applied by marked district tiles, and the
//! staffing those districts ask for.

use vstd::prelude::*;
use crate::data::DistrictRules;
use crate::economy::{clamp_i32, EconomyState};
use crate::kinds::{zone_label, JobKind, PlotStatus, Technology, ZoneKind};
use crate::policies::{stewardship_bias, StewardshipPolicy};
use crate::production::{sat_add_i32, sat_add_u32, saturating_add_i32};
use crate::session::{FeedEntry, GameSession, FEED_LIMIT};
use crate::text_util::{decimal, push_decimal, push_str};
use crate::tile::{tiles_contain, TilePos};
use crate::workforce::Worker;
use crate::world::{
    collect_district_tiles, district_tiles, lemma_toggled_tiles, toggled_tiles, zone_tile_allowed, zones_mark, Plot,
    WorldState, Zone,
};

verus! {

/// Marked, assigned and route-reachable service of one district kind.
#[derive(Debug, Clone, Copy, PartialEq, Eq, Structural)]
pub struct DistrictCoverage {
    pub marked: usize,
    pub assigned: usize,
    pub reachable: usize,
}

impl DistrictCoverage {
    /// Marked tiles that assigned workers could serve.
    pub fn needed(self) -> (needed: usize)
        ensures
            needed == if self.marked < self.assigned { self.marked } else { self.assigned },
    {
        if self.marked < self.assigned {
            self.marked
        } else {
            self.assigned
        }
    }
}

/// How marked work tiles and dig/wood workers pair up.
#[derive(Debug, Clone, Copy, PartialEq, Eq, Structural)]
pub struct WorkStaffing {
    pub staffed: usize,
    pub dig_gap: usize,
    pub wood_gap: usize,
    pub flexible_gap: usize,
}

/// The job a marked work tile calls for, if one in particular.
#[derive(Debug, Clone, Copy, PartialEq, Eq, Structural)]
pub enum WorkRole {
    Dig,
    Wood,
    Flexible,
}

/// A grave being opened or ready to open lies on `tile`.
pub open spec fn open_grave_at(plots: Seq<Plot>, tile: TilePos) -> bool {
    exists|i: int|
        0 <= i < plots.len() && (#[trigger] plots[i]).position == tile && (plots[i].status == PlotStatus::Ready
            || plots[i].status == PlotStatus::Digging)
}

pub open spec fn work_role(world: WorldState, tile: TilePos) -> WorkRole {
    if open_grave_at(world.plots@, tile) {
        WorkRole::Dig
    } else if world.forest_tiles@.contains(tile) {
        WorkRole::Wood
    } else {
        WorkRole::Flexible
    }
}

/// How many of `tiles` call for `role`.
pub open spec fn role_count(world: WorldState, tiles: Seq<TilePos>, role: WorkRole) -> nat
    decreases tiles.len(),
{
    if tiles.len() == 0 {
        0
    } else {
        role_count(world, tiles.drop_last(), role) + if work_role(world, tiles.last()) == role { 1nat } else { 0nat }
    }
}

/// How many workers hold `job`.
pub open spec fn job_count(workers: Seq<Worker>, job: JobKind) -> nat
    decreases workers.len(),
{
    if workers.len() == 0 {
        0
    } else {
        job_count(workers.drop_last(), job) + if workers.last().assignment == job { 1nat } else { 0nat }
    }
}

pub open spec fn min_nat(a: nat, b: nat) -> nat {
    if a < b { a } else { b }
}

pub open spec fn sub_nat(a: nat, b: nat) -> nat {
    if a >= b { (a - b) as nat } else { 0 }
}

/// Dig tiles take diggers, forest tiles take woodcutters, and any spare
/// digger or woodcutter covers a tile that calls for neither.
pub open spec fn staffing_of(world: WorldState, workers: Seq<Worker>) -> (nat, nat, nat, nat) {
    let tiles = district_tiles(world.zones@, ZoneKind::Work);
    let dig_slots = role_count(world, tiles, WorkRole::Dig);
    let wood_slots = role_count(world, tiles, WorkRole::Wood);
    let flexible_slots = role_count(world, tiles, WorkRole::Flexible);
    let diggers = job_count(workers, JobKind::Dig);
    let woodcutters = job_count(workers, JobKind::Wood);
    let staffed_dig = min_nat(dig_slots, diggers);
    let staffed_wood = min_nat(wood_slots, woodcutters);
    let spare = sub_nat(diggers, staffed_dig) + sub_nat(woodcutters, staffed_wood);
    let staffed_flexible = min_nat(flexible_slots, spare);
    (
        staffed_dig + staffed_wood + staffed_flexible,
        sub_nat(dig_slots, staffed_dig),
        sub_nat(wood_slots, staffed_wood),
        sub_nat(flexible_slots, staffed_flexible),
    )
}

/// The workers that serve a district kind regardless of marks.
pub open spec fn assigned_count(workers: Seq<Worker>, kind: ZoneKind) -> nat {
    match kind {
        ZoneKind::Work => job_count(workers, JobKind::Dig) + job_count(workers, JobKind::Wood),
        ZoneKind::Storage => job_count(workers, JobKind::Haul),
        ZoneKind::Patrol => job_count(workers, JobKind::Guard),
    }
}

pub open spec fn marked_count(session: GameSession, kind: ZoneKind) -> nat {
    district_tiles(session.world.zones@, kind).len()
}

/// Workers counted as staffing a district kind.
pub open spec fn operators(session: GameSession, kind: ZoneKind) -> nat {
    if kind == ZoneKind::Work && marked_count(session, kind) > 0 {
        staffing_of(session.world, session.workforce.workers@).0
    } else {
        assigned_count(session.workforce.workers@, kind)
    }
}

pub open spec fn gap(session: GameSession, kind: ZoneKind) -> nat {
    sub_nat(marked_count(session, kind), operators(session, kind))
}

/// Marked districts stay small enough to count in a machine word.
pub open spec fn districts_countable(session: GameSession) -> bool {
    &&& marked_count(session, ZoneKind::Work) + marked_count(session, ZoneKind::Storage) + marked_count(session, ZoneKind::Patrol) <= usize::MAX
}

/// The rules of a district kind act once Domain Stewardship is studied and
/// some zone of that kind marks a tile.
pub open spec fn rule_on(session: GameSession, kind: ZoneKind) -> bool {
    &&& session.research.completed@.contains(Technology::DomainStewardship)
    &&& exists|i: int|
        0 <= i < session.world.zones@.len() && (#[trigger] session.world.zones@[i]).kind == kind && session.world.zones@[i].tiles@.len() > 0
}

pub(crate) fn open_grave_on(plots: &Vec<Plot>, tile: TilePos) -> (found: bool)
    ensures
        found == open_grave_at(plots@, tile),
{
    let mut i: usize = 0;
    while i < plots.len()
        invariant
            i <= plots@.len(),
            forall|j: int|
                0 <= j < i ==> !((#[trigger] plots@[j]).position == tile && (plots@[j].status == PlotStatus::Ready
                    || plots@[j].status == PlotStatus::Digging)),
        decreases plots.len() - i,
    {
        if plots[i].position == tile && (plots[i].status == PlotStatus::Ready || plots[i].status
            == PlotStatus::Digging) {
            return true;
        }
        i = i + 1;
    }
    false
}

pub(crate) fn role_of(world: &WorldState, tile: TilePos) -> (role: WorkRole)
    ensures
        role == work_role(*world, tile),
{
    if open_grave_on(&world.plots, tile) {
        WorkRole::Dig
    } else if tiles_contain(&world.forest_tiles, tile) {
        WorkRole::Wood
    } else {
        WorkRole::Flexible
    }
}

fn count_job(workers: &Vec<Worker>, job: JobKind) -> (count: usize)
    ensures
        count == job_count(workers@, job),
{
    let mut count: usize = 0;
    let mut i: usize = 0;
    while i < workers.len()
        invariant
            i <= workers@.len(),
            count == job_count(workers@.take(i as int), job),
            count <= i,
        decreases workers.len() - i,
    {
        assert(workers@.take(i as int + 1).drop_last() == workers@.take(i as int));
        if workers[i].assignment == job {
            count = count + 1;
        }
        i = i + 1;
    }
    assert(workers@.take(i as int) == workers@);
    count
}

fn min_usize(a: usize, b: usize) -> (m: usize)
    ensures
        m == min_nat(a as nat, b as nat),
{
    if a < b {
        a
    } else {
        b
    }
}

fn sub_usize(a: usize, b: usize) -> (d: usize)
    ensures
        d == sub_nat(a as nat, b as nat),
{
    if a >= b {
        a - b
    } else {
        0
    }
}

proof fn lemma_role_count_bounded(world: WorldState, tiles: Seq<TilePos>)
    ensures
        role_count(world, tiles, WorkRole::Dig) + role_count(world, tiles, WorkRole::Wood) + role_count(
            world,
            tiles,
            WorkRole::Flexible,
        ) == tiles.len(),
    decreases tiles.len(),
{
    if tiles.len() > 0 {
        lemma_role_count_bounded(world, tiles.drop_last());
    }
}

proof fn lemma_job_counts_bounded(workers: Seq<Worker>)
    ensures
        job_count(workers, JobKind::Dig) + job_count(workers, JobKind::Wood) <= workers.len(),
    decreases workers.len(),
{
    if workers.len() > 0 {
        lemma_job_counts_bounded(workers.drop_last());
    }
}

/// How marked work tiles and dig/wood workers pair up.
pub fn work_staffing(session: &GameSession) -> (staffing: WorkStaffing)
    ensures
        staffing.staffed == staffing_of(session.world, session.workforce.workers@).0,
        staffing.dig_gap == staffing_of(session.world, session.workforce.workers@).1,
        staffing.wood_gap == staffing_of(session.world, session.workforce.workers@).2,
        staffing.flexible_gap == staffing_of(session.world, session.workforce.workers@).3,
{
    let tiles = collect_district_tiles(&session.world.zones, ZoneKind::Work);
    let mut dig_slots: usize = 0;
    let mut wood_slots: usize = 0;
    let mut flexible_slots: usize = 0;
    let mut i: usize = 0;
    while i < tiles.len()
        invariant
            i <= tiles@.len(),
            tiles@ == district_tiles(session.world.zones@, ZoneKind::Work),
            dig_slots == role_count(session.world, tiles@.take(i as int), WorkRole::Dig),
            wood_slots == role_count(session.world, tiles@.take(i as int), WorkRole::Wood),
            flexible_slots == role_count(session.world, tiles@.take(i as int), WorkRole::Flexible),
        decreases tiles.len() - i,
    {
        proof {
            assert(tiles@.take(i as int + 1).drop_last() == tiles@.take(i as int));
            lemma_role_count_bounded(session.world, tiles@.take(i as int + 1));
        }
        match role_of(&session.world, tiles[i]) {
            WorkRole::Dig => dig_slots = dig_slots + 1,
            WorkRole::Wood => wood_slots = wood_slots + 1,
            WorkRole::Flexible => flexible_slots = flexible_slots + 1,
        }
        i = i + 1;
    }
    assert(tiles@.take(i as int) == tiles@);
    let diggers = count_job(&session.workforce.workers, JobKind::Dig);
    let woodcutters = count_job(&session.workforce.workers, JobKind::Wood);
    proof {
        lemma_job_counts_bounded(session.workforce.workers@);
        assert(session.workforce.workers@.len() == session.workforce.workers.len());
    }
    let staffed_dig = min_usize(dig_slots, diggers);
    let staffed_wood = min_usize(wood_slots, woodcutters);
    let spare = sub_usize(diggers, staffed_dig) + sub_usize(woodcutters, staffed_wood);
    let staffed_flexible = min_usize(flexible_slots, spare);
    WorkStaffing {
        staffed: staffed_dig + staffed_wood + staffed_flexible,
        dig_gap: sub_usize(dig_slots, staffed_dig),
        wood_gap: sub_usize(wood_slots, staffed_wood),
        flexible_gap: sub_usize(flexible_slots, staffed_flexible),
    }
}

/// How many tiles zones of `kind` mark.
pub fn marked_tile_count(session: &GameSession, kind: ZoneKind) -> (count: usize)
    ensures
        count == marked_count(*session, kind),
{
    collect_district_tiles(&session.world.zones, kind).len()
}

fn assigned_operator_count(session: &GameSession, kind: ZoneKind) -> (count: usize)
    ensures
        count == assigned_count(session.workforce.workers@, kind),
{
    match kind {
        ZoneKind::Work => {
            let diggers = count_job(&session.workforce.workers, JobKind::Dig);
            let woodcutters = count_job(&session.workforce.workers, JobKind::Wood);
            proof {
                lemma_job_counts_bounded(session.workforce.workers@);
                assert(session.workforce.workers@.len() == session.workforce.workers.len());
            }
            diggers + woodcutters
        },
        ZoneKind::Storage => count_job(&session.workforce.workers, JobKind::Haul),
        ZoneKind::Patrol => count_job(&session.workforce.workers, JobKind::Guard),
    }
}

/// Workers counted as staffing a district kind: for marked work tiles the
/// paired dig and wood workers, otherwise every worker of the kind's jobs.
pub fn operator_count(session: &GameSession, kind: ZoneKind) -> (count: usize)
    ensures
        count == operators(*session, kind),
{
    if kind == ZoneKind::Work && marked_tile_count(session, kind) > 0 {
        work_staffing(session).staffed
    } else {
        assigned_operator_count(session, kind)
    }
}

/// Marked tiles of `kind` left without an operator.
pub fn staffing_gap(session: &GameSession, kind: ZoneKind) -> (missing: usize)
    ensures
        missing == gap(*session, kind),
        missing <= marked_count(*session, kind),
{
    sub_usize(marked_tile_count(session, kind), operator_count(session, kind))
}

/// Unstaffed marked tiles over all three district kinds.
pub fn total_staffing_gap(session: &GameSession) -> (missing: usize)
    requires
        districts_countable(*session),
    ensures
        missing == gap(*session, ZoneKind::Work) + gap(*session, ZoneKind::Storage) + gap(*session, ZoneKind::Patrol),
{
    staffing_gap(session, ZoneKind::Work) + staffing_gap(session, ZoneKind::Storage) + staffing_gap(
        session,
        ZoneKind::Patrol,
    )
}

pub(crate) fn rule_active(session: &GameSession, kind: ZoneKind) -> (active: bool)
    ensures
        active == rule_on(*session, kind),
{
    if !session.research.is_unlocked(Technology::DomainStewardship) {
        return false;
    }
    let mut i: usize = 0;
    while i < session.world.zones.len()
        invariant
            i <= session.world.zones@.len(),
            session.research.completed@.contains(Technology::DomainStewardship),
            forall|j: int|
                0 <= j < i ==> !((#[trigger] session.world.zones@[j]).kind == kind && session.world.zones@[j].tiles@.len() > 0),
        decreases session.world.zones.len() - i,
    {
        if session.world.zones[i].kind == kind && session.world.zones[i].tiles.len() > 0 {
            return true;
        }
        i = i + 1;
    }
    false
}

/// Extra haul capacity for a pickup bound for `tile`: the storage bonus
/// when `tile` is marked storage and the storage rule is active.
pub open spec fn haul_bonus_of(session: GameSession, rules: DistrictRules, tile: TilePos) -> i32 {
    if rule_on(session, ZoneKind::Storage) && zones_mark(session.world.zones@, ZoneKind::Storage, tile) {
        rules.storage_capacity_bonus
    } else {
        0
    }
}

/// Extra haul capacity for a pickup bound for `tile`.
pub fn haul_capacity_bonus(session: &GameSession, rules: &DistrictRules, tile: TilePos) -> (bonus: i32)
    ensures
        bonus == haul_bonus_of(*session, *rules, tile),
{
    if rule_active(session, ZoneKind::Storage) && session.world.zone_contains(ZoneKind::Storage, tile) {
        rules.storage_capacity_bonus
    } else {
        0
    }
}

proof fn lemma_i32_product_fits(a: i32, b: i32)
    ensures
        i64::MIN <= (a as int) * (b as int) <= i64::MAX,
{
    assert(-2147483648 <= a <= 2147483647);
    assert((a as int) * (b as int) <= 2147483648 * 2147483648) by (nonlinear_arith)
        requires
            -2147483648 <= a <= 2147483647,
            -2147483648 <= b <= 2147483647,
    ;
    assert((a as int) * (b as int) >= -2147483648 * 2147483647) by (nonlinear_arith)
        requires
            -2147483648 <= a <= 2147483647,
            -2147483648 <= b <= 2147483647,
    ;
}

/// Storage capacity, raised by every marked storage tile once the storage
/// rule is active; saturates at the `i32` bounds.
pub open spec fn capacity_of(session: GameSession, rules: DistrictRules) -> i32 {
    let marked: i32 = if rule_on(session, ZoneKind::Storage) {
        marked_count(session, ZoneKind::Storage) as i32
    } else {
        0
    };
    sat_add_i32(session.economy.storage_capacity, clamp_i32(marked * rules.storage_volume_per_tile))
}

pub fn storage_capacity(session: &GameSession, rules: &DistrictRules) -> (capacity: i32)
    ensures
        capacity == capacity_of(*session, *rules),
{
    let marked: i32 = if rule_active(session, ZoneKind::Storage) {
        #[verifier::truncate]
        (marked_tile_count(session, ZoneKind::Storage) as i32)
    } else {
        0
    };
    let volume: i32 = rules.storage_volume_per_tile;
    proof {
        lemma_i32_product_fits(marked, volume);
    }
    let product: i64 = marked as i64 * volume as i64;
    let extra: i32 = if product > i32::MAX as i64 {
        i32::MAX
    } else if product < i32::MIN as i64 {
        i32::MIN
    } else {
        product as i32
    };
    crate::production::saturating_add_i32(session.economy.storage_capacity, extra)
}

/// Free storage room under the district-adjusted capacity.
pub fn storage_space(session: &GameSession, rules: &DistrictRules) -> (space: i32)
    ensures
        space == session.economy.space_spec(capacity_of(*session, *rules)),
        space >= 0,
{
    session.economy.storage_space(storage_capacity(session, rules))
}

/// Domain Stewardship is studied and some marked district lacks staff.
pub fn staffing_needs_attention(session: &GameSession) -> (attention: bool)
    ensures
        attention == (session.research.completed@.contains(Technology::DomainStewardship) && (gap(*session, ZoneKind::Work)
            > 0 || gap(*session, ZoneKind::Storage) > 0 || gap(*session, ZoneKind::Patrol) > 0)),
{
    if !session.research.is_unlocked(Technology::DomainStewardship) {
        return false;
    }
    staffing_gap(session, ZoneKind::Work) > 0 || staffing_gap(session, ZoneKind::Storage) > 0 || staffing_gap(
        session,
        ZoneKind::Patrol,
    ) > 0
}

/// The preference an automated worker gives `job`: the stewardship bias,
/// and under Harvest with Domain Stewardship, staffing gaps of marked work
/// and storage come first.
pub open spec fn bias_of(session: GameSession, job: JobKind) -> usize {
    let baseline = stewardship_bias(session.stewardship_policy, job);
    if session.stewardship_policy != StewardshipPolicy::Harvest || !session.research.completed@.contains(
        Technology::DomainStewardship,
    ) {
        baseline
    } else {
        let staffing = staffing_of(session.world, session.workforce.workers@);
        let work_gap = gap(session, ZoneKind::Work) > 0;
        let storage_gap = gap(session, ZoneKind::Storage) > 0;
        if staffing.1 > 0 && job == JobKind::Dig {
            0
        } else if staffing.2 > 0 && job == JobKind::Wood {
            0
        } else if staffing.3 > 0 && (job == JobKind::Dig || job == JobKind::Wood) {
            0
        } else if storage_gap && job == JobKind::Haul {
            0
        } else if work_gap || storage_gap {
            if baseline == usize::MAX { usize::MAX } else { (baseline + 1) as usize }
        } else {
            baseline
        }
    }
}

pub fn policy_bias(session: &GameSession, job: JobKind) -> (bias: usize)
    ensures
        bias == bias_of(*session, job),
{
    let baseline = session.stewardship_policy.bias(job);
    if session.stewardship_policy != StewardshipPolicy::Harvest || !session.research.is_unlocked(
        Technology::DomainStewardship,
    ) {
        return baseline;
    }
    let staffing = work_staffing(session);
    let work_gap = staffing_gap(session, ZoneKind::Work) > 0;
    let storage_gap = staffing_gap(session, ZoneKind::Storage) > 0;
    if staffing.dig_gap > 0 && job == JobKind::Dig {
        return 0;
    }
    if staffing.wood_gap > 0 && job == JobKind::Wood {
        return 0;
    }
    if staffing.flexible_gap > 0 && (job == JobKind::Dig || job == JobKind::Wood) {
        return 0;
    }
    if storage_gap && job == JobKind::Haul {
        return 0;
    }
    if work_gap || storage_gap {
        baseline.saturating_add(1)
    } else {
        baseline
    }
}

pub open spec fn first_work_cycle_message() -> Seq<char> {
    "A marked Work tile completes its first accelerated cycle."@
}

pub open spec fn first_storage_bonus_message() -> Seq<char> {
    "Marked Storage gives a hauler extra room on its first pickup."@
}

/// The feed after `message` is announced as its newest line.
pub open spec fn announced(feed: Seq<FeedEntry>, message: Seq<char>) -> bool {
    &&& feed.len() >= 1
    &&& feed[0].message@ == message
}

/// Counts one accelerated cycle of a marked work tile; the first one ever
/// is announced in the feed.
pub fn record_work_cycle(session: &mut GameSession)
    ensures
        final(session).progress.district_ledger.work_cycles == sat_add_u32(
            old(session).progress.district_ledger.work_cycles,
            1,
        ),
        final(session).progress.district_ledger.storage_bonus_items
            == old(session).progress.district_ledger.storage_bonus_items,
        old(session).progress.district_ledger.work_cycles == 0 ==> announced(
            final(session).pressure.feed@,
            first_work_cycle_message(),
        ),
        old(session).progress.district_ledger.work_cycles != 0 ==> final(session).pressure.feed@
            == old(session).pressure.feed@,
        final(session).world == old(session).world,
        final(session).workforce == old(session).workforce,
        final(session).economy == old(session).economy,
        final(session).research == old(session).research,
{
    let first = session.progress.district_ledger.work_cycles == 0;
    session.progress.district_ledger.work_cycles = session.progress.district_ledger.work_cycles.saturating_add(1);
    if first {
        session.add_feed(String::from_str("A marked Work tile completes its first accelerated cycle."));
    }
}

/// `after` is `before` once `amount` extra hauled items were counted: the
/// ledger grows (saturating) and the first such pickup is announced; the
/// rest of the game is untouched. Nothing changes for `amount <= 0`.
pub open spec fn bonus_recorded(before: GameSession, after: GameSession, amount: i32) -> bool {
    &&& amount <= 0 ==> after == before
    &&& amount > 0 ==> after.progress.district_ledger.storage_bonus_items == sat_add_i32(
        before.progress.district_ledger.storage_bonus_items,
        amount,
    )
    &&& after.progress.district_ledger.work_cycles == before.progress.district_ledger.work_cycles
    &&& amount > 0 && before.progress.district_ledger.storage_bonus_items == 0 ==> announced(
        after.pressure.feed@,
        first_storage_bonus_message(),
    )
    &&& !(amount > 0 && before.progress.district_ledger.storage_bonus_items == 0) ==> after.pressure.feed@
        == before.pressure.feed@
    &&& after.pressure.stage == before.pressure.stage
    &&& after.pressure.active_event == before.pressure.active_event
    &&& after.pressure.event_history@ == before.pressure.event_history@
    &&& after.pressure.last_reason@ == before.pressure.last_reason@
    &&& after.world == before.world
    &&& after.workforce == before.workforce
    &&& after.economy == before.economy
    &&& after.research == before.research
    &&& after.phase == before.phase
    &&& after.progress == (crate::session::ProgressState {
        district_ledger: after.progress.district_ledger,
        ..before.progress
    })
}

/// Counts `amount` extra items a marked storage tile let a hauler carry; the
/// first such pickup is announced. Nothing is recorded for `amount <= 0`.
pub fn record_storage_bonus(session: &mut GameSession, amount: i32)
    ensures
        bonus_recorded(*old(session), *final(session), amount),
{
    if amount <= 0 {
        return;
    }
    let first = session.progress.district_ledger.storage_bonus_items == 0;
    session.progress.district_ledger.storage_bonus_items = saturating_add_i32(
        session.progress.district_ledger.storage_bonus_items,
        amount,
    );
    if first {
        session.add_feed(String::from_str("Marked Storage gives a hauler extra room on its first pickup."));
    }
}

/// Every marked work tile is staffed at most once, and the staffing never
/// exceeds the marked tiles nor the dig and wood workers.
pub proof fn lemma_work_staffing_bounded(world: WorldState, workers: Seq<Worker>)
    ensures
        staffing_of(world, workers).0 <= district_tiles(world.zones@, ZoneKind::Work).len(),
        staffing_of(world, workers).0 <= job_count(workers, JobKind::Dig) + job_count(workers, JobKind::Wood),
        staffing_of(world, workers).0 + staffing_of(world, workers).1 + staffing_of(world, workers).2
            + staffing_of(world, workers).3 == district_tiles(world.zones@, ZoneKind::Work).len(),
{
    lemma_role_count_bounded(world, district_tiles(world.zones@, ZoneKind::Work));
}

// ---------------------------------------------------------------- summaries

pub open spec fn count_text(n: nat) -> Seq<char> {
    crate::text_util::decimal(n as int)
}

/// `""` for one, `"s"` otherwise.
pub open spec fn plural(n: nat) -> Seq<char> {
    if n == 1 { ""@ } else { "s"@ }
}

pub open spec fn operations_text(session: GameSession) -> Seq<char> {
    let patrol_marks = marked_count(session, ZoneKind::Patrol);
    "Staffing (workers/marks): Work "@ + count_text(operators(session, ZoneKind::Work)) + "/"@ + count_text(
        marked_count(session, ZoneKind::Work),
    ) + " \u{b7} Storage "@ + count_text(operators(session, ZoneKind::Storage)) + "/"@ + count_text(
        marked_count(session, ZoneKind::Storage),
    ) + " \u{b7} Patrol "@ + count_text(operators(session, ZoneKind::Patrol)) + "/"@ + count_text(patrol_marks)
        + " post"@ + plural(patrol_marks)
}

pub open spec fn compact_operations_text(session: GameSession) -> Seq<char> {
    let total = gap(session, ZoneKind::Work) + gap(session, ZoneKind::Storage) + gap(session, ZoneKind::Patrol);
    "Staffing: W "@ + count_text(operators(session, ZoneKind::Work)) + "/"@ + count_text(
        marked_count(session, ZoneKind::Work),
    ) + " \u{b7} S "@ + count_text(operators(session, ZoneKind::Storage)) + "/"@ + count_text(
        marked_count(session, ZoneKind::Storage),
    ) + " \u{b7} P "@ + count_text(operators(session, ZoneKind::Patrol)) + "/"@ + count_text(
        marked_count(session, ZoneKind::Patrol),
    ) + " posts"@ + if total > 0 {
        " \u{b7} GAP "@ + count_text(total)
    } else {
        " \u{b7} OK"@
    }
}

fn push_count(s: &mut String, n: usize)
    ensures
        final(s)@ == old(s)@ + count_text(n as nat),
{
    crate::text_util::push_digits(s, n as u64);
}

fn push_plural(s: &mut String, n: usize)
    ensures
        final(s)@ == old(s)@ + plural(n as nat),
{
    if n == 1 {
        push_str(s, "");
    } else {
        push_str(s, "s");
    }
}

fn push_ratio(s: &mut String, label: &str, numerator: usize, denominator: usize)
    ensures
        final(s)@ == old(s)@ + label@ + count_text(numerator as nat) + "/"@ + count_text(denominator as nat),
{
    push_str(s, label);
    push_count(s, numerator);
    push_str(s, "/");
    push_count(s, denominator);
}

/// Workers against marks for each district.
pub fn operations_summary(session: &GameSession) -> (summary: String)
    ensures
        summary@ == operations_text(*session),
{
    let patrol_marks = marked_tile_count(session, ZoneKind::Patrol);
    let mut summary = String::new();
    push_ratio(
        &mut summary,
        "Staffing (workers/marks): Work ",
        operator_count(session, ZoneKind::Work),
        marked_tile_count(session, ZoneKind::Work),
    );
    push_ratio(
        &mut summary,
        " \u{b7} Storage ",
        operator_count(session, ZoneKind::Storage),
        marked_tile_count(session, ZoneKind::Storage),
    );
    push_ratio(&mut summary, " \u{b7} Patrol ", operator_count(session, ZoneKind::Patrol), patrol_marks);
    push_str(&mut summary, " post");
    push_plural(&mut summary, patrol_marks);
    assert(summary@ =~= operations_text(*session));
    summary
}

/// The staffing summary in short form.
pub fn compact_operations_summary(session: &GameSession) -> (summary: String)
    requires
        districts_countable(*session),
    ensures
        summary@ == compact_operations_text(*session),
{
    let total = total_staffing_gap(session);
    let mut summary = String::new();
    push_ratio(
        &mut summary,
        "Staffing: W ",
        operator_count(session, ZoneKind::Work),
        marked_tile_count(session, ZoneKind::Work),
    );
    push_ratio(
        &mut summary,
        " \u{b7} S ",
        operator_count(session, ZoneKind::Storage),
        marked_tile_count(session, ZoneKind::Storage),
    );
    push_ratio(
        &mut summary,
        " \u{b7} P ",
        operator_count(session, ZoneKind::Patrol),
        marked_tile_count(session, ZoneKind::Patrol),
    );
    push_str(&mut summary, " posts");
    if total > 0 {
        push_str(&mut summary, " \u{b7} GAP ");
        push_count(&mut summary, total);
    } else {
        push_str(&mut summary, " \u{b7} OK");
    }
    assert(summary@ =~= compact_operations_text(*session));
    summary
}

pub open spec fn storage_text(session: GameSession, rules: DistrictRules) -> Seq<char> {
    "Storage: "@ + crate::text_util::decimal(session.economy.stored_spec() as int) + "/"@ + crate::text_util::decimal(
        capacity_of(session, rules) as int,
    ) + " used \u{b7} "@ + crate::text_util::decimal(session.economy.space_spec(capacity_of(session, rules)) as int)
        + " room"@
}

/// Stored materials against the district-adjusted capacity.
pub fn storage_summary(session: &GameSession, rules: &DistrictRules) -> (summary: String)
    ensures
        summary@ == storage_text(*session, *rules),
{
    let capacity = storage_capacity(session, rules);
    let mut summary = String::from_str("Storage: ");
    crate::text_util::push_decimal(&mut summary, session.economy.stored_materials() as i64);
    push_str(&mut summary, "/");
    crate::text_util::push_decimal(&mut summary, capacity as i64);
    push_str(&mut summary, " used \u{b7} ");
    crate::text_util::push_decimal(&mut summary, storage_space(session, rules) as i64);
    push_str(&mut summary, " room");
    summary
}

/// `items` joined with `separator`.
pub open spec fn joined(items: Seq<Seq<char>>, separator: Seq<char>) -> Seq<char>
    decreases items.len(),
{
    if items.len() == 0 {
        Seq::empty()
    } else if items.len() == 1 {
        items[0]
    } else {
        joined(items.drop_last(), separator) + separator + items.last()
    }
}

proof fn lemma_joined_push(items: Seq<Seq<char>>, separator: Seq<char>, item: Seq<char>)
    ensures
        joined(items.push(item), separator) == joined(items, separator) + (if items.len() == 0 {
            Seq::<char>::empty()
        } else {
            separator
        }) + item,
{
    assert(items.push(item).drop_last() =~= items);
    if items.len() == 0 {
        assert(joined(items, separator) =~= Seq::<char>::empty());
        assert(Seq::<char>::empty() + Seq::<char>::empty() + item =~= item);
    }
}

fn push_joined_item(s: &mut String, index: usize, separator: &str, item: &str)
    ensures
        final(s)@ == old(s)@ + (if index == 0 { Seq::<char>::empty() } else { separator@ }) + item@,
{
    if index != 0 {
        push_str(s, separator);
    }
    push_str(s, item);
    assert(old(s)@ + Seq::<char>::empty() =~= old(s)@);
}

/// The district rules in force, with the caller's rendering of the work
/// and patrol percentages.
pub open spec fn rule_items(session: GameSession, rules: DistrictRules, work_percent: Seq<char>, patrol_percent: Seq<
    char,
>) -> Seq<Seq<char>> {
    let work = if rule_on(session, ZoneKind::Work) {
        seq!["Work +"@ + work_percent + "%"@]
    } else {
        Seq::empty()
    };
    let storage = if rule_on(session, ZoneKind::Storage) {
        seq![
            "Storage +"@ + crate::text_util::decimal(rules.storage_capacity_bonus as int),
        ]
    } else {
        Seq::empty()
    };
    let patrol = if rule_on(session, ZoneKind::Patrol) {
        seq!["Patrol +"@ + patrol_percent + "%"@]
    } else {
        Seq::empty()
    };
    work + storage + patrol
}

pub open spec fn rule_text(session: GameSession, rules: DistrictRules, work_percent: Seq<char>, patrol_percent: Seq<
    char,
>) -> Seq<char> {
    let items = rule_items(session, rules, work_percent, patrol_percent);
    if items.len() == 0 {
        "No district rules active \u{b7} mark a Work, Storage, or Patrol tile."@
    } else {
        "Rules: marked tiles \u{b7} "@ + joined(items, " \u{b7} "@)
    }
}

/// The district rules in force. `work_percent` and `patrol_percent` are
/// the caller's rendering of the work-speed and guard-mitigation bonuses.
pub fn rule_summary(session: &GameSession, rules: &DistrictRules, work_percent: &str, patrol_percent: &str) -> (summary:
    String)
    ensures
        summary@ == rule_text(*session, *rules, work_percent@, patrol_percent@),
{
    let ghost items = rule_items(*session, *rules, work_percent@, patrol_percent@);
    let work = rule_active(session, ZoneKind::Work);
    let storage = rule_active(session, ZoneKind::Storage);
    let patrol = rule_active(session, ZoneKind::Patrol);
    if !work && !storage && !patrol {
        return String::from_str("No district rules active \u{b7} mark a Work, Storage, or Patrol tile.");
    }
    let mut summary = String::from_str("Rules: marked tiles \u{b7} ");
    let ghost prefix = summary@;
    let mut count: usize = 0;
    let ghost done: Seq<Seq<char>> = Seq::empty();
    assert(summary@ =~= prefix + joined(done, " \u{b7} "@));
    if work {
        let mut item = String::from_str("Work +");
        push_str(&mut item, work_percent);
        push_str(&mut item, "%");
        proof {
            lemma_joined_push(done, " \u{b7} "@, item@);
        }
        push_joined_item(&mut summary, count, " \u{b7} ", item.as_str());
        proof {
            done = done.push(item@);
        }
        count = count + 1;
    }
    assert(count == done.len());
    assert(summary@ =~= prefix + joined(done, " \u{b7} "@));
    if storage {
        let mut item = String::from_str("Storage +");
        crate::text_util::push_decimal(&mut item, rules.storage_capacity_bonus as i64);
        proof {
            lemma_joined_push(done, " \u{b7} "@, item@);
        }
        push_joined_item(&mut summary, count, " \u{b7} ", item.as_str());
        proof {
            done = done.push(item@);
        }
        count = count + 1;
    }
    assert(count == done.len());
    assert(summary@ =~= prefix + joined(done, " \u{b7} "@));
    if patrol {
        let mut item = String::from_str("Patrol +");
        push_str(&mut item, patrol_percent);
        push_str(&mut item, "%");
        proof {
            lemma_joined_push(done, " \u{b7} "@, item@);
        }
        push_joined_item(&mut summary, count, " \u{b7} ", item.as_str());
        proof {
            done = done.push(item@);
        }
        count = count + 1;
    }
    assert(done =~= items);
    summary
}

/// The district kinds marking `tile`, in the order work, storage, patrol.
pub open spec fn kinds_at(session: GameSession, tile: TilePos) -> Seq<ZoneKind> {
    let zones = session.world.zones@;
    (if zones_mark(zones, ZoneKind::Work, tile) { seq![ZoneKind::Work] } else { Seq::empty() }) + (if zones_mark(
        zones,
        ZoneKind::Storage,
        tile,
    ) {
        seq![ZoneKind::Storage]
    } else {
        Seq::empty()
    }) + (if zones_mark(zones, ZoneKind::Patrol, tile) { seq![ZoneKind::Patrol] } else { Seq::empty() })
}

pub open spec fn tile_detail(
    session: GameSession,
    rules: DistrictRules,
    work_percent: Seq<char>,
    patrol_percent: Seq<char>,
    kind: ZoneKind,
) -> Seq<char> {
    if !session.research.completed@.contains(Technology::DomainStewardship) {
        "Domain Stewardship will activate its local rule."@
    } else {
        match kind {
            ZoneKind::Work => "+"@ + work_percent + "% Dig/Wood speed here."@,
            ZoneKind::Storage => "+"@ + crate::text_util::decimal(rules.storage_capacity_bonus as int)
                + " Haul capacity here."@,
            ZoneKind::Patrol => "+"@ + patrol_percent + "% Guard mitigation here."@,
        }
    }
}

pub open spec fn tile_line(
    session: GameSession,
    rules: DistrictRules,
    work_percent: Seq<char>,
    patrol_percent: Seq<char>,
    kind: ZoneKind,
) -> Seq<char> {
    let count = marked_count(session, kind);
    crate::kinds::zone_label(kind) + " district \u{b7} "@ + count_text(count) + " marked tile"@ + plural(count)
        + " \u{b7} "@ + tile_detail(session, rules, work_percent, patrol_percent, kind)
}

/// What the districts marking `tile` do there; `None` when nothing marks it.
pub open spec fn tile_text(
    session: GameSession,
    rules: DistrictRules,
    work_percent: Seq<char>,
    patrol_percent: Seq<char>,
    tile: TilePos,
) -> Option<Seq<char>> {
    let kinds = kinds_at(session, tile);
    if kinds.len() == 0 {
        None
    } else if !session.research.completed@.contains(Technology::DomainStewardship) && kinds.len() > 1 {
        Some(
            joined(kinds.map_values(|k: ZoneKind| crate::kinds::zone_label(k) + " district"@), " + "@)
                + " \u{b7} Domain Stewardship will activate their local rules."@,
        )
    } else {
        Some(
            joined(
                kinds.map_values(|k: ZoneKind| tile_line(session, rules, work_percent, patrol_percent, k)),
                "\n"@,
            ),
        )
    }
}

fn tile_line_text(session: &GameSession, rules: &DistrictRules, work_percent: &str, patrol_percent: &str, kind: ZoneKind) -> (line:
    String)
    ensures
        line@ == tile_line(*session, *rules, work_percent@, patrol_percent@, kind),
{
    let count = marked_tile_count(session, kind);
    let mut line = String::from_str(kind.label());
    push_str(&mut line, " district \u{b7} ");
    push_count(&mut line, count);
    push_str(&mut line, " marked tile");
    push_plural(&mut line, count);
    push_str(&mut line, " \u{b7} ");
    if !session.research.is_unlocked(Technology::DomainStewardship) {
        push_str(&mut line, "Domain Stewardship will activate its local rule.");
    } else {
        match kind {
            ZoneKind::Work => {
                push_str(&mut line, "+");
                push_str(&mut line, work_percent);
                push_str(&mut line, "% Dig/Wood speed here.");
            },
            ZoneKind::Storage => {
                push_str(&mut line, "+");
                crate::text_util::push_decimal(&mut line, rules.storage_capacity_bonus as i64);
                push_str(&mut line, " Haul capacity here.");
            },
            ZoneKind::Patrol => {
                push_str(&mut line, "+");
                push_str(&mut line, patrol_percent);
                push_str(&mut line, "% Guard mitigation here.");
            },
        }
    }
    assert(line@ =~= tile_line(*session, *rules, work_percent@, patrol_percent@, kind));
    line
}

/// What the districts marking `tile` do there. `work_percent` and
/// `patrol_percent` are the caller's rendering of the work-speed and
/// guard-mitigation bonuses.
pub fn tile_summary(
    session: &GameSession,
    rules: &DistrictRules,
    work_percent: &str,
    patrol_percent: &str,
    tile: TilePos,
) -> (summary: Option<String>)
    ensures
        match summary {
            Some(s) => tile_text(*session, *rules, work_percent@, patrol_percent@, tile) == Some(s@),
            None => tile_text(*session, *rules, work_percent@, patrol_percent@, tile) is None,
        },
{
    let ghost kinds_spec = kinds_at(*session, tile);
    let mut kinds: Vec<ZoneKind> = Vec::new();
    if session.world.zone_contains(ZoneKind::Work, tile) {
        kinds.push(ZoneKind::Work);
    }
    if session.world.zone_contains(ZoneKind::Storage, tile) {
        kinds.push(ZoneKind::Storage);
    }
    if session.world.zone_contains(ZoneKind::Patrol, tile) {
        kinds.push(ZoneKind::Patrol);
    }
    assert(kinds@ =~= kinds_spec);
    if kinds.len() == 0 {
        return None;
    }
    let unlocked = session.research.is_unlocked(Technology::DomainStewardship);
    let mut summary = String::new();
    let ghost done: Seq<Seq<char>> = Seq::empty();
    let mut i: usize = 0;
    if !unlocked && kinds.len() > 1 {
        let ghost labels = kinds@.map_values(|k: ZoneKind| crate::kinds::zone_label(k) + " district"@);
        while i < kinds.len()
            invariant
                i <= kinds@.len(),
                labels == kinds@.map_values(|k: ZoneKind| crate::kinds::zone_label(k) + " district"@),
                done == labels.take(i as int),
                summary@ == joined(done, " + "@),
            decreases kinds.len() - i,
        {
            let mut item = String::from_str(kinds[i].label());
            push_str(&mut item, " district");
            proof {
                lemma_joined_push(done, " + "@, item@);
            }
            push_joined_item(&mut summary, i, " + ", item.as_str());
            proof {
                assert(labels.take(i as int + 1) =~= labels.take(i as int).push(item@));
                done = done.push(item@);
            }
            i = i + 1;
        }
        assert(labels.take(i as int) =~= labels);
        push_str(&mut summary, " \u{b7} Domain Stewardship will activate their local rules.");
        return Some(summary);
    }
    let ghost lines = kinds@.map_values(|k: ZoneKind| tile_line(*session, *rules, work_percent@, patrol_percent@, k));
    while i < kinds.len()
        invariant
            i <= kinds@.len(),
            lines == kinds@.map_values(|k: ZoneKind| tile_line(*session, *rules, work_percent@, patrol_percent@, k)),
            done == lines.take(i as int),
            summary@ == joined(done, "\n"@),
        decreases kinds.len() - i,
    {
        let item = tile_line_text(session, rules, work_percent, patrol_percent, kinds[i]);
        proof {
            lemma_joined_push(done, "\n"@, item@);
        }
        push_joined_item(&mut summary, i, "\n", item.as_str());
        proof {
            assert(lines.take(i as int + 1) =~= lines.take(i as int).push(item@));
            done = done.push(item@);
        }
        i = i + 1;
    }
    assert(lines.take(i as int) =~= lines);
    Some(summary)
}


// ---------------------------------------------------------------- painting

/// A zone as its kind and marked tiles.
pub type ZoneView = (ZoneKind, Seq<TilePos>);

pub open spec fn zones_view(zones: Seq<Zone>) -> Seq<ZoneView> {
    zones.map_values(|z: Zone| (z.kind, z.tiles@))
}

/// The index of the first zone of `kind`.
pub open spec fn first_of_kind(view: Seq<ZoneView>, kind: ZoneKind) -> Option<int>
    decreases view.len(),
{
    if view.len() == 0 {
        None
    } else if view[0].0 == kind {
        Some(0)
    } else {
        match first_of_kind(view.skip(1), kind) {
            Some(i) => Some(i + 1),
            None => None,
        }
    }
}

/// The zones of other kinds, in order.
pub open spec fn without_kind(view: Seq<ZoneView>, kind: ZoneKind) -> Seq<ZoneView>
    decreases view.len(),
{
    if view.len() == 0 {
        Seq::empty()
    } else {
        (if view[0].0 == kind {
            Seq::empty()
        } else {
            seq![view[0]]
        }) + without_kind(view.skip(1), kind)
    }
}

/// The zones once `tile` is painted with `kind`: a new zone when none of
/// that kind exists, else the tile toggled in the first such zone; a zone
/// left without tiles takes every zone of its kind with it.
pub open spec fn painted_zones(view: Seq<ZoneView>, kind: ZoneKind, tile: TilePos) -> Seq<ZoneView> {
    match first_of_kind(view, kind) {
        None => view.push((kind, seq![tile])),
        Some(i) => {
            let tiles = toggled_tiles(view[i].1, tile);
            if tiles.len() == 0 {
                without_kind(view, kind)
            } else {
                view.update(i, (kind, tiles))
            }
        },
    }
}

/// Painting is refused on a tile that is neither marked with the kind
/// already nor open to marking.
pub open spec fn paint_refused(world: WorldState, kind: ZoneKind, tile: TilePos) -> bool {
    !zones_mark(world.zones@, kind, tile) && !zone_tile_allowed(world, tile)
}

/// Whether painting clears the tile rather than marking it.
pub open spec fn paint_clears(view: Seq<ZoneView>, kind: ZoneKind, tile: TilePos) -> bool {
    match first_of_kind(view, kind) {
        Some(i) => view[i].1.contains(tile),
        None => false,
    }
}

pub open spec fn paint_message(kind: ZoneKind, cleared: bool, tile: TilePos) -> Seq<char> {
    zone_label(kind) + " zone "@ + (if cleared {
        "cleared"@
    } else {
        "marked"@
    }) + " at "@ + decimal(tile.x + 1) + ", "@ + decimal(tile.y + 1) + "."@
}

proof fn lemma_without_kind_skips(view: Seq<ZoneView>, kind: ZoneKind, i: int)
    requires
        0 <= i < view.len(),
        view[i].0 == kind,
    ensures
        without_kind(view.remove(i), kind) == without_kind(view, kind),
    decreases i,
{
    if i == 0 {
        assert(view.remove(0) =~= view.skip(1));
    } else {
        let rest = view.skip(1);
        lemma_without_kind_skips(rest, kind, i - 1);
        assert(view.remove(i)[0] == view[0]);
        assert(view.remove(i).skip(1) =~= rest.remove(i - 1));
    }
}

fn first_zone_of(zones: &Vec<Zone>, kind: ZoneKind) -> (index: Option<usize>)
    ensures
        match index {
            Some(i) => i < zones@.len() && zones@[i as int].kind == kind && first_of_kind(zones_view(zones@), kind)
                == Some(i as int),
            None => first_of_kind(zones_view(zones@), kind) is None,
        },
{
    let ghost view = zones_view(zones@);
    let mut i: usize = 0;
    assert(view.skip(0) =~= view);
    while i < zones.len()
        invariant
            i <= zones@.len(),
            view == zones_view(zones@),
            view.len() == zones@.len(),
            first_of_kind(view, kind) == match first_of_kind(view.skip(i as int), kind) {
                Some(k) => Some(k + i),
                None => None::<int>,
            },
        decreases zones.len() - i,
    {
        let ghost rest = view.skip(i as int);
        assert(rest[0] == view[i as int]);
        assert(rest.skip(1) =~= view.skip(i as int + 1));
        if zones[i].kind == kind {
            assert(first_of_kind(rest, kind) == Some(0int));
            return Some(i);
        }
        i = i + 1;
    }
    None
}

fn drop_kind(zones: Vec<Zone>, kind: ZoneKind) -> (kept: Vec<Zone>)
    ensures
        zones_view(kept@) == without_kind(zones_view(zones@), kind),
{
    let ghost whole = zones_view(zones@);
    let mut rest = zones;
    let mut kept: Vec<Zone> = Vec::new();
    assert(zones_view(kept@) + without_kind(zones_view(rest@), kind) =~= without_kind(whole, kind));
    while rest.len() > 0
        invariant
            zones_view(kept@) + without_kind(zones_view(rest@), kind) == without_kind(whole, kind),
        decreases rest.len(),
    {
        let ghost before = rest@;
        let zone = rest.remove(0);
        assert(zones_view(before)[0] == (zone.kind, zone.tiles@));
        assert(zones_view(before).skip(1) =~= zones_view(rest@));
        let ghost kept_before = kept@;
        if zone.kind != kind {
            kept.push(zone);
            assert(zones_view(kept@) =~= zones_view(kept_before) + seq![zones_view(before)[0]]);
        }
        assert(zones_view(kept@) + without_kind(zones_view(rest@), kind) =~= zones_view(kept_before) + without_kind(
            zones_view(before),
            kind,
        ));
    }
    assert(zones_view(rest@) =~= Seq::<ZoneView>::empty());
    assert(zones_view(kept@) =~= zones_view(kept@) + without_kind(zones_view(rest@), kind));
    kept
}

fn push_paint_message(message: &mut String, kind: ZoneKind, cleared: bool, tile: TilePos)
    ensures
        final(message)@ == old(message)@ + paint_message(kind, cleared, tile),
{
    push_str(message, kind.label());
    push_str(message, " zone ");
    push_str(message, if cleared { "cleared" } else { "marked" });
    push_str(message, " at ");
    push_decimal(message, tile.x as i64 + 1);
    push_str(message, ", ");
    push_decimal(message, tile.y as i64 + 1);
    push_str(message, ".");
}

/// Paints `tile` with a district of `kind`, or clears it when that kind
/// already marks it, and notes the change in the feed. Returns whether the
/// tile was cleared, or `None` when the tile can be neither marked nor
/// cleared (nothing changes then).
pub fn paint_zone(session: &mut GameSession, kind: ZoneKind, tile: TilePos) -> (outcome: Option<bool>)
    ensures
        paint_refused(old(session).world, kind, tile) ==> outcome is None && *final(session) == *old(session),
        !paint_refused(old(session).world, kind, tile) ==> {
            let view = zones_view(old(session).world.zones@);
            &&& outcome == Some(paint_clears(view, kind, tile))
            &&& zones_view(final(session).world.zones@) == painted_zones(view, kind, tile)
            &&& final(session).world == (WorldState { zones: final(session).world.zones, ..old(session).world })
            &&& final(session).pressure.feed@.len() >= 1
            &&& final(session).pressure.feed@[0].message@ == paint_message(kind, paint_clears(view, kind, tile), tile)
            &&& final(session).workforce == old(session).workforce
            &&& final(session).economy == old(session).economy
            &&& final(session).progress == old(session).progress
            &&& final(session).research == old(session).research
            &&& final(session).phase == old(session).phase
        },
{
    if !session.world.zone_contains(kind, tile) && !session.world.is_zone_tile_allowed(tile) {
        return None;
    }
    let ghost view = zones_view(session.world.zones@);
    let cleared = match first_zone_of(&session.world.zones, kind) {
        None => {
            let mut tiles: Vec<TilePos> = Vec::new();
            tiles.push(tile);
            session.world.zones.push(Zone { kind, tiles });
            assert(zones_view(session.world.zones@) =~= view.push((kind, seq![tile])));
            false
        },
        Some(i) => {
            let ghost before = session.world.zones@;
            let mut zone = session.world.zones.remove(i);
            assert(view[i as int] == (zone.kind, zone.tiles@));
            let ghost old_tiles = zone.tiles@;
            let removed = zone.toggle_tile(tile);
            proof {
                lemma_toggled_tiles(old_tiles, zone.tiles@, tile);
            }
            if zone.tiles.len() == 0 {
                assert(zones_view(session.world.zones@) =~= view.remove(i as int));
                proof {
                    lemma_without_kind_skips(view, kind, i as int);
                }
                let mut zones: Vec<Zone> = Vec::new();
                std::mem::swap(&mut zones, &mut session.world.zones);
                session.world.zones = drop_kind(zones, kind);
            } else {
                session.world.zones.insert(i, zone);
                assert(zones_view(session.world.zones@) =~= view.update(i as int, (kind, toggled_tiles(old_tiles, tile))));
            }
            removed
        },
    };
    let mut message = String::new();
    push_paint_message(&mut message, kind, cleared, tile);
    assert(message@ =~= paint_message(kind, cleared, tile));
    session.add_feed(message);
    Some(cleared)
}

/// The zone tool after choosing `kind`: choosing the active kind puts the
/// tool away; districts can only be painted once Gravecraft is studied.
pub open spec fn zone_mode_after(session: GameSession, mode: Option<ZoneKind>, kind: ZoneKind) -> Option<ZoneKind> {
    if !session.research.completed@.contains(Technology::Gravecraft) {
        mode
    } else if mode == Some(kind) {
        None
    } else {
        Some(kind)
    }
}

pub fn choose_zone_mode(session: &GameSession, mode: Option<ZoneKind>, kind: ZoneKind) -> (next: Option<ZoneKind>)
    ensures
        next == zone_mode_after(*session, mode, kind),
{
    if !session.research.is_unlocked(Technology::Gravecraft) {
        return mode;
    }
    match mode {
        Some(current) => if current == kind {
            None
        } else {
            Some(kind)
        },
        None => Some(kind),
    }
}

} // verus!

//! The game session: every discrete part of a running game, its creation
//! from authored configuration and its repair when loaded from a save.

use vstd::prelude::*;
use crate::data::{position_for_id, GameConfig};
use crate::economy::{default_storage_capacity, EconomyState, DEFAULT_STORAGE_CAPACITY};
use crate::kinds::{
    building_dimensions, building_id, job_kind_for, undead_kind_for, BuildingKind, GamePhase,
    JobKind, PlotStatus, ProductionRecipeKind, ResourceKind, SuspicionStage, WorkerStatus,
    job_kind_from_id, undead_kind_from_id,
};
use crate::market::MarketState;
use crate::policies::{DistrictRoutePolicies, StewardshipPolicy};
use crate::production::ProductionLedger;
use crate::research::ResearchState;
use crate::tile::TilePos;
use crate::upgrades::BuildingUpgrades;
use crate::workforce::{default_priorities, default_priority_order, normalized_priorities, Worker, WorkforceState};
use crate::world::{Building, Plot, Selection, WorldState};

verus! {

/// One line of the event feed.
#[derive(Debug, Clone)]
pub struct FeedEntry {
    pub message: String,
}

/// How many feed lines the session keeps.
pub const FEED_LIMIT: usize = 7;

/// Human pressure on the cemetery: escalation stage, the event awaiting a
/// choice, resolved events and the feed.
#[derive(Debug, Clone)]
pub struct PressureState {
    pub stage: SuspicionStage,
    pub active_event: Option<String>,
    pub event_history: Vec<String>,
    pub feed: Vec<FeedEntry>,
    pub last_reason: String,
}

/// A loaded or loading kiln cycle and the inputs it still waits for.
#[derive(Debug, Clone, Copy, PartialEq, Eq, Structural)]
pub struct ProductionOrder {
    pub building: BuildingKind,
    pub recipe: ProductionRecipeKind,
    pub bones_remaining: i32,
    pub wood_remaining: i32,
}

#[derive(Debug, Clone, Copy, PartialEq, Eq, Structural)]
pub enum DistrictActivityKind {
    WorkCycle,
    StorageBonus,
    PatrolQuieting,
}

/// Whole-item effects of marked districts so far.
#[derive(Debug, Clone, Copy, PartialEq, Eq, Structural)]
pub struct DistrictLedger {
    pub work_cycles: u32,
    pub storage_bonus_items: i32,
}

impl Default for DistrictLedger {
    fn default() -> (ledger: DistrictLedger)
        ensures
            ledger.work_cycles == 0,
            ledger.storage_bonus_items == 0,
    {
        DistrictLedger { work_cycles: 0, storage_bonus_items: 0 }
    }
}

/// Expansion, construction and production progress.
#[derive(Debug, Clone)]
pub struct ProgressState {
    pub unlocked_plots: usize,
    pub first_corpse_found: bool,
    pub first_building_started: bool,
    pub production: Option<ProductionOrder>,
    pub production_queue: usize,
    pub production_recipe: ProductionRecipeKind,
    pub production_ledger: ProductionLedger,
    pub building_upgrades: BuildingUpgrades,
    pub district_ledger: DistrictLedger,
    pub market: MarketState,
}

/// A saved game as read back from storage.
#[derive(Debug, Clone)]
pub struct SaveData {
    pub version: String,
    pub phase: GamePhase,
    pub world: WorldState,
    pub workforce: WorkforceState,
    pub economy: EconomyState,
    pub pressure: PressureState,
    pub progress: ProgressState,
    pub research: ResearchState,
    pub stewardship_policy: StewardshipPolicy,
}

/// A running game.
#[derive(Debug, Clone)]
pub struct GameSession {
    pub phase: GamePhase,
    pub world: WorldState,
    pub workforce: WorkforceState,
    pub economy: EconomyState,
    pub pressure: PressureState,
    pub progress: ProgressState,
    pub research: ResearchState,
    pub stewardship_policy: StewardshipPolicy,
    pub error_message: Option<String>,
}

/// Records `item` as the newest entry of `trail`, keeping at most `limit`
/// entries, newest first.
pub fn push_recent<T>(trail: &mut Vec<T>, item: T, limit: usize)
    ensures
        final(trail)@ == (if old(trail)@.len() + 1 > limit {
            old(trail)@.insert(0, item).take(limit as int)
        } else {
            old(trail)@.insert(0, item)
        }),
{
    trail.insert(0, item);
    trail.truncate(limit);
}

/// The tile of a missing position in old saves.
pub open spec fn missing_tile() -> TilePos {
    TilePos { x: -1i32, y: -1i32 }
}

pub fn default_missing_tile() -> (tile: TilePos)
    ensures
        tile == missing_tile(),
{
    TilePos::new(-1, -1)
}

/// The plots of a new game: one per authored position, the first
/// `unlocked` of them ready.
pub open spec fn plots_for(positions: Seq<TilePos>, unlocked: usize) -> Seq<Plot> {
    Seq::new(
        positions.len(),
        |i: int|
            Plot {
                id: i as usize,
                position: positions[i],
                status: if i < unlocked { PlotStatus::Ready } else { PlotStatus::Locked },
            },
    )
}

pub open spec fn has_built(buildings: Seq<Building>, kind: BuildingKind, complete: bool) -> bool {
    exists|i: int| 0 <= i < buildings.len() && (#[trigger] buildings[i]).kind == kind && buildings[i].complete == complete
}

fn building_state_present(buildings: &Vec<Building>, kind: BuildingKind, complete: bool) -> (found: bool)
    ensures
        found == has_built(buildings@, kind, complete),
{
    let mut i: usize = 0;
    while i < buildings.len()
        invariant
            i <= buildings@.len(),
            forall|j: int| 0 <= j < i ==> !((#[trigger] buildings@[j]).kind == kind && buildings@[j].complete == complete),
        decreases buildings.len() - i,
    {
        if buildings[i].kind == kind && buildings[i].complete == complete {
            return true;
        }
        i = i + 1;
    }
    false
}

impl GameSession {
    pub open spec fn built(self, kind: BuildingKind) -> bool {
        has_built(self.world.buildings@, kind, true)
    }

    pub open spec fn under_construction(self, kind: BuildingKind) -> bool {
        has_built(self.world.buildings@, kind, false)
    }

    /// A new game at the main menu, laid out from `config`.
    pub fn new(config: &GameConfig) -> (session: GameSession)
        ensures
            session.phase == GamePhase::MainMenu,
            session.progress.unlocked_plots == if config.starting_unlocked_plots
                < config.world_layout.plot_positions@.len() {
                config.starting_unlocked_plots
            } else {
                config.world_layout.plot_positions@.len() as usize
            },
            session.world.plots@ == plots_for(config.world_layout.plot_positions@, session.progress.unlocked_plots),
            session.world.width == config.world_width,
            session.world.height == config.world_height,
            session.world.buildings@.len() == 0,
            session.world.zones@.len() == 0,
            session.world.road_x == config.world_layout.road_x,
            session.world.forest_tiles@ == config.world_layout.forest_tiles@,
            session.world.stockpile_position == config.world_layout.stockpile_position,
            session.world.mana_source == config.world_layout.mana_source,
            session.world.necromancer_position == config.world_layout.necromancer_position,
            session.world.selected_plot == if session.progress.unlocked_plots > 0 { Some(0usize) } else { None },
            session.workforce.workers@.len() == 1,
            session.workforce.workers@[0].id == config.starting_content.worker.id,
            session.workforce.workers@[0].name@ == config.starting_content.worker.name@,
            session.workforce.workers@[0].kind == undead_kind_for(config.starting_content.worker.undead_id@),
            session.workforce.workers@[0].assignment == job_kind_for(config.starting_content.worker.job_id@),
            session.workforce.workers@[0].carrying == 0,
            session.workforce.workers@[0].priority_mode == false,
            session.workforce.workers@[0].position == if config.world_layout.plot_positions@.len() > 0 {
                config.world_layout.plot_positions@[0]
            } else {
                missing_tile()
            },
            session.workforce.selected_worker == 0,
            session.workforce.priorities@ == default_priority_order(),
            session.economy.bones == config.starting_bones,
            session.economy.mana == config.starting_mana,
            session.economy.wood == config.starting_wood,
            session.economy.storage_capacity == config.storage_capacity,
            session.economy.loose_wf(),
            session.economy.ward_charges == 0,
            session.pressure.stage == SuspicionStage::Calm,
            session.pressure.active_event is None,
            session.pressure.feed@.len() == 1,
            session.pressure.feed@[0].message@ == config.starting_content.initial_feedback@,
            session.pressure.last_reason@ == config.starting_content.initial_reason@,
            session.pressure.event_history@.len() == 0,
            session.workforce.workers@[0].status == WorkerStatus::Idle,
            session.workforce.workers@[0].target_plot is None,
            session.workforce.workers@[0].carrying_resource is None,
            session.workforce.workers@[0].haul_plan is None,
            session.workforce.next_worker_id == if config.starting_content.worker.id == u32::MAX {
                u32::MAX
            } else {
                (config.starting_content.worker.id + 1) as u32
            },
            session.economy.shovels == 1,
            session.economy.loose_bones == 0,
            session.economy.loose_wood == 0,
            session.economy.loose_bones_piles@.len() == 0,
            session.economy.loose_wood_piles@.len() == 0,
            session.economy.corpses@.len() == 0,
            session.world.necromancer_destination is None,
            session.world.route_policies.work == crate::policies::RoutePolicy::MarkedFirst,
            session.world.route_policies.storage == crate::policies::RoutePolicy::MarkedFirst,
            session.world.route_policies.patrol == crate::policies::RoutePolicy::MarkedFirst,
            session.progress.first_corpse_found == false,
            session.progress.first_building_started == false,
            session.progress.production_recipe == ProductionRecipeKind::WardCharge,
            session.progress.district_ledger == (DistrictLedger { work_cycles: 0, storage_bonus_items: 0 }),
            session.error_message is None,
            session.progress.production is None,
            session.progress.production_queue == 0,
            session.research.completed@.len() == 0,
            session.research.current is None,
            session.stewardship_policy == StewardshipPolicy::Balanced,
    {
        let layout = &config.world_layout;
        let unlocked = if config.starting_unlocked_plots < layout.plot_positions.len() {
            config.starting_unlocked_plots
        } else {
            layout.plot_positions.len()
        };
        let mut plots: Vec<Plot> = Vec::new();
        let mut i: usize = 0;
        while i < layout.plot_positions.len()
            invariant
                i <= layout.plot_positions@.len(),
                plots@ == plots_for(layout.plot_positions@, unlocked).take(i as int),
            decreases layout.plot_positions.len() - i,
        {
            let status = if i < unlocked { PlotStatus::Ready } else { PlotStatus::Locked };
            plots.push(Plot { id: i, position: layout.plot_positions[i], status });
            assert(plots_for(layout.plot_positions@, unlocked).take(i as int + 1) =~= plots_for(
                layout.plot_positions@,
                unlocked,
            ).take(i as int).push(Plot { id: i, position: layout.plot_positions@[i as int], status }));
            i = i + 1;
        }
        assert(plots_for(layout.plot_positions@, unlocked).take(i as int) =~= plots_for(layout.plot_positions@, unlocked));
        let forest = clone_tiles(&layout.forest_tiles);
        let world = WorldState {
            width: config.world_width,
            height: config.world_height,
            selected_plot: if unlocked > 0 { Some(0) } else { None },
            plots,
            buildings: Vec::new(),
            road_x: layout.road_x,
            mana_source: layout.mana_source,
            stockpile_position: layout.stockpile_position,
            forest_tiles: forest,
            necromancer_position: layout.necromancer_position,
            necromancer_destination: None,
            selected: if unlocked > 0 { Some(Selection::Grave(0)) } else { None },
            zones: Vec::new(),
            route_policies: DistrictRoutePolicies::default(),
        };
        let starting = &config.starting_content.worker;
        let start = if layout.plot_positions.len() > 0 {
            layout.plot_positions[0]
        } else {
            default_missing_tile()
        };
        let mut workers: Vec<Worker> = Vec::new();
        workers.push(Worker {
            id: starting.id,
            name: starting.name.clone(),
            kind: undead_kind_from_id(starting.undead_id.as_str()),
            assignment: job_kind_from_id(starting.job_id.as_str()),
            position: start,
            status: WorkerStatus::Idle,
            target_plot: None,
            carrying: 0,
            carrying_resource: None,
            priority_mode: false,
            haul_plan: None,
        });
        let workforce = WorkforceState {
            workers,
            selected_worker: 0,
            next_worker_id: starting.id.saturating_add(1),
            priorities: default_priorities(),
        };
        let economy = EconomyState {
            bones: config.starting_bones,
            mana: config.starting_mana,
            wood: config.starting_wood,
            storage_capacity: config.storage_capacity,
            shovels: 1,
            loose_bones: 0,
            loose_wood: 0,
            ward_charges: 0,
            loose_bones_source: None,
            loose_wood_source: None,
            loose_bones_piles: Vec::new(),
            loose_wood_piles: Vec::new(),
            corpses: Vec::new(),
        };
        let mut feed: Vec<FeedEntry> = Vec::new();
        feed.push(FeedEntry { message: config.starting_content.initial_feedback.clone() });
        let pressure = PressureState {
            stage: SuspicionStage::Calm,
            active_event: None,
            event_history: Vec::new(),
            feed,
            last_reason: config.starting_content.initial_reason.clone(),
        };
        let progress = ProgressState {
            unlocked_plots: unlocked,
            first_corpse_found: false,
            first_building_started: false,
            production: None,
            production_queue: 0,
            production_recipe: ProductionRecipeKind::default(),
            production_ledger: ProductionLedger::default(),
            building_upgrades: BuildingUpgrades::default(),
            district_ledger: DistrictLedger::default(),
            market: MarketState::default(),
        };
        GameSession {
            phase: GamePhase::MainMenu,
            world,
            workforce,
            economy,
            pressure,
            progress,
            research: ResearchState::default(),
            stewardship_policy: StewardshipPolicy::default(),
            error_message: None,
        }
    }

    /// Leaves the main menu for play; any other phase is kept.
    pub fn begin(&mut self)
        ensures
            old(self).phase == GamePhase::MainMenu ==> final(self).phase == GamePhase::Playing,
            old(self).phase != GamePhase::MainMenu ==> final(self).phase == old(self).phase,
            final(self).world.plots@ == old(self).world.plots@,
            final(self).economy.bones == old(self).economy.bones,
    {
        if self.phase == GamePhase::MainMenu {
            self.phase = GamePhase::Playing;
        }
    }

    pub fn active_undead(&self) -> (count: usize)
        ensures
            count == self.workforce.workers@.len(),
    {
        self.workforce.workers.len()
    }

    pub fn world_width(&self) -> (width: usize)
        ensures
            width == self.world.width,
    {
        self.world.width
    }

    pub fn world_height(&self) -> (height: usize)
        ensures
            height == self.world.height,
    {
        self.world.height
    }

    pub fn has_building(&self, kind: BuildingKind) -> (built: bool)
        ensures
            built == self.built(kind),
    {
        building_state_present(&self.world.buildings, kind, true)
    }

    pub fn building_in_progress(&self, kind: BuildingKind) -> (building: bool)
        ensures
            building == self.under_construction(kind),
    {
        building_state_present(&self.world.buildings, kind, false)
    }

    /// Puts `message` at the top of the feed, keeping the newest seven lines.
    pub fn add_feed(&mut self, message: String)
        ensures
            final(self).pressure.feed@ == (if old(self).pressure.feed@.len() + 1 > FEED_LIMIT {
                old(self).pressure.feed@.insert(0, FeedEntry { message }).take(FEED_LIMIT as int)
            } else {
                old(self).pressure.feed@.insert(0, FeedEntry { message })
            }),
            final(self).pressure.stage == old(self).pressure.stage,
            final(self).pressure.active_event == old(self).pressure.active_event,
            final(self).pressure.event_history@ == old(self).pressure.event_history@,
            final(self).pressure.last_reason@ == old(self).pressure.last_reason@,
            final(self).phase == old(self).phase,
            final(self).world == old(self).world,
            final(self).workforce == old(self).workforce,
            final(self).economy == old(self).economy,
            final(self).progress == old(self).progress,
            final(self).research == old(self).research,
            final(self).stewardship_policy == old(self).stewardship_policy,
    {
        push_recent(&mut self.pressure.feed, FeedEntry { message }, FEED_LIMIT);
    }
}

/// The first dug plot's tile, in plot order.
pub open spec fn first_dug(plots: Seq<Plot>) -> Option<TilePos>
    decreases plots.len(),
{
    if plots.len() == 0 {
        None
    } else if plots[0].status == PlotStatus::Dug {
        Some(plots[0].position)
    } else {
        first_dug(plots.skip(1))
    }
}

fn first_dug_position(plots: &Vec<Plot>) -> (position: Option<TilePos>)
    ensures
        position == first_dug(plots@),
{
    let mut i: usize = 0;
    assert(plots@.skip(0) == plots@);
    while i < plots.len()
        invariant
            i <= plots@.len(),
            first_dug(plots@) == first_dug(plots@.skip(i as int)),
        decreases plots.len() - i,
    {
        assert(plots@.skip(i as int)[0] == plots@[i as int]);
        assert(plots@.skip(i as int).skip(1) == plots@.skip(i as int + 1));
        if plots[i].status == PlotStatus::Dug {
            return Some(plots[i].position);
        }
        i = i + 1;
    }
    None
}

/// A saved structure placed on the authored layout: missing positions, and
/// the old shared spot of the work shed, move to the structure's authored
/// tile; the footprint follows the structure kind.
pub open spec fn repaired_building(building: Building, layout_positions: Seq<crate::data::NamedTilePosition>) -> Building {
    let legacy = position_for_id(layout_positions, "work_shed"@);
    let authored = position_for_id(layout_positions, building_id(building.kind));
    let relocate = building.position == missing_tile() || legacy == Some(building.position);
    Building {
        kind: building.kind,
        complete: building.complete,
        position: if relocate && authored is Some { authored->0 } else { building.position },
        width: building_dimensions(building.kind).0,
        height: building_dimensions(building.kind).1,
    }
}

/// A saved worker with consistent cargo: carried material without a kind is
/// bones, and an empty-handed worker has no haul plan.
pub open spec fn repaired_worker(worker: Worker) -> Worker {
    Worker {
        carrying_resource: if worker.carrying > 0 && worker.carrying_resource is None {
            Some(ResourceKind::Bones)
        } else {
            worker.carrying_resource
        },
        haul_plan: if worker.carrying <= 0 { None } else { worker.haul_plan },
        ..worker
    }
}

proof fn lemma_seeded_total_ignores_source(
    piles: Seq<crate::economy::LooseResourcePile>,
    loose: i32,
    a: Option<TilePos>,
    b: Option<TilePos>,
)
    ensures
        crate::economy::positive_total(crate::economy::seeded(piles, loose, a))
            == crate::economy::positive_total(crate::economy::seeded(piles, loose, b)),
{
    let sa = crate::economy::seeded(piles, loose, a);
    let sb = crate::economy::seeded(piles, loose, b);
    if piles.len() == 0 && loose > 0 {
        assert(sa.drop_last() == Seq::<crate::economy::LooseResourcePile>::empty());
        assert(sb.drop_last() == Seq::<crate::economy::LooseResourcePile>::empty());
    }
}

fn repair_buildings(buildings: &mut Vec<Building>, layout: &crate::data::WorldLayoutConfig, legacy: Option<TilePos>)
    requires
        legacy == position_for_id(layout.building_positions@, "work_shed"@),
    ensures
        final(buildings)@.len() == old(buildings)@.len(),
        forall|j: int| 0 <= j < old(buildings)@.len() ==> final(buildings)@[j] == repaired_building(
            #[trigger] old(buildings)@[j],
            layout.building_positions@,
        ),
{
    let ghost before = buildings@;
    let mut i: usize = 0;
    while i < buildings.len()
        invariant
            i <= buildings@.len(),
            buildings@.len() == before.len(),
            legacy == position_for_id(layout.building_positions@, "work_shed"@),
            forall|j: int| 0 <= j < i ==> buildings@[j] == repaired_building(
                #[trigger] before[j],
                layout.building_positions@,
            ),
            forall|j: int| i <= j < before.len() ==> buildings@[j] == before[j],
        decreases buildings.len() - i,
    {
        let mut building = buildings[i];
        let relocate = building.position == default_missing_tile() || match legacy {
            Some(p) => p == building.position,
            None => false,
        };
        if relocate {
            match layout.building_position(building.kind.id()) {
                Some(p) => building.position = p,
                None => {},
            }
        }
        let (width, height) = building.kind.dimensions();
        building.width = width;
        building.height = height;
        buildings.set(i, building);
        i = i + 1;
    }
}

fn repair_workers(workers: &mut Vec<Worker>)
    ensures
        final(workers)@.len() == old(workers)@.len(),
        forall|j: int| 0 <= j < old(workers)@.len() ==> final(workers)@[j] == repaired_worker(#[trigger] old(workers)@[j]),
{
    let ghost before = workers@;
    let mut w: usize = 0;
    while w < workers.len()
        invariant
            w <= workers@.len(),
            workers@.len() == before.len(),
            forall|j: int| 0 <= j < w ==> workers@[j] == repaired_worker(#[trigger] before[j]),
            forall|j: int| w <= j < before.len() ==> workers@[j] == before[j],
        decreases workers.len() - w,
    {
        if workers[w].carrying > 0 && workers[w].carrying_resource.is_none() {
            workers[w].carrying_resource = Some(ResourceKind::Bones);
        }
        if workers[w].carrying <= 0 {
            workers[w].haul_plan = None;
        }
        w = w + 1;
    }
}

/// The saved economy once loose material without a remembered source is
/// placed: bones by the first dug grave, wood at the first forest tile.
pub open spec fn sourced_economy(save: SaveData) -> EconomyState {
    EconomyState {
        loose_bones_source: if save.economy.loose_bones > 0 && save.economy.loose_bones_source is None {
            first_dug(save.world.plots@)
        } else {
            save.economy.loose_bones_source
        },
        loose_wood_source: if save.economy.loose_wood > 0 && save.economy.loose_wood_source is None {
            if save.world.forest_tiles@.len() > 0 {
                Some(save.world.forest_tiles@[0])
            } else {
                None
            }
        } else {
            save.economy.loose_wood_source
        },
        ..save.economy
    }
}

impl GameSession {
    /// A playable session from a save: positions missing from old saves come
    /// from the layout, structures get their authored footprints, upgrades
    /// and market rotation are clamped, cargo and loose material are made
    /// consistent, and the priority list is repaired.
    pub fn from_save(save: SaveData, config: &GameConfig) -> (session: GameSession)
        requires
            save.economy.normalizable(),
        ensures
            session.phase == save.phase,
            session.world.necromancer_position == if save.world.necromancer_position == missing_tile() {
                config.world_layout.necromancer_position
            } else {
                save.world.necromancer_position
            },
            session.world.stockpile_position == if save.world.stockpile_position == missing_tile() {
                config.world_layout.stockpile_position
            } else {
                save.world.stockpile_position
            },
            session.world.buildings@.len() == save.world.buildings@.len(),
            forall|i: int| 0 <= i < save.world.buildings@.len() ==> session.world.buildings@[i] == repaired_building(
                #[trigger] save.world.buildings@[i],
                config.world_layout.building_positions@,
            ),
            session.world.plots@ == save.world.plots@,
            session.world.zones@ == save.world.zones@,
            session.world.route_policies == save.world.route_policies,
            session.economy.storage_capacity == if save.economy.storage_capacity <= 0 {
                DEFAULT_STORAGE_CAPACITY
            } else {
                save.economy.storage_capacity
            },
            session.economy.loose_wf(),
            session.economy.loose_bones_piles@ == sourced_economy(save).normalized_piles(ResourceKind::Bones),
            session.economy.loose_wood_piles@ == sourced_economy(save).normalized_piles(ResourceKind::Wood),
            session.economy.bones == save.economy.bones,
            session.economy.wood == save.economy.wood,
            session.economy.mana == save.economy.mana,
            session.workforce.workers@.len() == save.workforce.workers@.len(),
            forall|i: int| 0 <= i < save.workforce.workers@.len() ==> session.workforce.workers@[i] == repaired_worker(
                #[trigger] save.workforce.workers@[i],
            ),
            session.workforce.priorities@ == normalized_priorities(save.workforce.priorities@),
            session.progress.market.offer_index == save.progress.market.offer_index % 3,
            forall|kind: BuildingKind| #[trigger] session.progress.building_upgrades.tier_of(kind) == if crate::upgrades::has_complete(
                save.world.buildings@,
                kind,
            ) {
                if save.progress.building_upgrades.tier_of(kind) < 1 {
                    save.progress.building_upgrades.tier_of(kind)
                } else {
                    1
                }
            } else {
                0
            },
            session.progress.unlocked_plots == save.progress.unlocked_plots,
            session.progress.production == save.progress.production,
            session.research == save.research,
            session.stewardship_policy == save.stewardship_policy,
            session.pressure.stage == save.pressure.stage,
            session.pressure.active_event == save.pressure.active_event,
            session.pressure.feed@ == save.pressure.feed@,
            session.pressure.event_history@ == save.pressure.event_history@,
            session.pressure.last_reason@ == save.pressure.last_reason@,
            session.progress.production_queue == save.progress.production_queue,
            session.progress.production_recipe == save.progress.production_recipe,
            session.progress.production_ledger == save.progress.production_ledger,
            session.progress.district_ledger == save.progress.district_ledger,
            session.progress.first_corpse_found == save.progress.first_corpse_found,
            session.progress.first_building_started == save.progress.first_building_started,
            session.economy.shovels == save.economy.shovels,
            session.economy.ward_charges == save.economy.ward_charges,
            session.economy.corpses@ == save.economy.corpses@,
            session.workforce.selected_worker == save.workforce.selected_worker,
            session.workforce.next_worker_id == save.workforce.next_worker_id,
            session.world.width == save.world.width,
            session.world.height == save.world.height,
            session.world.road_x == save.world.road_x,
            session.world.mana_source == save.world.mana_source,
            session.world.forest_tiles@ == save.world.forest_tiles@,
            session.world.selected_plot == save.world.selected_plot,
            session.world.selected == save.world.selected,
            session.world.necromancer_destination == save.world.necromancer_destination,
            session.error_message is None,
    {
        let mut save = save;
        let layout = &config.world_layout;
        if save.world.necromancer_position == default_missing_tile() {
            save.world.necromancer_position = layout.necromancer_position;
        }
        if save.world.stockpile_position == default_missing_tile() {
            save.world.stockpile_position = layout.stockpile_position;
        }
        if save.economy.storage_capacity <= 0 {
            save.economy.storage_capacity = default_storage_capacity();
        }
        save.progress.building_upgrades.normalize(save.world.buildings.as_slice());
        save.progress.market.normalize();
        let legacy = layout.building_position(BuildingKind::WorkShed.id());
        proof {
            reveal_strlit("work_shed");
        }
        repair_buildings(&mut save.world.buildings, layout, legacy);
        repair_workers(&mut save.workforce.workers);
        let ghost economy_before = save.economy;
        if save.economy.loose_bones > 0 && save.economy.loose_bones_source.is_none() {
            save.economy.loose_bones_source = first_dug_position(&save.world.plots);
        }
        if save.economy.loose_wood > 0 && save.economy.loose_wood_source.is_none() {
            save.economy.loose_wood_source = if save.world.forest_tiles.len() > 0 {
                Some(save.world.forest_tiles[0])
            } else {
                None
            };
        }
        proof {
            lemma_seeded_total_ignores_source(
                economy_before.loose_bones_piles@,
                economy_before.loose_bones,
                economy_before.loose_bones_source,
                save.economy.loose_bones_source,
            );
            lemma_seeded_total_ignores_source(
                economy_before.loose_wood_piles@,
                economy_before.loose_wood,
                economy_before.loose_wood_source,
                save.economy.loose_wood_source,
            );
        }
        save.economy.normalize_loose_piles();
        save.workforce.normalize_priorities();
        GameSession {
            phase: save.phase,
            world: save.world,
            workforce: save.workforce,
            economy: save.economy,
            pressure: save.pressure,
            progress: save.progress,
            research: save.research,
            stewardship_policy: save.stewardship_policy,
            error_message: None,
        }
    }
}

/// The feed never holds more than seven lines, and the newest line is first.
pub proof fn lemma_feed_bounded(before: Seq<FeedEntry>, after: Seq<FeedEntry>, entry: FeedEntry)
    requires
        after == (if before.len() + 1 > FEED_LIMIT {
            before.insert(0, entry).take(FEED_LIMIT as int)
        } else {
            before.insert(0, entry)
        }),
    ensures
        after.len() <= FEED_LIMIT || after.len() == before.len() + 1,
        before.len() < FEED_LIMIT ==> after.len() == before.len() + 1,
        after.len() >= 1,
        after[0] == entry,
        forall|i: int| 1 <= i < after.len() ==> after[i] == before[i - 1],
{
}

fn clone_tiles(tiles: &Vec<TilePos>) -> (copy: Vec<TilePos>)
    ensures
        copy@ == tiles@,
{
    let mut out: Vec<TilePos> = Vec::new();
    let mut i: usize = 0;
    while i < tiles.len()
        invariant
            i <= tiles@.len(),
            out@ == tiles@.take(i as int),
        decreases tiles.len() - i,
    {
        out.push(tiles[i]);
        assert(tiles@.take(i as int + 1) == tiles@.take(i as int).push(tiles@[i as int]));
        i = i + 1;
    }
    assert(tiles@.take(i as int) == tiles@);
    out
}

/// What one tick of the game reports: the lines to show and whether the
/// game was won during it.
#[derive(Debug, Clone)]
pub struct TickReport {
    pub messages: Vec<String>,
    pub became_victorious: bool,
}

impl TickReport {
    /// The report of a tick that began in victory or not (`was_victorious`)
    /// and ended in `phase`.
    pub fn finish(messages: Vec<String>, was_victorious: bool, phase: GamePhase) -> (report: TickReport)
        ensures
            report.messages@ == messages@,
            report.became_victorious == (!was_victorious && phase == GamePhase::Victory),
    {
        TickReport { messages, became_victorious: !was_victorious && phase == GamePhase::Victory }
    }
}

} // verus!

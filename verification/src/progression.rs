//! Construction, study, kiln cycles, plot expansion and the finish line.

use vstd::prelude::*;
use crate::catalog::{building_def_valid, def_for, recipe_for, BuildingCatalog, BuildingDef, ProductionRecipeDef};
use crate::data::{position_for_id, GameConfig, WorldLayoutConfig};
use crate::economy::EconomyState;
use crate::kinds::{
    building_dimensions, building_id, technology_label, technology_prerequisite, BuildingKind, GamePhase, PlotStatus, ResourceKind,
    Technology, UndeadKind,
};
use crate::research::may_start;
use crate::session::{has_built, FeedEntry, GameSession, ProductionOrder, ProgressState};
use crate::text_util::{decimal, push_decimal, push_digits, push_str};
use crate::tile::TilePos;
use crate::world::{work_tile, Building, WorldState};

verus! {

/// How many kiln cycles may wait behind the running one.
pub const MAX_PRODUCTION_QUEUE: usize = 3;

/// Every authored building passes the whole-number checks.
pub open spec fn catalog_valid(catalog: BuildingCatalog) -> bool {
    forall|i: int| 0 <= i < catalog.entries@.len() ==> building_def_valid(#[trigger] catalog.entries@[i])
}

/// Only the feed of the pressure state differs.
pub open spec fn feed_only(before: GameSession, after: GameSession) -> bool {
    &&& after.pressure.stage == before.pressure.stage
    &&& after.pressure.active_event == before.pressure.active_event
    &&& after.pressure.event_history@ == before.pressure.event_history@
    &&& after.pressure.last_reason@ == before.pressure.last_reason@
}

/// The newest feed line reads `message`.
pub open spec fn newest_line(session: GameSession, message: Seq<char>) -> bool {
    &&& session.pressure.feed@.len() >= 1
    &&& session.pressure.feed@[0].message@ == message
}

/// Two economies that differ at most in stored bones, mana and wood.
pub open spec fn same_but_materials(a: EconomyState, b: EconomyState) -> bool {
    &&& a.storage_capacity == b.storage_capacity
    &&& a.shovels == b.shovels
    &&& a.loose_bones == b.loose_bones
    &&& a.loose_wood == b.loose_wood
    &&& a.ward_charges == b.ward_charges
    &&& a.loose_bones_source == b.loose_bones_source
    &&& a.loose_wood_source == b.loose_wood_source
    &&& a.loose_bones_piles@ == b.loose_bones_piles@
    &&& a.loose_wood_piles@ == b.loose_wood_piles@
}

/// Two worlds that differ at most in their structures.
pub open spec fn same_but_buildings(a: WorldState, b: WorldState) -> bool {
    &&& a.width == b.width
    &&& a.height == b.height
    &&& a.selected_plot == b.selected_plot
    &&& a.plots@ == b.plots@
    &&& a.road_x == b.road_x
    &&& a.mana_source == b.mana_source
    &&& a.stockpile_position == b.stockpile_position
    &&& a.forest_tiles@ == b.forest_tiles@
    &&& a.necromancer_position == b.necromancer_position
    &&& a.necromancer_destination == b.necromancer_destination
    &&& a.selected == b.selected
    &&& a.zones@ == b.zones@
    &&& a.route_policies == b.route_policies
}

// ---------------------------------------------------------------- kiln supply

/// What the running kiln cycle still waits for of `resource`.
pub open spec fn input_need(session: GameSession, resource: ResourceKind) -> i32 {
    match session.progress.production {
        None => 0,
        Some(order) => match resource {
            ResourceKind::Bones => order.bones_remaining,
            ResourceKind::Wood => order.wood_remaining,
        },
    }
}

pub fn production_input_need(session: &GameSession, resource: ResourceKind) -> (need: i32)
    ensures
        need == input_need(*session, resource),
{
    match &session.progress.production {
        None => 0,
        Some(order) => match resource {
            ResourceKind::Bones => order.bones_remaining,
            ResourceKind::Wood => order.wood_remaining,
        },
    }
}

/// The first complete kiln in `buildings`.
pub open spec fn first_complete_kiln(buildings: Seq<Building>) -> Option<Building>
    decreases buildings.len(),
{
    if buildings.len() == 0 {
        None
    } else if buildings[0].kind == BuildingKind::OssuaryKiln && buildings[0].complete {
        Some(buildings[0])
    } else {
        first_complete_kiln(buildings.skip(1))
    }
}

/// A structure's work tile can be named without leaving the `i32` range.
pub open spec fn work_tile_fits(building: Building) -> bool {
    building.position.x > 0 || i32::MIN <= building.position.x + building.width <= i32::MAX
}

/// Where haulers deliver kiln inputs: the work tile of the first complete kiln.
pub fn production_destination(session: &GameSession) -> (tile: Option<TilePos>)
    requires
        forall|i: int|
            0 <= i < session.world.buildings@.len() ==> work_tile_fits(#[trigger] session.world.buildings@[i]),
    ensures
        tile == match first_complete_kiln(session.world.buildings@) {
            None => None,
            Some(kiln) => Some(work_tile(kiln)),
        },
{
    let buildings = &session.world.buildings;
    let mut i: usize = 0;
    assert(buildings@.skip(0) == buildings@);
    while i < buildings.len()
        invariant
            i <= buildings@.len(),
            buildings@ == session.world.buildings@,
            first_complete_kiln(buildings@) == first_complete_kiln(buildings@.skip(i as int)),
            forall|k: int| 0 <= k < buildings@.len() ==> work_tile_fits(#[trigger] buildings@[k]),
        decreases buildings.len() - i,
    {
        let ghost rest = buildings@.skip(i as int);
        assert(rest[0] == buildings@[i as int]);
        assert(rest.skip(1) == buildings@.skip(i as int + 1));
        if buildings[i].kind == BuildingKind::OssuaryKiln && buildings[i].complete {
            assert(work_tile_fits(buildings@[i as int]));
            assert(first_complete_kiln(rest) == Some(rest[0]));
            return Some(buildings[i].work_position());
        }
        i = i + 1;
    }
    None
}

/// The part of `amount` the running cycle accepts.
pub open spec fn accepted(amount: i32, need: i32) -> i32 {
    let offered = if amount < need { amount } else { need };
    if offered < 0 { 0 } else { offered }
}

/// Hands up to `amount` of `resource` to the running kiln cycle and returns
/// how much it took; nothing is taken without a cycle.
pub fn deliver_production_input(session: &mut GameSession, resource: ResourceKind, amount: i32) -> (delivered: i32)
    ensures
        delivered == accepted(amount, input_need(*old(session), resource)),
        0 <= delivered,
        input_need(*final(session), resource) == input_need(*old(session), resource) - delivered,
        final(session).progress.production is Some <==> old(session).progress.production is Some,
        match (old(session).progress.production, final(session).progress.production) {
            (Some(a), Some(b)) => {
                &&& b.building == a.building
                &&& b.recipe == a.recipe
                &&& (resource == ResourceKind::Bones ==> b.wood_remaining == a.wood_remaining)
                &&& (resource == ResourceKind::Wood ==> b.bones_remaining == a.bones_remaining)
            },
            _ => true,
        },
        final(session).economy == old(session).economy,
        final(session).world == old(session).world,
        final(session).workforce == old(session).workforce,
        final(session).pressure == old(session).pressure,
        final(session).research == old(session).research,
        final(session).phase == old(session).phase,
        final(session).progress.production_queue == old(session).progress.production_queue,
        final(session).progress == (ProgressState { production: final(session).progress.production, ..old(session).progress }),
{
    let need = production_input_need(session, resource);
    let offered = if amount < need { amount } else { need };
    let delivered = if offered < 0 { 0 } else { offered };
    match session.progress.production {
        None => 0,
        Some(order) => {
            let mut next = order;
            match resource {
                ResourceKind::Bones => next.bones_remaining = order.bones_remaining - delivered,
                ResourceKind::Wood => next.wood_remaining = order.wood_remaining - delivered,
            }
            session.progress.production = Some(next);
            delivered
        },
    }
}

// ------------------------------------------------------------- construction

pub open spec fn kiln_gate_message() -> Seq<char> {
    "Study Ossuary Logistics before raising a kiln."@
}

pub open spec fn already_present_message() -> Seq<char> {
    "That building is already present or under construction."@
}

pub open spec fn outside_message() -> Seq<char> {
    "That footprint would fall outside the cemetery boundary."@
}

pub open spec fn overlap_message() -> Seq<char> {
    "That footprint overlaps another structure."@
}

pub open spec fn obstacle_message() -> Seq<char> {
    "That footprint covers a grave, trees, or the road."@
}

/// A `width` by `height` footprint at `position` leaves the world.
pub open spec fn footprint_outside(world: WorldState, position: TilePos, width: i32, height: i32) -> bool {
    ||| position.x < 0
    ||| position.y < 0
    ||| position.x + width > world.width as i32
    ||| position.y + height > world.height as i32
}

/// The footprint at `position` shares a tile with `building`.
pub open spec fn footprints_overlap(building: Building, position: TilePos, width: i32, height: i32) -> bool {
    &&& position.x < building.position.x + building.width
    &&& position.x + width > building.position.x
    &&& position.y < building.position.y + building.height
    &&& position.y + height > building.position.y
}

pub open spec fn overlaps_any(world: WorldState, position: TilePos, width: i32, height: i32) -> bool {
    exists|i: int|
        0 <= i < world.buildings@.len() && footprints_overlap(#[trigger] world.buildings@[i], position, width, height)
}

/// The tile `(dx, dy)` into the footprint at `position` is an obstacle.
pub open spec fn obstacle_at(world: WorldState, position: TilePos, dx: int, dy: int) -> bool {
    crate::world::building_obstacle(world, TilePos { x: (position.x + dx) as i32, y: (position.y + dy) as i32 })
}

pub open spec fn footprint_blocked(world: WorldState, position: TilePos, width: i32, height: i32) -> bool {
    exists|dx: int, dy: int| 0 <= dx < width && 0 <= dy < height && #[trigger] obstacle_at(world, position, dx, dy)
}

/// Why a structure of `kind` may not be placed at `position`, before its
/// cost is considered; `None` when nothing stands in the way.
pub open spec fn placement_refusal(session: GameSession, kind: BuildingKind, position: TilePos) -> Option<Seq<char>> {
    let (width, height) = building_dimensions(kind);
    if kind == BuildingKind::OssuaryKiln && !session.research.completed@.contains(Technology::OssuaryLogistics) {
        Some(kiln_gate_message())
    } else if has_built(session.world.buildings@, kind, true) || has_built(session.world.buildings@, kind, false) {
        Some(already_present_message())
    } else if footprint_outside(session.world, position, width, height) {
        Some(outside_message())
    } else if overlaps_any(session.world, position, width, height) {
        Some(overlap_message())
    } else if footprint_blocked(session.world, position, width, height) {
        Some(obstacle_message())
    } else {
        None
    }
}

pub open spec fn affords(economy: EconomyState, bones: i32, mana: i32, wood: i32) -> bool {
    economy.bones >= bones && economy.mana >= mana && economy.wood >= wood
}

pub open spec fn construction_cost_message(def: BuildingDef) -> Seq<char> {
    "Need "@ + decimal(def.bones_cost as int) + " bones, "@ + decimal(def.mana_cost as int) + " mana, and "@ + decimal(
        def.wood_cost as int,
    ) + " wood."@
}

pub open spec fn construction_started_message(def: BuildingDef) -> Seq<char> {
    "Construction started: "@ + def.name@ + "."@
}

fn overlaps_existing(world: &WorldState, position: TilePos, width: i32, height: i32) -> (overlap: bool)
    ensures
        overlap == overlaps_any(*world, position, width, height),
{
    let px = position.x as i64;
    let py = position.y as i64;
    let w = width as i64;
    let h = height as i64;
    let mut i: usize = 0;
    while i < world.buildings.len()
        invariant
            i <= world.buildings@.len(),
            px == position.x,
            py == position.y,
            w == width,
            h == height,
            forall|j: int| 0 <= j < i ==> !footprints_overlap(#[trigger] world.buildings@[j], position, width, height),
        decreases world.buildings.len() - i,
    {
        let b = world.buildings[i];
        let bx = b.position.x as i64;
        let top = b.position.y as i64;
        if px < bx + b.width as i64 && px + w > bx && py < top + b.height as i64 && py + h > top {
            assert(footprints_overlap(world.buildings@[i as int], position, width, height));
            return true;
        }
        i = i + 1;
    }
    false
}

fn footprint_has_obstacle(world: &WorldState, position: TilePos, width: i32, height: i32) -> (blocked: bool)
    requires
        0 <= position.x,
        0 <= position.y,
        position.x + width <= i32::MAX,
        position.y + height <= i32::MAX,
    ensures
        blocked == footprint_blocked(*world, position, width, height),
{
    let mut dx: i32 = 0;
    while dx < width
        invariant
            0 <= position.x,
            0 <= position.y,
            position.x + width <= i32::MAX,
            position.y + height <= i32::MAX,
            0 <= dx,
            dx <= width || width <= 0,
            forall|a: int, b: int| 0 <= a < dx && 0 <= b < height ==> !#[trigger] obstacle_at(*world, position, a, b),
        decreases width - dx,
    {
        let mut dy: i32 = 0;
        while dy < height
            invariant
                0 <= position.x,
                0 <= position.y,
                position.x + width <= i32::MAX,
                position.y + height <= i32::MAX,
                0 <= dx < width,
                0 <= dy,
                dy <= height || height <= 0,
                forall|a: int, b: int| 0 <= a < dx && 0 <= b < height ==> !#[trigger] obstacle_at(*world, position, a, b),
                forall|b: int| 0 <= b < dy ==> !#[trigger] obstacle_at(*world, position, dx as int, b),
            decreases height - dy,
        {
            if world.is_building_obstacle(TilePos::new(position.x + dx, position.y + dy)) {
                assert(obstacle_at(*world, position, dx as int, dy as int));
                return true;
            }
            dy = dy + 1;
        }
        dx = dx + 1;
    }
    false
}

/// The footprint a new structure of `kind` takes at `position`.
pub open spec fn planned_building(kind: BuildingKind, position: TilePos) -> Building {
    Building {
        kind,
        complete: false,
        position,
        width: building_dimensions(kind).0,
        height: building_dimensions(kind).1,
    }
}

/// `after` is `before` once construction of `kind` at `position` has been
/// paid for and announced.
pub open spec fn construction_begun(
    before: GameSession,
    after: GameSession,
    kind: BuildingKind,
    position: TilePos,
    def: BuildingDef,
) -> bool {
    &&& after.economy.bones == before.economy.bones - def.bones_cost
    &&& after.economy.mana == before.economy.mana - def.mana_cost
    &&& after.economy.wood == before.economy.wood - def.wood_cost
    &&& same_but_materials(after.economy, before.economy)
    &&& after.world.buildings@ == before.world.buildings@.push(planned_building(kind, position))
    &&& same_but_buildings(after.world, before.world)
    &&& after.progress == (ProgressState { first_building_started: true, ..before.progress })
    &&& newest_line(after, construction_started_message(def))
    &&& feed_only(before, after)
    &&& after.stewardship_policy == before.stewardship_policy
    &&& after.workforce == before.workforce
    &&& after.research == before.research
    &&& after.phase == before.phase
}

/// Starts construction of `kind` with its top-left tile at `position`,
/// paying its authored cost.
pub fn queue_building_at(session: &mut GameSession, catalog: &BuildingCatalog, kind: BuildingKind, position: TilePos) -> (result: Result<(), String>)
    requires
        catalog_valid(*catalog),
        catalog.def_of(kind) is Some,
    ensures
        placement_refusal(*old(session), kind, position) matches Some(m) ==> (result matches Err(e) && e@ == m)
            && *final(session) == *old(session),
        placement_refusal(*old(session), kind, position) is None && !affords(
            old(session).economy,
            catalog.def_of(kind)->0.bones_cost,
            catalog.def_of(kind)->0.mana_cost,
            catalog.def_of(kind)->0.wood_cost,
        ) ==> (result matches Err(e) && e@ == construction_cost_message(catalog.def_of(kind)->0)) && *final(session)
            == *old(session),
        result is Ok <==> placement_refusal(*old(session), kind, position) is None && affords(
            old(session).economy,
            catalog.def_of(kind)->0.bones_cost,
            catalog.def_of(kind)->0.mana_cost,
            catalog.def_of(kind)->0.wood_cost,
        ),
        result is Ok ==> construction_begun(*old(session), *final(session), kind, position, catalog.def_of(kind)->0),
{
    if kind == BuildingKind::OssuaryKiln && !session.research.is_unlocked(Technology::OssuaryLogistics) {
        return Err(String::from_str("Study Ossuary Logistics before raising a kiln."));
    }
    if session.has_building(kind) || session.building_in_progress(kind) {
        return Err(String::from_str("That building is already present or under construction."));
    }
    let (width, height) = kind.dimensions();
    let world_width = #[verifier::truncate] (session.world.width as i32);
    let world_height = #[verifier::truncate] (session.world.height as i32);
    if position.x < 0 || position.y < 0 || position.x as i64 + width as i64 > world_width as i64 || position.y as i64
        + height as i64 > world_height as i64 {
        return Err(String::from_str("That footprint would fall outside the cemetery boundary."));
    }
    if overlaps_existing(&session.world, position, width, height) {
        return Err(String::from_str("That footprint overlaps another structure."));
    }
    if footprint_has_obstacle(&session.world, position, width, height) {
        return Err(String::from_str("That footprint covers a grave, trees, or the road."));
    }
    let def = match catalog.get(kind.id()) {
        Some(def) => def,
        None => {
            return Err(String::from_str("That structure has no authored recipe."));
        },
    };
    proof {
        lemma_def_for_valid(catalog.entries@, building_id(kind));
    }
    if session.economy.bones < def.bones_cost || session.economy.mana < def.mana_cost || session.economy.wood
        < def.wood_cost {
        let mut message = String::from_str("Need ");
        push_decimal(&mut message, def.bones_cost as i64);
        push_str(&mut message, " bones, ");
        push_decimal(&mut message, def.mana_cost as i64);
        push_str(&mut message, " mana, and ");
        push_decimal(&mut message, def.wood_cost as i64);
        push_str(&mut message, " wood.");
        return Err(message);
    }
    session.economy.bones = session.economy.bones - def.bones_cost;
    session.economy.mana = session.economy.mana - def.mana_cost;
    session.economy.wood = session.economy.wood - def.wood_cost;
    session.world.buildings.push(Building { kind, complete: false, position, width, height });
    session.progress.first_building_started = true;
    let mut message = String::from_str("Construction started: ");
    push_str(&mut message, def.name.as_str());
    push_str(&mut message, ".");
    session.add_feed(message);
    Ok(())
}

proof fn lemma_def_for_valid(entries: Seq<BuildingDef>, id: Seq<char>)
    requires
        forall|i: int| 0 <= i < entries.len() ==> building_def_valid(#[trigger] entries[i]),
    ensures
        def_for(entries, id) matches Some(d) ==> building_def_valid(d),
    decreases entries.len(),
{
    if entries.len() > 0 && entries[0].id@ != id {
        let rest = entries.skip(1);
        assert forall|i: int| 0 <= i < rest.len() implies building_def_valid(#[trigger] rest[i]) by {
            assert(rest[i] == entries[i + 1]);
        }
        lemma_def_for_valid(rest, id);
    }
}

/// Starts construction of `kind` at its authored position.
pub fn queue_building(
    session: &mut GameSession,
    catalog: &BuildingCatalog,
    layout: &WorldLayoutConfig,
    kind: BuildingKind,
) -> (result: Result<(), String>)
    requires
        catalog_valid(*catalog),
        catalog.def_of(kind) is Some,
        position_for_id(layout.building_positions@, building_id(kind)) is Some,
    ensures
        result is Ok <==> placement_refusal(
            *old(session),
            kind,
            position_for_id(layout.building_positions@, building_id(kind))->0,
        ) is None && affords(
            old(session).economy,
            catalog.def_of(kind)->0.bones_cost,
            catalog.def_of(kind)->0.mana_cost,
            catalog.def_of(kind)->0.wood_cost,
        ),
        result is Err ==> *final(session) == *old(session),
        result is Ok ==> construction_begun(
            *old(session),
            *final(session),
            kind,
            position_for_id(layout.building_positions@, building_id(kind))->0,
            catalog.def_of(kind)->0,
        ),
{
    let position = match layout.building_position(kind.id()) {
        Some(position) => position,
        None => {
            return Err(String::from_str("That building has no authored position."));
        },
    };
    queue_building_at(session, catalog, kind, position)
}

// ----------------------------------------------------------------- upgrades

pub open spec fn upgrade_unbuilt_message() -> Seq<char> {
    "Complete that structure before upgrading it."@
}

pub open spec fn already_upgraded_message() -> Seq<char> {
    "That structure is already upgraded."@
}

pub open spec fn upgrade_cost_message(def: BuildingDef) -> Seq<char> {
    "Need "@ + decimal(def.upgrade_bones_cost as int) + " bones, "@ + decimal(def.upgrade_mana_cost as int)
        + " mana, and "@ + decimal(def.upgrade_wood_cost as int) + " wood to upgrade."@
}

pub open spec fn upgraded_message(def: BuildingDef) -> Seq<char> {
    "Upgraded "@ + def.name@ + ": "@ + def.upgrade_effect_text@
}

/// Why upgrading `kind` as `def` describes it is refused, if it is.
pub open spec fn upgrade_refusal(session: GameSession, kind: BuildingKind, def: BuildingDef) -> Option<Seq<char>> {
    if !session.built(kind) {
        Some(upgrade_unbuilt_message())
    } else if session.progress.building_upgrades.tier_of(kind) >= 1 {
        Some(already_upgraded_message())
    } else if !affords(session.economy, def.upgrade_bones_cost, def.upgrade_mana_cost, def.upgrade_wood_cost) {
        Some(upgrade_cost_message(def))
    } else {
        None
    }
}

/// `after` is `before` once the upgrade of `kind` has been paid for and
/// announced.
pub open spec fn upgrade_done(before: GameSession, after: GameSession, kind: BuildingKind, def: BuildingDef) -> bool {
    &&& after.economy.bones == before.economy.bones - def.upgrade_bones_cost
    &&& after.economy.mana == before.economy.mana - def.upgrade_mana_cost
    &&& after.economy.wood == before.economy.wood - def.upgrade_wood_cost
    &&& same_but_materials(after.economy, before.economy)
    &&& after.progress.building_upgrades.tier_of(kind) == 1
    &&& forall|other: BuildingKind|
        other != kind ==> #[trigger] after.progress.building_upgrades.tier_of(other)
            == before.progress.building_upgrades.tier_of(other)
    &&& after.progress == (ProgressState { building_upgrades: after.progress.building_upgrades, ..before.progress })
    &&& newest_line(after, upgraded_message(def))
    &&& feed_only(before, after)
    &&& after.stewardship_policy == before.stewardship_policy
    &&& after.world == before.world
    &&& after.workforce == before.workforce
    &&& after.research == before.research
    &&& after.phase == before.phase
}

/// Raises a completed structure of `kind` to its upgraded tier, paying the
/// authored upgrade cost.
pub fn upgrade_building(session: &mut GameSession, catalog: &BuildingCatalog, kind: BuildingKind) -> (result: Result<
    (),
    String,
>)
    requires
        catalog_valid(*catalog),
        catalog.def_of(kind) is Some,
    ensures
        upgrade_refusal(*old(session), kind, catalog.def_of(kind)->0) matches Some(m) ==> (result matches Err(e)
            && e@ == m) && *final(session) == *old(session),
        result is Ok <==> upgrade_refusal(*old(session), kind, catalog.def_of(kind)->0) is None,
        result is Ok ==> upgrade_done(*old(session), *final(session), kind, catalog.def_of(kind)->0),
{
    if !session.has_building(kind) {
        return Err(String::from_str("Complete that structure before upgrading it."));
    }
    if session.progress.building_upgrades.tier(kind) >= 1 {
        return Err(String::from_str("That structure is already upgraded."));
    }
    let def = match catalog.get(kind.id()) {
        Some(def) => def,
        None => {
            return Err(String::from_str("That structure has no authored upgrade."));
        },
    };
    proof {
        lemma_def_for_valid(catalog.entries@, building_id(kind));
    }
    if session.economy.bones < def.upgrade_bones_cost || session.economy.mana < def.upgrade_mana_cost
        || session.economy.wood < def.upgrade_wood_cost {
        let mut message = String::from_str("Need ");
        push_decimal(&mut message, def.upgrade_bones_cost as i64);
        push_str(&mut message, " bones, ");
        push_decimal(&mut message, def.upgrade_mana_cost as i64);
        push_str(&mut message, " mana, and ");
        push_decimal(&mut message, def.upgrade_wood_cost as i64);
        push_str(&mut message, " wood to upgrade.");
        return Err(message);
    }
    session.economy.bones = session.economy.bones - def.upgrade_bones_cost;
    session.economy.mana = session.economy.mana - def.upgrade_mana_cost;
    session.economy.wood = session.economy.wood - def.upgrade_wood_cost;
    session.progress.building_upgrades.upgrade(kind);
    let mut message = String::from_str("Upgraded ");
    push_str(&mut message, def.name.as_str());
    push_str(&mut message, ": ");
    push_str(&mut message, def.upgrade_effect_text.as_str());
    session.add_feed(message);
    Ok(())
}

/// A structure upgrades once: after an accepted upgrade, a second request
/// for the same kind is refused as already upgraded, and the level reads 2.
pub proof fn lemma_upgrade_once(before: GameSession, after: GameSession, kind: BuildingKind, def: BuildingDef)
    requires
        upgrade_refusal(before, kind, def) is None,
        upgrade_done(before, after, kind, def),
    ensures
        upgrade_refusal(after, kind, def) == Some(already_upgraded_message()),
        level_of(after, kind) == 2,
{
}

/// The level of the structure of `kind`: 0 while none is complete, then 1,
/// and 2 once upgraded.
pub open spec fn level_of(session: GameSession, kind: BuildingKind) -> int {
    if session.built(kind) {
        1 + session.progress.building_upgrades.tier_of(kind)
    } else {
        0
    }
}

pub fn building_level(session: &GameSession, kind: BuildingKind) -> (level: u32)
    ensures
        level == level_of(*session, kind),
{
    if session.has_building(kind) {
        1 + session.progress.building_upgrades.tier(kind) as u32
    } else {
        0
    }
}

// ------------------------------------------------------------------- study

pub open spec fn shed_missing_message() -> Seq<char> {
    "Restore the work shed before studying bindings."@
}

/// Why `technology` may not be studied now; `None` when it may.
pub open spec fn study_refusal(session: GameSession, technology: Technology) -> Option<Seq<char>> {
    if !session.built(BuildingKind::WorkShed) {
        Some(shed_missing_message())
    } else if !may_start(session.research.completed@, session.research.current, technology) {
        match session.research.current {
            Some(current) => Some("The shed is already studying "@ + technology_label(current) + "."@),
            None => Some(technology_label(technology) + " is not reachable yet."@),
        }
    } else {
        None
    }
}

/// A study is accepted only with the work shed standing, nothing under way,
/// the study itself not yet complete and its prerequisite complete; so with
/// nothing complete, Binding Routines is the only study that can begin.
pub proof fn lemma_study_needs_prerequisite(session: GameSession, technology: Technology)
    ensures
        study_refusal(session, technology) is None ==> {
            &&& session.built(BuildingKind::WorkShed)
            &&& session.research.current is None
            &&& !session.research.completed@.contains(technology)
            &&& technology_prerequisite(technology) matches Some(p) ==> session.research.completed@.contains(p)
        },
        session.research.completed@.len() == 0 && study_refusal(session, technology) is None ==> technology
            == Technology::BindingRoutines,
{
}

/// Begins studying `technology` in the work shed.
pub fn start_research(session: &mut GameSession, technology: Technology) -> (result: Result<(), String>)
    ensures
        study_refusal(*old(session), technology) matches Some(m) ==> (result matches Err(e) && e@ == m)
            && *final(session) == *old(session),
        result is Ok <==> study_refusal(*old(session), technology) is None,
        result is Ok ==> (technology_prerequisite(technology) matches Some(p) ==> old(
            session,
        ).research.completed@.contains(p)),
        result is Ok ==> {
            &&& final(session).research.current == Some(technology)
            &&& final(session).research.completed@ == old(session).research.completed@
            &&& newest_line(*final(session), "Study begun: "@ + technology_label(technology) + "."@)
            &&& final(session).world == old(session).world
            &&& final(session).economy == old(session).economy
            &&& final(session).workforce == old(session).workforce
            &&& final(session).progress == old(session).progress
        },
        final(session).pressure.stage == old(session).pressure.stage,
        final(session).pressure.active_event == old(session).pressure.active_event,
        final(session).pressure.event_history@ == old(session).pressure.event_history@,
        final(session).pressure.last_reason@ == old(session).pressure.last_reason@,
{
    if !session.has_building(BuildingKind::WorkShed) {
        return Err(String::from_str("Restore the work shed before studying bindings."));
    }
    if !session.research.can_start(technology) {
        return match session.research.current {
            Some(current) => {
                let mut message = String::from_str("The shed is already studying ");
                push_str(&mut message, current.label());
                push_str(&mut message, ".");
                Err(message)
            },
            None => {
                let mut message = String::new();
                push_str(&mut message, technology.label());
                push_str(&mut message, " is not reachable yet.");
                assert(Seq::<char>::empty() + technology_label(technology) == technology_label(technology));
                Err(message)
            },
        };
    }
    session.research.current = Some(technology);
    let mut message = String::from_str("Study begun: ");
    push_str(&mut message, technology.label());
    push_str(&mut message, ".");
    session.add_feed(message);
    Ok(())
}

/// Completes the study under way, whose timer has run out: it joins the
/// completed studies and is announced with `description`.
pub fn complete_research(session: &mut GameSession, description: &str) -> (message: Option<String>)
    ensures
        old(session).research.current is None ==> message is None && *final(session) == *old(session),
        old(session).research.current matches Some(t) ==> {
            let text = "Research complete: "@ + technology_label(t) + " \u{2014} "@ + description@;
            &&& message matches Some(m) && m@ == text
            &&& final(session).research.current is None
            &&& final(session).research.completed@ == old(session).research.completed@.push(t)
            &&& newest_line(*final(session), text)
            &&& final(session).world == old(session).world
            &&& final(session).economy == old(session).economy
            &&& final(session).progress == old(session).progress
        },
        final(session).pressure.stage == old(session).pressure.stage,
        final(session).pressure.active_event == old(session).pressure.active_event,
        final(session).pressure.event_history@ == old(session).pressure.event_history@,
        final(session).pressure.last_reason@ == old(session).pressure.last_reason@,
        final(session).workforce == old(session).workforce,
{
    let technology = match session.research.current {
        None => {
            return None;
        },
        Some(t) => t,
    };
    session.research.current = None;
    session.research.completed.push(technology);
    let mut message = String::from_str("Research complete: ");
    push_str(&mut message, technology.label());
    push_str(&mut message, " \u{2014} ");
    push_str(&mut message, description);
    let announced = message.clone();
    session.add_feed(announced);
    Some(message)
}

// -------------------------------------------------------------- kiln cycles

/// The recipe a production order on `kind` would follow: the selected
/// recipe of the building's authored production.
pub open spec fn chosen_recipe(session: GameSession, catalog: BuildingCatalog, kind: BuildingKind) -> Option<
    ProductionRecipeDef,
> {
    match catalog.def_of(kind) {
        Some(def) => match def.production {
            Some(production) => recipe_for(production.recipes@, session.progress.production_recipe),
            None => None,
        },
        None => None,
    }
}

pub open spec fn kiln_study_message() -> Seq<char> {
    "Study Ossuary Logistics before loading the kiln."@
}

pub open spec fn kiln_unbuilt_message() -> Seq<char> {
    "The kiln must be complete before it can refine wards."@
}

pub open spec fn no_recipe_message() -> Seq<char> {
    "That structure has no production recipe."@
}

pub open spec fn queue_full_message() -> Seq<char> {
    "The kiln's ward queue is full."@
}

pub open spec fn reserve_cost_message(recipe: ProductionRecipeDef) -> Seq<char> {
    "Need "@ + decimal(recipe.bones_cost as int) + " bones and "@ + decimal(recipe.wood_cost as int)
        + " wood to reserve a kiln cycle."@
}

pub open spec fn reserved_message() -> Seq<char> {
    "Another ward cycle is reserved in the kiln."@
}

pub open spec fn loaded_message() -> Seq<char> {
    "The Ossuary Kiln is loaded; assign a worker to Refine Wards."@
}

pub open spec fn kiln_needs_message(bones: i32, wood: i32) -> Seq<char> {
    "The Ossuary Kiln needs "@ + decimal(bones as int) + " bones and "@ + decimal(wood as int)
        + " wood; assign Haul."@
}

/// Why no cycle may be started or reserved on `kind`; `None` when one may.
pub open spec fn production_refusal(session: GameSession, catalog: BuildingCatalog, kind: BuildingKind) -> Option<
    Seq<char>,
> {
    if kind == BuildingKind::OssuaryKiln && !session.research.completed@.contains(Technology::OssuaryLogistics) {
        Some(kiln_study_message())
    } else if !session.built(kind) {
        Some(kiln_unbuilt_message())
    } else if chosen_recipe(session, catalog, kind) is None {
        Some(no_recipe_message())
    } else if session.progress.production is Some && session.progress.production_queue >= MAX_PRODUCTION_QUEUE {
        Some(queue_full_message())
    } else if session.progress.production is Some && (session.economy.bones < chosen_recipe(
        session,
        catalog,
        kind,
    )->0.bones_cost || session.economy.wood < chosen_recipe(session, catalog, kind)->0.wood_cost) {
        Some(reserve_cost_message(chosen_recipe(session, catalog, kind)->0))
    } else {
        None
    }
}

/// Everything but materials, production and the feed is as it was.
pub open spec fn rest_unchanged(before: GameSession, after: GameSession) -> bool {
    &&& same_but_materials(after.economy, before.economy)
    &&& after.world == before.world
    &&& after.workforce == before.workforce
    &&& after.research == before.research
    &&& after.phase == before.phase
    &&& after.progress.unlocked_plots == before.progress.unlocked_plots
    &&& after.progress.production_recipe == before.progress.production_recipe
    &&& after.progress.first_corpse_found == before.progress.first_corpse_found
    &&& after.progress.first_building_started == before.progress.first_building_started
    &&& after.progress.production_ledger == before.progress.production_ledger
    &&& after.progress.building_upgrades == before.progress.building_upgrades
    &&& after.progress.district_ledger == before.progress.district_ledger
    &&& after.progress.market == before.progress.market
    &&& feed_only(before, after)
    &&& after.stewardship_policy == before.stewardship_policy
}

/// `after` holds one more reserved cycle behind the running one, paid for in
/// full from storage.
pub open spec fn reserve_step(before: GameSession, after: GameSession, recipe: ProductionRecipeDef) -> bool {
    &&& after.economy.bones == before.economy.bones - recipe.bones_cost
    &&& after.economy.wood == before.economy.wood - recipe.wood_cost
    &&& after.economy.mana == before.economy.mana
    &&& after.progress.production_queue == before.progress.production_queue + 1
    &&& after.progress.production == before.progress.production
    &&& rest_unchanged(before, after)
}

/// `after` runs a new cycle on `kind`, loaded with what storage holds of
/// its inputs; the rest is left to haulers.
pub open spec fn load_step(before: GameSession, after: GameSession, kind: BuildingKind, recipe: ProductionRecipeDef) -> bool {
    let bones_taken = if before.economy.bones < recipe.bones_cost { before.economy.bones } else { recipe.bones_cost };
    let wood_taken = if before.economy.wood < recipe.wood_cost { before.economy.wood } else { recipe.wood_cost };
    &&& after.economy.bones == before.economy.bones - bones_taken
    &&& after.economy.wood == before.economy.wood - wood_taken
    &&& after.economy.mana == before.economy.mana
    &&& after.progress.production == Some(
        ProductionOrder {
            building: kind,
            recipe: before.progress.production_recipe,
            bones_remaining: (recipe.bones_cost - bones_taken) as i32,
            wood_remaining: (recipe.wood_cost - wood_taken) as i32,
        },
    )
    &&& after.progress.production_queue == before.progress.production_queue
    &&& rest_unchanged(before, after)
}

/// The recipe of `kind` can be loaded from the current storage without
/// leaving the `i32` range.
pub open spec fn loadable(session: GameSession, catalog: BuildingCatalog, kind: BuildingKind) -> bool {
    chosen_recipe(session, catalog, kind) matches Some(r) ==> {
        &&& r.bones_cost - session.economy.bones <= i32::MAX
        &&& r.wood_cost - session.economy.wood <= i32::MAX
    }
}

fn selected_recipe<'a>(session: &GameSession, catalog: &'a BuildingCatalog, kind: BuildingKind) -> (recipe: Option<
    &'a ProductionRecipeDef,
>)
    ensures
        match recipe {
            Some(r) => chosen_recipe(*session, *catalog, kind) == Some(*r),
            None => chosen_recipe(*session, *catalog, kind) is None,
        },
{
    match catalog.get(kind.id()) {
        None => None,
        Some(def) => match &def.production {
            None => None,
            Some(production) => production.recipe(session.progress.production_recipe),
        },
    }
}

proof fn lemma_chosen_recipe_valid(session: GameSession, catalog: BuildingCatalog, kind: BuildingKind)
    requires
        catalog_valid(catalog),
    ensures
        chosen_recipe(session, catalog, kind) matches Some(r) ==> r.bones_cost >= 0 && r.wood_cost >= 0
            && r.output_amount > 0,
{
    lemma_def_for_valid(catalog.entries@, building_id(kind));
    if let Some(def) = catalog.def_of(kind) {
        if let Some(production) = def.production {
            lemma_recipe_for_in(production.recipes@, session.progress.production_recipe);
        }
    }
}

proof fn lemma_recipe_for_in(recipes: Seq<ProductionRecipeDef>, kind: crate::kinds::ProductionRecipeKind)
    ensures
        recipe_for(recipes, kind) matches Some(r) ==> exists|i: int| 0 <= i < recipes.len() && #[trigger] recipes[i] == r,
    decreases recipes.len(),
{
    if recipes.len() > 0 && recipes[0].kind != kind {
        lemma_recipe_for_in(recipes.skip(1), kind);
        if let Some(r) = recipe_for(recipes, kind) {
            let i = choose|i: int| 0 <= i < recipes.skip(1).len() && #[trigger] recipes.skip(1)[i] == r;
            assert(recipes[i + 1] == r);
        }
    } else if recipes.len() > 0 {
        assert(recipes[0] == recipe_for(recipes, kind)->0);
    }
}

/// Starts a kiln cycle on `kind`, or reserves another one behind the
/// running cycle.
pub fn start_production(session: &mut GameSession, catalog: &BuildingCatalog, kind: BuildingKind) -> (result: Result<(), String>)
    requires
        catalog_valid(*catalog),
        loadable(*old(session), *catalog, kind),
    ensures
        production_refusal(*old(session), *catalog, kind) matches Some(m) ==> (result matches Err(e) && e@ == m)
            && *final(session) == *old(session),
        result is Ok <==> production_refusal(*old(session), *catalog, kind) is None,
        result is Ok && old(session).progress.production is Some ==> reserve_step(
            *old(session),
            *final(session),
            chosen_recipe(*old(session), *catalog, kind)->0,
        ) && newest_line(*final(session), reserved_message()),
        result is Ok && old(session).progress.production is None ==> load_step(
            *old(session),
            *final(session),
            kind,
            chosen_recipe(*old(session), *catalog, kind)->0,
        ),
        result is Ok && old(session).progress.production is None ==> match final(session).progress.production {
            Some(order) => newest_line(
                *final(session),
                if order.bones_remaining == 0 && order.wood_remaining == 0 {
                    loaded_message()
                } else {
                    kiln_needs_message(order.bones_remaining, order.wood_remaining)
                },
            ),
            None => false,
        },
{
    if kind == BuildingKind::OssuaryKiln && !session.research.is_unlocked(Technology::OssuaryLogistics) {
        return Err(String::from_str("Study Ossuary Logistics before loading the kiln."));
    }
    if !session.has_building(kind) {
        return Err(String::from_str("The kiln must be complete before it can refine wards."));
    }
    let recipe = match selected_recipe(session, catalog, kind) {
        None => {
            return Err(String::from_str("That structure has no production recipe."));
        },
        Some(recipe) => recipe,
    };
    proof {
        lemma_chosen_recipe_valid(*session, *catalog, kind);
    }
    let active = session.progress.production.is_some();
    if active && session.progress.production_queue >= MAX_PRODUCTION_QUEUE {
        return Err(String::from_str("The kiln's ward queue is full."));
    }
    if active {
        if session.economy.bones < recipe.bones_cost || session.economy.wood < recipe.wood_cost {
            let mut message = String::from_str("Need ");
            push_decimal(&mut message, recipe.bones_cost as i64);
            push_str(&mut message, " bones and ");
            push_decimal(&mut message, recipe.wood_cost as i64);
            push_str(&mut message, " wood to reserve a kiln cycle.");
            return Err(message);
        }
        session.economy.bones = session.economy.bones - recipe.bones_cost;
        session.economy.wood = session.economy.wood - recipe.wood_cost;
        session.progress.production_queue = session.progress.production_queue + 1;
        session.add_feed(String::from_str("Another ward cycle is reserved in the kiln."));
    } else {
        let bones_available = if session.economy.bones < recipe.bones_cost {
            session.economy.bones
        } else {
            recipe.bones_cost
        };
        let wood_available = if session.economy.wood < recipe.wood_cost {
            session.economy.wood
        } else {
            recipe.wood_cost
        };
        session.economy.bones = session.economy.bones - bones_available;
        session.economy.wood = session.economy.wood - wood_available;
        let bones_remaining = recipe.bones_cost - bones_available;
        let wood_remaining = recipe.wood_cost - wood_available;
        session.progress.production = Some(
            ProductionOrder {
                building: kind,
                recipe: session.progress.production_recipe,
                bones_remaining,
                wood_remaining,
            },
        );
        if bones_remaining == 0 && wood_remaining == 0 {
            session.add_feed(String::from_str("The Ossuary Kiln is loaded; assign a worker to Refine Wards."));
        } else {
            let mut message = String::from_str("The Ossuary Kiln needs ");
            push_decimal(&mut message, bones_remaining as i64);
            push_str(&mut message, " bones and ");
            push_decimal(&mut message, wood_remaining as i64);
            push_str(&mut message, " wood; assign Haul.");
            session.add_feed(message);
        }
    }
    Ok(())
}

pub open spec fn no_active_cycle_message() -> Seq<char> {
    "There is no active ward cycle to adjust."@
}

pub open spec fn other_structure_message() -> Seq<char> {
    "That structure has no active ward cycle."@
}

pub open spec fn nothing_reserved_message() -> Seq<char> {
    "There is no reserved ward cycle to cancel."@
}

pub open spec fn refund_message(recipe: ProductionRecipeDef) -> Seq<char> {
    "A reserved ward cycle is cancelled; +"@ + decimal(recipe.bones_cost as int) + " bones and +"@ + decimal(
        recipe.wood_cost as int,
    ) + " wood return to storage."@
}

/// Why no reserved cycle on `kind` may be cancelled; `None` when one may.
pub open spec fn cancel_refusal(session: GameSession, catalog: BuildingCatalog, kind: BuildingKind) -> Option<Seq<char>> {
    match session.progress.production {
        None => Some(no_active_cycle_message()),
        Some(order) => if order.building != kind {
            Some(other_structure_message())
        } else if session.progress.production_queue == 0 {
            Some(nothing_reserved_message())
        } else if chosen_recipe(session, catalog, kind) is None {
            Some(no_recipe_message())
        } else {
            None
        },
    }
}

/// `after` has one reserved cycle less, and its materials are back in storage.
pub open spec fn cancel_step(before: GameSession, after: GameSession, recipe: ProductionRecipeDef) -> bool {
    &&& after.economy.bones == before.economy.bones + recipe.bones_cost
    &&& after.economy.wood == before.economy.wood + recipe.wood_cost
    &&& after.economy.mana == before.economy.mana
    &&& after.progress.production_queue == before.progress.production_queue - 1
    &&& after.progress.production == before.progress.production
    &&& rest_unchanged(before, after)
}

/// The refund of a reserved cycle on `kind` fits in storage's `i32` counts.
pub open spec fn refundable(session: GameSession, catalog: BuildingCatalog, kind: BuildingKind) -> bool {
    chosen_recipe(session, catalog, kind) matches Some(r) ==> {
        &&& session.economy.bones + r.bones_cost <= i32::MAX
        &&& session.economy.wood + r.wood_cost <= i32::MAX
    }
}

/// Cancels one reserved cycle behind the running one on `kind` and refunds
/// its materials; the running cycle keeps going.
pub fn cancel_production(session: &mut GameSession, catalog: &BuildingCatalog, kind: BuildingKind) -> (result: Result<(), String>)
    requires
        catalog_valid(*catalog),
        refundable(*old(session), *catalog, kind),
    ensures
        cancel_refusal(*old(session), *catalog, kind) matches Some(m) ==> (result matches Err(e) && e@ == m)
            && *final(session) == *old(session),
        result is Ok <==> cancel_refusal(*old(session), *catalog, kind) is None,
        result is Ok ==> cancel_step(*old(session), *final(session), chosen_recipe(*old(session), *catalog, kind)->0)
            && newest_line(*final(session), refund_message(chosen_recipe(*old(session), *catalog, kind)->0)),
{
    let building = match &session.progress.production {
        None => {
            return Err(String::from_str("There is no active ward cycle to adjust."));
        },
        Some(order) => order.building,
    };
    if building != kind {
        return Err(String::from_str("That structure has no active ward cycle."));
    }
    if session.progress.production_queue == 0 {
        return Err(String::from_str("There is no reserved ward cycle to cancel."));
    }
    let recipe = match selected_recipe(session, catalog, kind) {
        None => {
            return Err(String::from_str("That structure has no production recipe."));
        },
        Some(recipe) => recipe,
    };
    proof {
        lemma_chosen_recipe_valid(*session, *catalog, kind);
    }
    session.progress.production_queue = session.progress.production_queue - 1;
    session.economy.bones = session.economy.bones + recipe.bones_cost;
    session.economy.wood = session.economy.wood + recipe.wood_cost;
    let mut message = String::from_str("A reserved ward cycle is cancelled; +");
    push_decimal(&mut message, recipe.bones_cost as i64);
    push_str(&mut message, " bones and +");
    push_decimal(&mut message, recipe.wood_cost as i64);
    push_str(&mut message, " wood return to storage.");
    session.add_feed(message);
    Ok(())
}

/// Cancelling a reserved kiln cycle returns exactly what reserving it took:
/// storage, the queue and the running cycle are as before the reservation.
pub proof fn lemma_cancel_undoes_reserve(
    start: GameSession,
    reserved: GameSession,
    cancelled: GameSession,
    recipe: ProductionRecipeDef,
)
    requires
        reserve_step(start, reserved, recipe),
        cancel_step(reserved, cancelled, recipe),
    ensures
        cancelled.economy.bones == start.economy.bones,
        cancelled.economy.wood == start.economy.wood,
        cancelled.economy.mana == start.economy.mana,
        cancelled.progress.production_queue == start.progress.production_queue,
        cancelled.progress.production == start.progress.production,
        same_but_materials(cancelled.economy, start.economy),
        cancelled.world == start.world,
        cancelled.workforce == start.workforce,
{
}

/// The first structure still under construction.
pub open spec fn first_unfinished(buildings: Seq<Building>) -> Option<int>
    decreases buildings.len(),
{
    if buildings.len() == 0 {
        None
    } else if !buildings[0].complete {
        Some(0)
    } else {
        match first_unfinished(buildings.skip(1)) {
            Some(i) => Some(i + 1),
            None => None,
        }
    }
}

/// The kiln never holds more reserved cycles than `MAX_PRODUCTION_QUEUE`:
/// a reservation that `start_production` accepts keeps the queue within it.
pub proof fn lemma_reservations_stay_bounded(
    before: GameSession,
    after: GameSession,
    catalog: BuildingCatalog,
    kind: BuildingKind,
)
    requires
        before.progress.production_queue <= MAX_PRODUCTION_QUEUE,
        production_refusal(before, catalog, kind) is None,
        before.progress.production is Some,
        reserve_step(before, after, chosen_recipe(before, catalog, kind)->0),
    ensures
        after.progress.production_queue <= MAX_PRODUCTION_QUEUE,
{
}

/// Opening plots never goes past the plots victory asks for: an opening
/// that `unlock_plot` accepts keeps the count within `victory_plots`.
pub proof fn lemma_unlocked_plots_stay_bounded(before: GameSession, after_unlocked: usize, config: GameConfig)
    requires
        unlock_refusal(before, config) is None,
        after_unlocked == before.progress.unlocked_plots + 1,
    ensures
        after_unlocked <= config.victory_plots,
{
}

/// The first unfinished structure is unfinished and every structure before
/// it is finished; with none, every structure is finished.
pub proof fn lemma_first_unfinished(buildings: Seq<Building>)
    ensures
        first_unfinished(buildings) matches Some(i) ==> 0 <= i < buildings.len() && !buildings[i].complete
            && forall|j: int| 0 <= j < i ==> (#[trigger] buildings[j]).complete,
        first_unfinished(buildings) is None ==> forall|j: int| 0 <= j < buildings.len() ==> (#[trigger] buildings[j]).complete,
    decreases buildings.len(),
{
    if buildings.len() > 0 && buildings[0].complete {
        let rest = buildings.skip(1);
        lemma_first_unfinished(rest);
        assert forall|j: int| 1 <= j < buildings.len() implies buildings[j] == rest[j - 1] by {}
    }
}

pub open spec fn construction_complete_message(def: BuildingDef) -> Seq<char> {
    def.name@ + " is complete: "@ + def.effect_text@
}

/// Finishes the first structure under construction, whose build time has
/// run out; a finished work shed brings an improved shovel.
pub fn complete_construction(session: &mut GameSession, catalog: &BuildingCatalog) -> (message: Option<String>)
    requires
        forall|i: int|
            0 <= i < old(session).world.buildings@.len() ==> catalog.def_of(
                #[trigger] old(session).world.buildings@[i].kind,
            ) is Some,
        old(session).economy.shovels < i32::MAX,
    ensures
        first_unfinished(old(session).world.buildings@) is None ==> message is None && *final(session) == *old(session),
        first_unfinished(old(session).world.buildings@) matches Some(i) ==> {
            let building = old(session).world.buildings@[i];
            let text = construction_complete_message(catalog.def_of(building.kind)->0);
            &&& message matches Some(m) && m@ == text
            &&& final(session).world.buildings@ == old(session).world.buildings@.update(
                i,
                Building { complete: true, ..building },
            )
            &&& same_but_buildings(final(session).world, old(session).world)
            &&& final(session).economy.shovels == old(session).economy.shovels + if building.kind
                == BuildingKind::WorkShed {
                1int
            } else {
                0int
            }
            &&& final(session).economy.bones == old(session).economy.bones
            &&& final(session).economy.wood == old(session).economy.wood
            &&& final(session).economy.mana == old(session).economy.mana
            &&& final(session).economy.ward_charges == old(session).economy.ward_charges
            &&& final(session).economy.storage_capacity == old(session).economy.storage_capacity
            &&& final(session).economy.corpses@ == old(session).economy.corpses@
            &&& final(session).economy.same_loose(old(session).economy)
            &&& newest_line(*final(session), text)
            &&& feed_only(*old(session), *final(session))
            &&& final(session).progress == old(session).progress
            &&& final(session).workforce == old(session).workforce
            &&& final(session).research == old(session).research
        },
{
    proof {
        lemma_first_unfinished(session.world.buildings@);
    }
    let mut index: usize = 0;
    while index < session.world.buildings.len() && session.world.buildings[index].complete
        invariant
            index <= session.world.buildings@.len(),
            forall|j: int| 0 <= j < index ==> (#[trigger] session.world.buildings@[j]).complete,
        decreases session.world.buildings.len() - index,
    {
        index = index + 1;
    }
    if index == session.world.buildings.len() {
        return None;
    }
    proof {
        assert(first_unfinished(session.world.buildings@) == Some(index as int)) by {
            lemma_first_unfinished(session.world.buildings@);
            if let Some(k) = first_unfinished(session.world.buildings@) {
                assert(k == index as int);
            }
        }
    }
    let kind = session.world.buildings[index].kind;
    let def = match catalog.get(kind.id()) {
        Some(def) => def,
        None => {
            return None;
        },
    };
    session.world.buildings[index].complete = true;
    if kind == BuildingKind::WorkShed {
        session.economy.shovels = session.economy.shovels + 1;
    }
    let mut message = String::new();
    push_str(&mut message, def.name.as_str());
    push_str(&mut message, " is complete: ");
    push_str(&mut message, def.effect_text.as_str());
    assert(Seq::<char>::empty() + def.name@ == def.name@);
    let announced = message.clone();
    session.add_feed(announced);
    Some(message)
}

/// The recipe the running cycle follows.
pub open spec fn running_recipe(session: GameSession, catalog: BuildingCatalog) -> Option<ProductionRecipeDef> {
    match session.progress.production {
        None => None,
        Some(order) => match catalog.def_of(order.building) {
            Some(def) => match def.production {
                Some(production) => recipe_for(production.recipes@, order.recipe),
                None => None,
            },
            None => None,
        },
    }
}

pub open spec fn cycle_finished_message(recipe: ProductionRecipeDef, next_cycle: bool) -> Seq<char> {
    decimal(recipe.output_amount as int) + " Ward charge ready. "@ + recipe.effect_text@ + if next_cycle {
        " Next reserved cycle begins."@
    } else {
        ""@
    }
}

/// Seals the output of the running kiln cycle, whose inputs are all in
/// and whose timer has run out; a reserved cycle, if any, starts next with
/// its inputs already paid. Nothing happens while inputs are missing.
pub fn finish_production_cycle(session: &mut GameSession, catalog: &BuildingCatalog) -> (message: Option<String>)
    requires
        catalog_valid(*catalog),
        old(session).progress.production is Some ==> running_recipe(*old(session), *catalog) is Some,
        running_recipe(*old(session), *catalog) matches Some(r) ==> old(session).economy.ward_charges
            + r.output_amount <= i32::MAX,
    ensures
        match old(session).progress.production {
            None => message is None && *final(session) == *old(session),
            Some(order) => if order.bones_remaining > 0 || order.wood_remaining > 0 {
                message is None && *final(session) == *old(session)
            } else {
                let recipe = running_recipe(*old(session), *catalog)->0;
                let next_cycle = old(session).progress.production_queue > 0;
                let text = cycle_finished_message(recipe, next_cycle);
                &&& message matches Some(m) && m@ == text
                &&& final(session).economy.ward_charges == old(session).economy.ward_charges + recipe.output_amount
                &&& final(session).progress.production == if next_cycle {
                    Some(ProductionOrder { bones_remaining: 0, wood_remaining: 0, ..order })
                } else {
                    None::<ProductionOrder>
                }
                &&& final(session).progress.production_queue == if next_cycle {
                    (old(session).progress.production_queue - 1) as usize
                } else {
                    0
                }
                &&& newest_line(*final(session), text)
                &&& final(session).economy.bones == old(session).economy.bones
                &&& final(session).economy.wood == old(session).economy.wood
                &&& final(session).economy.mana == old(session).economy.mana
                &&& final(session).economy.shovels == old(session).economy.shovels
                &&& final(session).economy.storage_capacity == old(session).economy.storage_capacity
                &&& final(session).economy.corpses@ == old(session).economy.corpses@
                &&& final(session).economy.same_loose(old(session).economy)
                &&& final(session).world == old(session).world
                &&& final(session).workforce == old(session).workforce
                &&& final(session).research == old(session).research
                &&& feed_only(*old(session), *final(session))
                &&& final(session).progress.unlocked_plots == old(session).progress.unlocked_plots
                &&& final(session).progress.market == old(session).progress.market
                &&& final(session).progress.district_ledger == old(session).progress.district_ledger
                &&& final(session).progress.building_upgrades == old(session).progress.building_upgrades
            },
        },
{
    let order = match session.progress.production {
        None => {
            return None;
        },
        Some(order) => order,
    };
    if order.bones_remaining > 0 || order.wood_remaining > 0 {
        return None;
    }
    let recipe = match catalog.get(order.building.id()) {
        None => {
            return None;
        },
        Some(def) => match &def.production {
            None => {
                return None;
            },
            Some(production) => match production.recipe(order.recipe) {
                None => {
                    return None;
                },
                Some(recipe) => recipe,
            },
        },
    };
    assert(running_recipe(*session, *catalog) == Some(*recipe));
    proof {
        lemma_def_for_valid(catalog.entries@, building_id(order.building));
        lemma_recipe_for_in(catalog.def_of(order.building)->0.production->0.recipes@, order.recipe);
    }
    session.economy.ward_charges = session.economy.ward_charges + recipe.output_amount;
    let next_cycle = session.progress.production_queue > 0;
    if next_cycle {
        session.progress.production_queue = session.progress.production_queue - 1;
        session.progress.production = Some(ProductionOrder { bones_remaining: 0, wood_remaining: 0, ..order });
    } else {
        session.progress.production = None;
    }
    let mut message = String::new();
    push_decimal(&mut message, recipe.output_amount as i64);
    push_str(&mut message, " Ward charge ready. ");
    push_str(&mut message, recipe.effect_text.as_str());
    if next_cycle {
        push_str(&mut message, " Next reserved cycle begins.");
    } else {
        push_str(&mut message, "");
    }
    assert(Seq::<char>::empty() + decimal(recipe.output_amount as int) == decimal(recipe.output_amount as int));
    let announced = message.clone();
    session.add_feed(announced);
    Some(message)
}

// -------------------------------------------------------------------- wards

pub open spec fn no_ward_message() -> Seq<char> {
    "There is no sealed ward charge to spend."@
}

pub open spec fn ward_spent_message() -> Seq<char> {
    "A ward charge is spent; the cemetery falls quiet."@
}

/// Spends one sealed ward charge.
pub fn use_ward_charge(session: &mut GameSession) -> (result: Result<(), String>)
    ensures
        old(session).economy.ward_charges <= 0 ==> (result matches Err(e) && e@ == no_ward_message())
            && *final(session) == *old(session),
        old(session).economy.ward_charges > 0 ==> {
            &&& result is Ok
            &&& final(session).economy.ward_charges == old(session).economy.ward_charges - 1
            &&& final(session).economy.bones == old(session).economy.bones
            &&& final(session).economy.wood == old(session).economy.wood
            &&& final(session).economy.mana == old(session).economy.mana
            &&& final(session).economy.shovels == old(session).economy.shovels
            &&& final(session).economy.storage_capacity == old(session).economy.storage_capacity
            &&& final(session).economy.corpses@ == old(session).economy.corpses@
            &&& final(session).economy.same_loose(old(session).economy)
            &&& final(session).research == old(session).research
            &&& newest_line(*final(session), ward_spent_message())
            &&& final(session).world == old(session).world
            &&& final(session).workforce == old(session).workforce
            &&& final(session).progress == old(session).progress
        },
{
    if session.economy.ward_charges <= 0 {
        return Err(String::from_str("There is no sealed ward charge to spend."));
    }
    session.economy.ward_charges = session.economy.ward_charges - 1;
    session.add_feed(String::from_str("A ward charge is spent; the cemetery falls quiet."));
    Ok(())
}

// -------------------------------------------------------------------- plots

/// Wood asked for opening the plot after `unlocked` usable plots.
pub open spec fn plot_unlock_cost(config: GameConfig, unlocked: usize) -> int {
    config.plot_unlock_base_wood + (unlocked as i32) * config.plot_unlock_step_wood
}

/// The cost of the next plot fits in an `i32`.
pub open spec fn unlock_cost_fits(config: GameConfig, unlocked: usize) -> bool {
    &&& i32::MIN <= (unlocked as i32) * config.plot_unlock_step_wood <= i32::MAX
    &&& i32::MIN <= plot_unlock_cost(config, unlocked) <= i32::MAX
}

pub fn next_plot_unlock_cost(config: &GameConfig, unlocked_plots: usize) -> (cost: i32)
    requires
        unlock_cost_fits(*config, unlocked_plots),
    ensures
        cost == plot_unlock_cost(*config, unlocked_plots),
{
    let count = #[verifier::truncate] (unlocked_plots as i32);
    config.plot_unlock_base_wood + count * config.plot_unlock_step_wood
}

pub open spec fn all_plots_message() -> Seq<char> {
    "All six cemetery plots are already usable."@
}

pub open spec fn plot_cost_message(cost: int) -> Seq<char> {
    "Opening the next plot needs "@ + decimal(cost) + " wood."@
}

pub open spec fn no_plot_message() -> Seq<char> {
    "No authored plot remains to unlock."@
}

pub open spec fn plot_opened_message(number: nat) -> Seq<char> {
    "Plot "@ + decimal(number as int) + " is now usable. The road feels closer."@
}

/// Why the next plot may not be opened; `None` when it may.
pub open spec fn unlock_refusal(session: GameSession, config: GameConfig) -> Option<Seq<char>> {
    let unlocked = session.progress.unlocked_plots;
    if unlocked >= config.victory_plots {
        Some(all_plots_message())
    } else if session.economy.wood < plot_unlock_cost(config, unlocked) {
        Some(plot_cost_message(plot_unlock_cost(config, unlocked)))
    } else if unlocked >= session.world.plots@.len() {
        Some(no_plot_message())
    } else {
        None
    }
}

/// Opens the next authored plot for digging, paid in wood.
pub fn unlock_plot(session: &mut GameSession, config: &GameConfig) -> (result: Result<(), String>)
    requires
        old(session).progress.unlocked_plots < config.victory_plots ==> unlock_cost_fits(
            *config,
            old(session).progress.unlocked_plots,
        ) && old(session).economy.wood - plot_unlock_cost(*config, old(session).progress.unlocked_plots)
            <= i32::MAX,
    ensures
        unlock_refusal(*old(session), *config) matches Some(m) ==> (result matches Err(e) && e@ == m) && *final(session)
            == *old(session),
        result is Ok <==> unlock_refusal(*old(session), *config) is None,
        result is Ok ==> {
            let next = old(session).progress.unlocked_plots;
            &&& final(session).world.plots@ == old(session).world.plots@.update(
                next as int,
                crate::world::Plot { status: PlotStatus::Ready, ..old(session).world.plots@[next as int] },
            )
            &&& final(session).progress.unlocked_plots == next + 1
            &&& final(session).economy.wood == old(session).economy.wood - plot_unlock_cost(*config, next)
            &&& same_but_materials(final(session).economy, old(session).economy)
            &&& final(session).economy.bones == old(session).economy.bones
            &&& final(session).economy.mana == old(session).economy.mana
            &&& newest_line(*final(session), plot_opened_message((next + 1) as nat))
            &&& final(session).world.buildings@ == old(session).world.buildings@
            &&& final(session).world.zones@ == old(session).world.zones@
            &&& final(session).workforce == old(session).workforce
            &&& final(session).research == old(session).research
        },
        final(session).pressure.stage == old(session).pressure.stage,
        final(session).pressure.active_event == old(session).pressure.active_event,
        final(session).pressure.event_history@ == old(session).pressure.event_history@,
        final(session).pressure.last_reason@ == old(session).pressure.last_reason@,
{
    if session.progress.unlocked_plots >= config.victory_plots {
        return Err(String::from_str("All six cemetery plots are already usable."));
    }
    let cost = next_plot_unlock_cost(config, session.progress.unlocked_plots);
    if session.economy.wood < cost {
        let mut message = String::from_str("Opening the next plot needs ");
        push_decimal(&mut message, cost as i64);
        push_str(&mut message, " wood.");
        return Err(message);
    }
    let next = session.progress.unlocked_plots;
    if next >= session.world.plots.len() {
        return Err(String::from_str("No authored plot remains to unlock."));
    }
    session.world.plots[next].status = PlotStatus::Ready;
    session.progress.unlocked_plots = next + 1;
    session.economy.wood = session.economy.wood - cost;
    let mut message = String::from_str("Plot ");
    push_digits(&mut message, (next + 1) as u64);
    push_str(&mut message, " is now usable. The road feels closer.");
    session.add_feed(message);
    Ok(())
}

// ------------------------------------------------------------------ victory

pub open spec fn victory_message() -> Seq<char> {
    "The cemetery is a tiny, thriving operation. You made it."@
}

pub open spec fn has_brute(workers: Seq<crate::workforce::Worker>) -> bool {
    exists|i: int| 0 <= i < workers.len() && (#[trigger] workers[i]).kind == UndeadKind::BruteSkeleton
}

/// Every milestone of the finish line is met; whether suspicion stays under
/// its limit is decided by the caller.
pub open spec fn victory_reached(session: GameSession, config: GameConfig, suspicion_below_limit: bool) -> bool {
    &&& session.workforce.workers@.len() >= config.victory_undead
    &&& session.progress.unlocked_plots >= config.victory_plots
    &&& session.built(BuildingKind::WorkShed)
    &&& session.built(BuildingKind::GraveLantern)
    &&& has_brute(session.workforce.workers@)
    &&& suspicion_below_limit
}

/// Declares victory once every milestone is met.
pub fn check_victory(session: &mut GameSession, config: &GameConfig, suspicion_below_limit: bool)
    ensures
        !victory_reached(*old(session), *config, suspicion_below_limit) ==> *final(session) == *old(session),
        victory_reached(*old(session), *config, suspicion_below_limit) ==> {
            &&& final(session).phase == GamePhase::Victory
            &&& newest_line(*final(session), victory_message())
            &&& final(session).world == old(session).world
            &&& final(session).economy == old(session).economy
            &&& final(session).workforce == old(session).workforce
            &&& final(session).progress == old(session).progress
        },
        final(session).research == old(session).research,
{
    let mut brute = false;
    let mut i: usize = 0;
    while i < session.workforce.workers.len()
        invariant
            i <= session.workforce.workers@.len(),
            brute == exists|j: int| 0 <= j < i && (#[trigger] session.workforce.workers@[j]).kind
                == UndeadKind::BruteSkeleton,
        decreases session.workforce.workers.len() - i,
    {
        if session.workforce.workers[i].kind == UndeadKind::BruteSkeleton {
            brute = true;
        }
        i = i + 1;
    }
    if session.workforce.workers.len() >= config.victory_undead && session.progress.unlocked_plots
        >= config.victory_plots && session.has_building(BuildingKind::WorkShed) && session.has_building(
        BuildingKind::GraveLantern,
    ) && brute && suspicion_below_limit {
        session.phase = GamePhase::Victory;
        session.add_feed(String::from_str("The cemetery is a tiny, thriving operation. You made it."));
    }
}

} // verus!

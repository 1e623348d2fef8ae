//! Checks that keep the authored balance, layout and starting content
//! usable before a game starts.

use vstd::prelude::*;
use crate::data::{GameConfig, NamedTilePosition};
use crate::kinds::SuspicionStage;
use crate::text_util::{push_str, str_equal};
use crate::tile::{tiles_contain, TilePos};

verus! {

/// Verdicts on the fractional settings of a configuration (tick and mana
/// rates, the corpse chance, the suspicion thresholds, the district
/// multipliers and the study durations), which the caller computes.
#[derive(Debug, Clone, Copy, PartialEq, Eq, Structural)]
pub struct FractionalChecks {
    pub rates_valid: bool,
    pub corpse_chance_valid: bool,
    pub thresholds_valid: bool,
    pub district_multipliers_valid: bool,
    pub durations_valid: bool,
}

pub open spec fn dimensions_message() -> Seq<char> {
    "game_config.json: world dimensions must be positive"@
}

pub open spec fn rates_message() -> Seq<char> {
    "game_config.json: tick and mana rates are invalid"@
}

pub open spec fn starting_message() -> Seq<char> {
    "game_config.json: starting resources or plot targets are invalid"@
}

pub open spec fn corpse_chance_message() -> Seq<char> {
    "game_config.json: corpse chance must be between 0 and 1"@
}

pub open spec fn thresholds_message() -> Seq<char> {
    "game_config.json: suspicion thresholds must increase within 0..100"@
}

pub open spec fn unlock_costs_message() -> Seq<char> {
    "game_config.json: plot unlock costs cannot be negative"@
}

pub open spec fn district_rules_message() -> Seq<char> {
    "game_config.json: district rules must provide non-negative bonuses"@
}

pub open spec fn durations_message() -> Seq<char> {
    "game_config.json: research durations must be positive"@
}

pub open spec fn starting_ok(config: GameConfig) -> bool {
    &&& config.starting_bones >= 0
    &&& config.starting_mana >= 0
    &&& config.starting_wood >= 0
    &&& config.storage_capacity > 0
    &&& config.max_mana > 0
    &&& config.worker_wood_reserve >= 0
    &&& config.starting_unlocked_plots != 0
    &&& config.starting_unlocked_plots <= config.victory_plots
    &&& config.victory_plots <= 6
}

/// The first failed check of a configuration, in the order they are made.
pub open spec fn config_refusal(config: GameConfig, checks: FractionalChecks) -> Option<Seq<char>> {
    if config.world_width == 0 || config.world_height == 0 {
        Some(dimensions_message())
    } else if !checks.rates_valid {
        Some(rates_message())
    } else if !starting_ok(config) {
        Some(starting_message())
    } else if !checks.corpse_chance_valid {
        Some(corpse_chance_message())
    } else if !checks.thresholds_valid {
        Some(thresholds_message())
    } else if config.plot_unlock_base_wood < 0 || config.plot_unlock_step_wood < 0 {
        Some(unlock_costs_message())
    } else if !checks.district_multipliers_valid || config.district_rules.storage_capacity_bonus < 0
        || config.district_rules.storage_volume_per_tile < 0 {
        Some(district_rules_message())
    } else if !checks.durations_valid {
        Some(durations_message())
    } else {
        None
    }
}

/// Checks the balance settings of a configuration.
pub fn validate_config(config: &GameConfig, checks: FractionalChecks) -> (result: Result<(), String>)
    ensures
        config_refusal(*config, checks) matches Some(m) ==> (result matches Err(e) && e@ == m),
        result is Ok <==> config_refusal(*config, checks) is None,
{
    if config.world_width == 0 || config.world_height == 0 {
        return Err(String::from_str("game_config.json: world dimensions must be positive"));
    }
    if !checks.rates_valid {
        return Err(String::from_str("game_config.json: tick and mana rates are invalid"));
    }
    if config.starting_bones < 0 || config.starting_mana < 0 || config.starting_wood < 0 || config.storage_capacity
        <= 0 || config.max_mana <= 0 || config.worker_wood_reserve < 0 || config.starting_unlocked_plots == 0
        || config.starting_unlocked_plots > config.victory_plots || config.victory_plots > 6 {
        return Err(String::from_str("game_config.json: starting resources or plot targets are invalid"));
    }
    if !checks.corpse_chance_valid {
        return Err(String::from_str("game_config.json: corpse chance must be between 0 and 1"));
    }
    if !checks.thresholds_valid {
        return Err(String::from_str("game_config.json: suspicion thresholds must increase within 0..100"));
    }
    if config.plot_unlock_base_wood < 0 || config.plot_unlock_step_wood < 0 {
        return Err(String::from_str("game_config.json: plot unlock costs cannot be negative"));
    }
    if !checks.district_multipliers_valid || config.district_rules.storage_capacity_bonus < 0
        || config.district_rules.storage_volume_per_tile < 0 {
        return Err(String::from_str("game_config.json: district rules must provide non-negative bonuses"));
    }
    if !checks.durations_valid {
        return Err(String::from_str("game_config.json: research durations must be positive"));
    }
    Ok(())
}

/// `tile` lies inside the configured world.
pub open spec fn tile_in_world(tile: TilePos, config: GameConfig) -> bool {
    &&& tile.x >= 0
    &&& tile.y >= 0
    &&& tile.x < config.world_width as i32
    &&& tile.y < config.world_height as i32
}

pub fn valid_tile(tile: TilePos, config: &GameConfig) -> (valid: bool)
    ensures
        valid == tile_in_world(tile, *config),
{
    let width = #[verifier::truncate] (config.world_width as i32);
    let height = #[verifier::truncate] (config.world_height as i32);
    tile.x >= 0 && tile.y >= 0 && tile.x < width && tile.y < height
}

/// No tile occurs twice.
pub open spec fn distinct_tiles(tiles: Seq<TilePos>) -> bool {
    forall|i: int, j: int| 0 <= i < tiles.len() && 0 <= j < tiles.len() && i != j ==> tiles[i] != tiles[j]
}

pub fn unique_tiles(tiles: &Vec<TilePos>) -> (unique: bool)
    ensures
        unique == distinct_tiles(tiles@),
{
    let mut i: usize = 0;
    while i < tiles.len()
        invariant
            i <= tiles@.len(),
            forall|a: int, b: int| 0 <= a < i && 0 <= b < tiles@.len() && a != b ==> tiles@[a] != tiles@[b],
        decreases tiles.len() - i,
    {
        let mut j: usize = 0;
        while j < tiles.len()
            invariant
                i < tiles@.len(),
                j <= tiles@.len(),
                forall|a: int, b: int| 0 <= a < i && 0 <= b < tiles@.len() && a != b ==> tiles@[a] != tiles@[b],
                forall|b: int| 0 <= b < j && b != i ==> tiles@[i as int] != tiles@[b],
            decreases tiles.len() - j,
        {
            if j != i && tiles[i] == tiles[j] {
                return false;
            }
            j = j + 1;
        }
        i = i + 1;
    }
    true
}

pub open spec fn road_message() -> Seq<char> {
    "game_config.json: road must divide the world"@
}

pub open spec fn position_message(name: Seq<char>) -> Seq<char> {
    "game_config.json: "@ + name + " position is outside the world"@
}

pub open spec fn forest_unique_message() -> Seq<char> {
    "game_config.json: forest tiles must be non-empty and unique"@
}

pub open spec fn forest_side_message() -> Seq<char> {
    "game_config.json: forest tiles must be inside the hidden side"@
}

pub open spec fn plots_cover_message() -> Seq<char> {
    "game_config.json: plot layout must cover the victory target uniquely"@
}

pub open spec fn plots_side_message() -> Seq<char> {
    "game_config.json: plot positions must be inside the hidden side"@
}

pub open spec fn building_positions_message() -> Seq<char> {
    "game_config.json: building positions must reference unique in-world tiles"@
}

/// Every tile lies inside the world, left of the road.
pub open spec fn hidden_side(tiles: Seq<TilePos>, config: GameConfig) -> bool {
    forall|i: int|
        0 <= i < tiles.len() ==> tile_in_world(#[trigger] tiles[i], config) && tiles[i].x
            < config.world_layout.road_x
}

pub open spec fn has_position_id(entries: Seq<NamedTilePosition>, id: Seq<char>) -> bool {
    exists|i: int| 0 <= i < entries.len() && (#[trigger] entries[i]).id@ == id
}

/// Authored building positions have distinct, non-empty ids, cover the
/// three structures and lie inside the world, left of the road.
pub open spec fn building_positions_ok(entries: Seq<NamedTilePosition>, config: GameConfig) -> bool {
    &&& forall|i: int, j: int|
        0 <= i < entries.len() && 0 <= j < entries.len() && i != j ==> (#[trigger] entries[i]).id@
            != (#[trigger] entries[j]).id@
    &&& has_position_id(entries, "work_shed"@)
    &&& has_position_id(entries, "grave_lantern"@)
    &&& has_position_id(entries, "ossuary_kiln"@)
    &&& forall|i: int|
        0 <= i < entries.len() ==> (#[trigger] entries[i]).id@.len() > 0 && tile_in_world(entries[i].position, config)
            && entries[i].position.x < config.world_layout.road_x
}

/// The first failed check of the authored map, in the order they are made.
pub open spec fn layout_refusal(config: GameConfig) -> Option<Seq<char>> {
    let layout = config.world_layout;
    if layout.road_x <= 0 || layout.road_x >= config.world_width as i32 {
        Some(road_message())
    } else if !tile_in_world(layout.mana_source, config) {
        Some(position_message("mana source"@))
    } else if !tile_in_world(layout.stockpile_position, config) {
        Some(position_message("stockpile"@))
    } else if !tile_in_world(layout.necromancer_position, config) {
        Some(position_message("necromancer"@))
    } else if layout.forest_tiles@.len() == 0 || !distinct_tiles(layout.forest_tiles@) {
        Some(forest_unique_message())
    } else if !hidden_side(layout.forest_tiles@, config) {
        Some(forest_side_message())
    } else if layout.plot_positions@.len() < config.victory_plots || !distinct_tiles(layout.plot_positions@) {
        Some(plots_cover_message())
    } else if !hidden_side(layout.plot_positions@, config) {
        Some(plots_side_message())
    } else if !building_positions_ok(layout.building_positions@, config) {
        Some(building_positions_message())
    } else {
        None
    }
}

fn on_hidden_side(tiles: &Vec<TilePos>, config: &GameConfig) -> (ok: bool)
    ensures
        ok == hidden_side(tiles@, *config),
{
    let mut i: usize = 0;
    while i < tiles.len()
        invariant
            i <= tiles@.len(),
            forall|k: int|
                0 <= k < i ==> tile_in_world(#[trigger] tiles@[k], *config) && tiles@[k].x < config.world_layout.road_x,
        decreases tiles.len() - i,
    {
        if !valid_tile(tiles[i], config) || tiles[i].x >= config.world_layout.road_x {
            return false;
        }
        i = i + 1;
    }
    true
}

fn position_id_present(entries: &Vec<NamedTilePosition>, id: &str) -> (found: bool)
    ensures
        found == has_position_id(entries@, id@),
{
    let mut i: usize = 0;
    while i < entries.len()
        invariant
            i <= entries@.len(),
            forall|k: int| 0 <= k < i ==> (#[trigger] entries@[k]).id@ != id@,
        decreases entries.len() - i,
    {
        if str_equal(entries[i].id.as_str(), id) {
            return true;
        }
        i = i + 1;
    }
    false
}

fn building_positions_valid(entries: &Vec<NamedTilePosition>, config: &GameConfig) -> (ok: bool)
    ensures
        ok == building_positions_ok(entries@, *config),
{
    let mut i: usize = 0;
    while i < entries.len()
        invariant
            i <= entries@.len(),
            forall|a: int, b: int|
                0 <= a < i && 0 <= b < entries@.len() && a != b ==> (#[trigger] entries@[a]).id@
                    != (#[trigger] entries@[b]).id@,
        decreases entries.len() - i,
    {
        let mut j: usize = 0;
        while j < entries.len()
            invariant
                i < entries@.len(),
                j <= entries@.len(),
                forall|a: int, b: int|
                    0 <= a < i && 0 <= b < entries@.len() && a != b ==> (#[trigger] entries@[a]).id@
                        != (#[trigger] entries@[b]).id@,
                forall|b: int| 0 <= b < j && b != i ==> entries@[i as int].id@ != (#[trigger] entries@[b]).id@,
            decreases entries.len() - j,
        {
            if j != i && str_equal(entries[i].id.as_str(), entries[j].id.as_str()) {
                assert(!building_positions_ok(entries@, *config)) by {
                    assert(entries@[i as int].id@ == entries@[j as int].id@);
                }
                return false;
            }
            j = j + 1;
        }
        i = i + 1;
    }
    if !position_id_present(entries, "work_shed") || !position_id_present(entries, "grave_lantern")
        || !position_id_present(entries, "ossuary_kiln") {
        return false;
    }
    let mut k: usize = 0;
    while k < entries.len()
        invariant
            k <= entries@.len(),
            forall|m: int|
                0 <= m < k ==> (#[trigger] entries@[m]).id@.len() > 0 && tile_in_world(entries@[m].position, *config)
                    && entries@[m].position.x < config.world_layout.road_x,
        decreases entries.len() - k,
    {
        let entry = &entries[k];
        if entry.id.unicode_len() == 0 || !valid_tile(entry.position, config) || entry.position.x
            >= config.world_layout.road_x {
            return false;
        }
        k = k + 1;
    }
    true
}

fn outside_world_error(name: &str) -> (message: String)
    ensures
        message@ == position_message(name@),
{
    let mut message = String::from_str("game_config.json: ");
    push_str(&mut message, name);
    push_str(&mut message, " position is outside the world");
    message
}

/// Checks the authored map: the road, the landmarks, the forest, the plots
/// and the building positions.
pub fn validate_world_layout(config: &GameConfig) -> (result: Result<(), String>)
    ensures
        layout_refusal(*config) matches Some(m) ==> (result matches Err(e) && e@ == m),
        result is Ok <==> layout_refusal(*config) is None,
{
    let layout = &config.world_layout;
    let width = #[verifier::truncate] (config.world_width as i32);
    if layout.road_x <= 0 || layout.road_x >= width {
        return Err(String::from_str("game_config.json: road must divide the world"));
    }
    if !valid_tile(layout.mana_source, config) {
        return Err(outside_world_error("mana source"));
    }
    if !valid_tile(layout.stockpile_position, config) {
        return Err(outside_world_error("stockpile"));
    }
    if !valid_tile(layout.necromancer_position, config) {
        return Err(outside_world_error("necromancer"));
    }
    if layout.forest_tiles.len() == 0 || !unique_tiles(&layout.forest_tiles) {
        return Err(String::from_str("game_config.json: forest tiles must be non-empty and unique"));
    }
    if !on_hidden_side(&layout.forest_tiles, config) {
        return Err(String::from_str("game_config.json: forest tiles must be inside the hidden side"));
    }
    if layout.plot_positions.len() < config.victory_plots || !unique_tiles(&layout.plot_positions) {
        return Err(String::from_str("game_config.json: plot layout must cover the victory target uniquely"));
    }
    if !on_hidden_side(&layout.plot_positions, config) {
        return Err(String::from_str("game_config.json: plot positions must be inside the hidden side"));
    }
    if !building_positions_valid(&layout.building_positions, config) {
        return Err(String::from_str("game_config.json: building positions must reference unique in-world tiles"));
    }
    Ok(())
}

/// `id` is one of `ids`.
pub open spec fn lists_id(ids: Seq<String>, id: Seq<char>) -> bool {
    exists|i: int| 0 <= i < ids.len() && (#[trigger] ids[i])@ == id
}

fn id_listed(ids: &Vec<String>, id: &str) -> (found: bool)
    ensures
        found == lists_id(ids@, id@),
{
    let mut i: usize = 0;
    while i < ids.len()
        invariant
            i <= ids@.len(),
            forall|k: int| 0 <= k < i ==> (#[trigger] ids@[k])@ != id@,
        decreases ids.len() - i,
    {
        if str_equal(ids[i].as_str(), id) {
            return true;
        }
        i = i + 1;
    }
    false
}

pub open spec fn starting_content_message() -> Seq<char> {
    "game_config.json: starting content contains an invalid worker or message"@
}

pub open spec fn starting_worker_message() -> Seq<char> {
    "game_config.json: the starting worker must be a skeleton assigned to dig"@
}

/// The first failed check of the starting content, given the authored
/// undead and job ids.
pub open spec fn starting_content_refusal(config: GameConfig, undead_ids: Seq<String>, job_ids: Seq<String>) -> Option<
    Seq<char>,
> {
    let starting = config.starting_content;
    if starting.worker.id == 0 || starting.worker.name@.len() == 0 || !lists_id(undead_ids, starting.worker.undead_id@)
        || !lists_id(job_ids, starting.worker.job_id@) || starting.initial_feedback@.len() == 0
        || starting.initial_reason@.len() == 0 {
        Some(starting_content_message())
    } else if starting.worker.undead_id@ != "skeleton"@ || starting.worker.job_id@ != "dig"@ {
        Some(starting_worker_message())
    } else {
        None
    }
}

/// Checks the worker and messages a new game starts with.
pub fn validate_starting_content(config: &GameConfig, undead_ids: &Vec<String>, job_ids: &Vec<String>) -> (result:
    Result<(), String>)
    ensures
        starting_content_refusal(*config, undead_ids@, job_ids@) matches Some(m) ==> (result matches Err(e) && e@ == m),
        result is Ok <==> starting_content_refusal(*config, undead_ids@, job_ids@) is None,
{
    let starting = &config.starting_content;
    if starting.worker.id == 0 || starting.worker.name.unicode_len() == 0 || !id_listed(
        undead_ids,
        starting.worker.undead_id.as_str(),
    ) || !id_listed(job_ids, starting.worker.job_id.as_str()) || starting.initial_feedback.unicode_len() == 0
        || starting.initial_reason.unicode_len() == 0 {
        return Err(String::from_str("game_config.json: starting content contains an invalid worker or message"));
    }
    if !str_equal(starting.worker.undead_id.as_str(), "skeleton") || !str_equal(starting.worker.job_id.as_str(), "dig") {
        return Err(String::from_str("game_config.json: the starting worker must be a skeleton assigned to dig"));
    }
    Ok(())
}

/// An authored corpse quality band, as far as references need it.
#[derive(Debug, Clone)]
pub struct CorpseBandRef {
    pub id: String,
    pub brute_eligible: bool,
}

/// The first of `required` that `ids` lacks.
pub open spec fn first_missing(ids: Seq<String>, required: Seq<Seq<char>>) -> Option<Seq<char>>
    decreases required.len(),
{
    if required.len() == 0 {
        None
    } else if !lists_id(ids, required[0]) {
        Some(required[0])
    } else {
        first_missing(ids, required.skip(1))
    }
}

/// The first band with id `id`.
pub open spec fn band_for(bands: Seq<CorpseBandRef>, id: Seq<char>) -> Option<CorpseBandRef>
    decreases bands.len(),
{
    if bands.len() == 0 {
        None
    } else if bands[0].id@ == id {
        Some(bands[0])
    } else {
        band_for(bands.skip(1), id)
    }
}

pub open spec fn stage_name(stage: SuspicionStage) -> Seq<char> {
    match stage {
        SuspicionStage::Calm => "Calm"@,
        SuspicionStage::Rumour => "Rumour"@,
        SuspicionStage::Questioning => "Questioning"@,
        SuspicionStage::Investigation => "Investigation"@,
    }
}

/// The first escalation stage without an authored event.
pub open spec fn first_stage_without_event(stages: Seq<SuspicionStage>) -> Option<SuspicionStage> {
    if !stages.contains(SuspicionStage::Rumour) {
        Some(SuspicionStage::Rumour)
    } else if !stages.contains(SuspicionStage::Questioning) {
        Some(SuspicionStage::Questioning)
    } else if !stages.contains(SuspicionStage::Investigation) {
        Some(SuspicionStage::Investigation)
    } else {
        None
    }
}

pub open spec fn band_ids(bands: Seq<CorpseBandRef>) -> Seq<String> {
    bands.map_values(|b: CorpseBandRef| b.id)
}

/// The authored registries reference what the rules need, with the first
/// gap as an error message.
pub open spec fn references_refusal(
    bands: Seq<CorpseBandRef>,
    event_stages: Seq<SuspicionStage>,
    job_ids: Seq<String>,
    undead_ids: Seq<String>,
    building_ids: Seq<String>,
) -> Option<Seq<char>> {
    if let Some(id) = first_missing(band_ids(bands), seq!["poor"@, "sound"@, "notable"@]) {
        Some("corpses.json: missing quality band '"@ + id + "'"@)
    } else if !(band_for(bands, "notable"@) matches Some(b) && b.brute_eligible) {
        Some("corpses.json: notable band must permit Brute resurrection"@)
    } else if let Some(stage) = first_stage_without_event(event_stages) {
        Some("events.json: missing event for "@ + stage_name(stage))
    } else if let Some(id) = first_missing(job_ids, seq!["dig"@, "haul"@, "guard"@, "wood"@, "refine"@]) {
        Some("jobs.json: missing required job '"@ + id + "'"@)
    } else if let Some(id) = first_missing(undead_ids, seq!["skeleton"@, "brute_skeleton"@]) {
        Some("undead.json: missing required type '"@ + id + "'"@)
    } else if let Some(id) = first_missing(building_ids, seq!["work_shed"@, "grave_lantern"@, "ossuary_kiln"@]) {
        Some("buildings.json: missing required building '"@ + id + "'"@)
    } else {
        None
    }
}

fn missing_id(ids: &Vec<String>, required: &Vec<&str>) -> (missing: Option<usize>)
    ensures
        match missing {
            Some(k) => k < required@.len() && first_missing(ids@, required@.map_values(|r: &str| r@)) == Some(
                required@[k as int]@,
            ),
            None => first_missing(ids@, required@.map_values(|r: &str| r@)) is None,
        },
{
    let ghost req = required@.map_values(|r: &str| r@);
    let mut k: usize = 0;
    assert(req.skip(0) == req);
    while k < required.len()
        invariant
            k <= required@.len(),
            req == required@.map_values(|r: &str| r@),
            first_missing(ids@, req) == first_missing(ids@, req.skip(k as int)),
        decreases required.len() - k,
    {
        let ghost rest = req.skip(k as int);
        assert(rest[0] == required@[k as int]@);
        assert(rest.skip(1) == req.skip(k as int + 1));
        if !id_listed(ids, required[k]) {
            return Some(k);
        }
        k = k + 1;
    }
    None
}

fn stage_present(stages: &Vec<SuspicionStage>, stage: SuspicionStage) -> (found: bool)
    ensures
        found == stages@.contains(stage),
{
    let mut i: usize = 0;
    while i < stages.len()
        invariant
            i <= stages@.len(),
            forall|k: int| 0 <= k < i ==> stages@[k] != stage,
        decreases stages.len() - i,
    {
        if stages[i] == stage {
            return true;
        }
        i = i + 1;
    }
    false
}

fn missing_event_error(stage: SuspicionStage) -> (message: String)
    ensures
        message@ == "events.json: missing event for "@ + stage_name(stage),
{
    let mut message = String::from_str("events.json: missing event for ");
    let name = match stage {
        SuspicionStage::Calm => "Calm",
        SuspicionStage::Rumour => "Rumour",
        SuspicionStage::Questioning => "Questioning",
        SuspicionStage::Investigation => "Investigation",
    };
    push_str(&mut message, name);
    message
}

fn quoted(prefix: &str, id: &str) -> (message: String)
    ensures
        message@ == prefix@ + id@ + "'"@,
{
    let mut message = String::from_str(prefix);
    push_str(&mut message, id);
    push_str(&mut message, "'");
    message
}

/// Checks that the registries hold every band, event, job, undead type and
/// building the rules refer to.
pub fn validate_references(
    bands: &Vec<CorpseBandRef>,
    event_stages: &Vec<SuspicionStage>,
    job_ids: &Vec<String>,
    undead_ids: &Vec<String>,
    building_ids: &Vec<String>,
) -> (result: Result<(), String>)
    ensures
        references_refusal(bands@, event_stages@, job_ids@, undead_ids@, building_ids@) matches Some(m) ==> (result matches Err(
            e,
        ) && e@ == m),
        result is Ok <==> references_refusal(bands@, event_stages@, job_ids@, undead_ids@, building_ids@) is None,
{
    let mut ids: Vec<String> = Vec::new();
    let mut i: usize = 0;
    let mut notable: Option<bool> = None;
    assert(bands@.skip(0) == bands@);
    while i < bands.len()
        invariant
            i <= bands@.len(),
            ids@ == band_ids(bands@).take(i as int),
            notable is None ==> band_for(bands@, "notable"@) == band_for(bands@.skip(i as int), "notable"@),
            notable matches Some(e) ==> band_for(bands@, "notable"@) matches Some(b) && b.brute_eligible == e,
        decreases bands.len() - i,
    {
        let ghost rest = bands@.skip(i as int);
        assert(rest[0] == bands@[i as int]);
        assert(rest.skip(1) == bands@.skip(i as int + 1));
        if notable.is_none() && str_equal(bands[i].id.as_str(), "notable") {
            notable = Some(bands[i].brute_eligible);
        }
        ids.push(bands[i].id.clone());
        assert(band_ids(bands@).take(i as int + 1) == band_ids(bands@).take(i as int).push(bands@[i as int].id));
        i = i + 1;
    }
    assert(band_ids(bands@).take(i as int) == band_ids(bands@));
    let mut bands_required: Vec<&str> = Vec::new();
    bands_required.push("poor");
    bands_required.push("sound");
    bands_required.push("notable");
    assert(bands_required@.map_values(|r: &str| r@) =~= seq!["poor"@, "sound"@, "notable"@]);
    if let Some(k) = missing_id(&ids, &bands_required) {
        return Err(quoted("corpses.json: missing quality band '", bands_required[k]));
    }
    let eligible = match notable {
        Some(e) => e,
        None => false,
    };
    if !eligible {
        return Err(String::from_str("corpses.json: notable band must permit Brute resurrection"));
    }
    if !stage_present(event_stages, SuspicionStage::Rumour) {
        return Err(missing_event_error(SuspicionStage::Rumour));
    }
    if !stage_present(event_stages, SuspicionStage::Questioning) {
        return Err(missing_event_error(SuspicionStage::Questioning));
    }
    if !stage_present(event_stages, SuspicionStage::Investigation) {
        return Err(missing_event_error(SuspicionStage::Investigation));
    }
    let mut jobs_required: Vec<&str> = Vec::new();
    jobs_required.push("dig");
    jobs_required.push("haul");
    jobs_required.push("guard");
    jobs_required.push("wood");
    jobs_required.push("refine");
    assert(jobs_required@.map_values(|r: &str| r@) =~= seq!["dig"@, "haul"@, "guard"@, "wood"@, "refine"@]);
    if let Some(k) = missing_id(job_ids, &jobs_required) {
        return Err(quoted("jobs.json: missing required job '", jobs_required[k]));
    }
    let mut undead_required: Vec<&str> = Vec::new();
    undead_required.push("skeleton");
    undead_required.push("brute_skeleton");
    assert(undead_required@.map_values(|r: &str| r@) =~= seq!["skeleton"@, "brute_skeleton"@]);
    if let Some(k) = missing_id(undead_ids, &undead_required) {
        return Err(quoted("undead.json: missing required type '", undead_required[k]));
    }
    let mut buildings_required: Vec<&str> = Vec::new();
    buildings_required.push("work_shed");
    buildings_required.push("grave_lantern");
    buildings_required.push("ossuary_kiln");
    assert(buildings_required@.map_values(|r: &str| r@) =~= seq!["work_shed"@, "grave_lantern"@, "ossuary_kiln"@]);
    if let Some(k) = missing_id(building_ids, &buildings_required) {
        return Err(quoted("buildings.json: missing required building '", buildings_required[k]));
    }
    Ok(())
}

} // verus!

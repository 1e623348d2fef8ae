//! Authored configuration and text, and the checks that keep them usable.

use vstd::prelude::*;
use crate::text_util::{blank, is_blank, str_equal};
use crate::tile::TilePos;

verus! {

/// District rules that act on whole items: the extra haul capacity on a
/// marked storage tile and the storage each marked tile adds.
#[derive(Debug, Clone, Copy, PartialEq, Eq, Structural)]
pub struct DistrictRules {
    pub storage_capacity_bonus: i32,
    pub storage_volume_per_tile: i32,
}

/// An authored tile with an id.
#[derive(Debug, Clone)]
pub struct NamedTilePosition {
    pub id: String,
    pub position: TilePos,
}

/// The authored map layout.
#[derive(Debug, Clone)]
pub struct WorldLayoutConfig {
    pub road_x: i32,
    pub mana_source: TilePos,
    pub stockpile_position: TilePos,
    pub necromancer_position: TilePos,
    pub forest_tiles: Vec<TilePos>,
    pub plot_positions: Vec<TilePos>,
    pub building_positions: Vec<NamedTilePosition>,
}

/// The position of the first authored building entry with the given id.
pub open spec fn position_for_id(entries: Seq<NamedTilePosition>, id: Seq<char>) -> Option<TilePos>
    decreases entries.len(),
{
    if entries.len() == 0 {
        None
    } else if entries[0].id@ == id {
        Some(entries[0].position)
    } else {
        position_for_id(entries.skip(1), id)
    }
}

impl WorldLayoutConfig {
    pub fn building_position(&self, building_id: &str) -> (position: Option<TilePos>)
        ensures
            position == position_for_id(self.building_positions@, building_id@),
    {
        let mut i: usize = 0;
        assert(self.building_positions@.skip(0) == self.building_positions@);
        while i < self.building_positions.len()
            invariant
                i <= self.building_positions@.len(),
                position_for_id(self.building_positions@, building_id@) == position_for_id(
                    self.building_positions@.skip(i as int),
                    building_id@,
                ),
            decreases self.building_positions.len() - i,
        {
            let ghost rest = self.building_positions@.skip(i as int);
            assert(rest[0] == self.building_positions@[i as int]);
            assert(rest.skip(1) == self.building_positions@.skip(i as int + 1));
            if str_equal(self.building_positions[i].id.as_str(), building_id) {
                return Some(self.building_positions[i].position);
            }
            i = i + 1;
        }
        None
    }
}

/// The worker a new game starts with.
#[derive(Debug, Clone)]
pub struct StartingWorkerConfig {
    pub id: u32,
    pub name: String,
    pub undead_id: String,
    pub job_id: String,
}

/// What a new game starts with besides the map.
#[derive(Debug, Clone)]
pub struct StartingContentConfig {
    pub worker: StartingWorkerConfig,
    pub initial_feedback: String,
    pub initial_reason: String,
}

/// The whole-number balance and layout of a game.
#[derive(Debug, Clone)]
pub struct GameConfig {
    pub game_name: String,
    pub display_name: String,
    pub save_slot: String,
    pub version: String,
    pub world_width: usize,
    pub world_height: usize,
    pub starting_bones: i32,
    pub starting_mana: i32,
    pub starting_wood: i32,
    pub storage_capacity: i32,
    pub max_mana: i32,
    pub worker_wood_reserve: i32,
    pub starting_unlocked_plots: usize,
    pub starting_seed: u64,
    pub victory_undead: usize,
    pub victory_plots: usize,
    pub plot_unlock_base_wood: i32,
    pub plot_unlock_step_wood: i32,
    pub district_rules: DistrictRules,
    pub world_layout: WorldLayoutConfig,
    pub starting_content: StartingContentConfig,
}

/// Authored text of one study.
#[derive(Debug, Clone)]
pub struct ResearchTextDef {
    pub id: String,
    pub label: String,
    pub description: String,
}

/// Authored text of one stewardship policy.
#[derive(Debug, Clone)]
pub struct StewardshipTextDef {
    pub id: String,
    pub label: String,
    pub description: String,
}

/// Player-facing text of the game.
#[derive(Debug, Clone)]
pub struct GameText {
    pub new_game: String,
    pub victory: String,
    pub assets_loaded: String,
    pub movement_cancelled_feed: String,
    pub movement_cancelled_notification: String,
    pub movement_started_feed: String,
    pub movement_started_notification: String,
    pub automation_locked: String,
    pub production_cancelled: String,
    pub save_success: String,
    pub load_success: String,
    pub placement_guidance: String,
    pub grave_open_hint: String,
    pub grave_ready_hint: String,
    pub lantern_hint: String,
    pub invalid_zone_tile: String,
    pub research: Vec<ResearchTextDef>,
    pub stewardship: Vec<StewardshipTextDef>,
}

/// An authored entry with an id, a label and a description.
pub trait TextEntry {
    spec fn entry_id(&self) -> Seq<char>;

    spec fn entry_label(&self) -> Seq<char>;

    spec fn entry_description(&self) -> Seq<char>;

    fn id(&self) -> (id: &str)
        ensures
            id@ == self.entry_id(),
    ;

    fn label(&self) -> (label: &str)
        ensures
            label@ == self.entry_label(),
    ;

    fn description(&self) -> (description: &str)
        ensures
            description@ == self.entry_description(),
    ;
}

impl TextEntry for ResearchTextDef {
    open spec fn entry_id(&self) -> Seq<char> {
        self.id@
    }

    open spec fn entry_label(&self) -> Seq<char> {
        self.label@
    }

    open spec fn entry_description(&self) -> Seq<char> {
        self.description@
    }

    fn id(&self) -> (id: &str) {
        self.id.as_str()
    }

    fn label(&self) -> (label: &str) {
        self.label.as_str()
    }

    fn description(&self) -> (description: &str) {
        self.description.as_str()
    }
}

impl TextEntry for StewardshipTextDef {
    open spec fn entry_id(&self) -> Seq<char> {
        self.id@
    }

    open spec fn entry_label(&self) -> Seq<char> {
        self.label@
    }

    open spec fn entry_description(&self) -> Seq<char> {
        self.description@
    }

    fn id(&self) -> (id: &str) {
        self.id.as_str()
    }

    fn label(&self) -> (label: &str) {
        self.label.as_str()
    }

    fn description(&self) -> (description: &str) {
        self.description.as_str()
    }
}

/// The first entry whose id is `id`.
pub open spec fn entry_for_id<T: TextEntry>(entries: Seq<T>, id: Seq<char>) -> Option<T>
    decreases entries.len(),
{
    if entries.len() == 0 {
        None
    } else if entries[0].entry_id() == id {
        Some(entries[0])
    } else {
        entry_for_id(entries.skip(1), id)
    }
}

fn find_entry<'a, T: TextEntry>(entries: &'a Vec<T>, id: &str) -> (entry: Option<&'a T>)
    ensures
        match entry {
            Some(e) => entry_for_id(entries@, id@) == Some(*e),
            None => entry_for_id(entries@, id@) is None,
        },
{
    let mut i: usize = 0;
    assert(entries@.skip(0) == entries@);
    while i < entries.len()
        invariant
            i <= entries@.len(),
            entry_for_id(entries@, id@) == entry_for_id(entries@.skip(i as int), id@),
        decreases entries.len() - i,
    {
        let ghost rest = entries@.skip(i as int);
        assert(rest[0] == entries@[i as int]);
        assert(rest.skip(1) == entries@.skip(i as int + 1));
        if str_equal(entries[i].id(), id) {
            return Some(&entries[i]);
        }
        i = i + 1;
    }
    None
}

impl GameText {
    pub fn research(&self, id: &str) -> (entry: Option<&ResearchTextDef>)
        ensures
            match entry {
                Some(e) => entry_for_id(self.research@, id@) == Some(*e),
                None => entry_for_id(self.research@, id@) is None,
            },
    {
        find_entry(&self.research, id)
    }

    pub fn stewardship(&self, id: &str) -> (entry: Option<&StewardshipTextDef>)
        ensures
            match entry {
                Some(e) => entry_for_id(self.stewardship@, id@) == Some(*e),
                None => entry_for_id(self.stewardship@, id@) is None,
            },
    {
        find_entry(&self.stewardship, id)
    }
}

/// Some entry has the id `id`.
pub open spec fn has_entry<T: TextEntry>(entries: Seq<T>, id: Seq<char>) -> bool {
    exists|i: int| 0 <= i < entries.len() && (#[trigger] entries[i]).entry_id() == id
}

/// Authored entries with unique ids, every required id present, and no
/// empty id, label or description.
pub open spec fn entries_valid<T: TextEntry>(entries: Seq<T>, required: Seq<Seq<char>>) -> bool {
    &&& forall|i: int, j: int|
        0 <= i < entries.len() && 0 <= j < entries.len() && i != j ==> (#[trigger] entries[i]).entry_id()
            != (#[trigger] entries[j]).entry_id()
    &&& forall|r: int| 0 <= r < required.len() ==> has_entry(entries, #[trigger] required[r])
    &&& forall|i: int|
        0 <= i < entries.len() ==> (#[trigger] entries[i]).entry_id().len() > 0 && entries[i].entry_label().len() > 0
            && entries[i].entry_description().len() > 0
}

pub fn validate_text_entries<T: TextEntry>(entries: &Vec<T>, required: &Vec<&str>) -> (result: Result<(), String>)
    ensures
        result is Ok <==> entries_valid(entries@, required@.map_values(|r: &str| r@)),
        result matches Err(message) ==> message@ == "text.json: authored entries need unique IDs, labels, and descriptions"@,
{
    let ghost req = required@.map_values(|r: &str| r@);
    let mut ok = true;
    let mut i: usize = 0;
    while i < entries.len()
        invariant
            i <= entries@.len(),
            ok,
            ok == (forall|a: int, b: int|
                0 <= a < i && 0 <= b < entries@.len() && a != b ==> (#[trigger] entries@[a]).entry_id()
                    != (#[trigger] entries@[b]).entry_id()),
        decreases entries.len() - i,
    {
        let mut j: usize = 0;
        while j < entries.len()
            invariant
                i < entries@.len(),
                j <= entries@.len(),
                ok ==> (forall|a: int, b: int|
                    0 <= a < i && 0 <= b < entries@.len() && a != b ==> (#[trigger] entries@[a]).entry_id()
                        != (#[trigger] entries@[b]).entry_id()),
                ok ==> forall|b: int| 0 <= b < j && b != i ==> entries@[i as int].entry_id() != (#[trigger] entries@[b]).entry_id(),
                !ok ==> !(forall|a: int, b: int|
                    0 <= a < i + 1 && 0 <= b < entries@.len() && a != b ==> (#[trigger] entries@[a]).entry_id()
                        != (#[trigger] entries@[b]).entry_id()),
            decreases entries.len() - j,
        {
            if j != i && str_equal(entries[i].id(), entries[j].id()) {
                ok = false;
            }
            j = j + 1;
        }
        if !ok {
            return Err(String::from_str("text.json: authored entries need unique IDs, labels, and descriptions"));
        }
        i = i + 1;
    }
    let mut r: usize = 0;
    while r < required.len()
        invariant
            r <= required@.len(),
            req == required@.map_values(|x: &str| x@),
            forall|a: int, b: int|
                0 <= a < entries@.len() && 0 <= b < entries@.len() && a != b ==> (#[trigger] entries@[a]).entry_id()
                    != (#[trigger] entries@[b]).entry_id(),
            forall|k: int| 0 <= k < r ==> has_entry(entries@, #[trigger] req[k]),
        decreases required.len() - r,
    {
        let mut found = false;
        let mut k: usize = 0;
        while k < entries.len()
            invariant
                r < required@.len(),
                k <= entries@.len(),
                req == required@.map_values(|x: &str| x@),
                found ==> exists|a: int| 0 <= a < entries@.len() && (#[trigger] entries@[a]).entry_id() == req[r as int],
                !found ==> forall|a: int| 0 <= a < k ==> (#[trigger] entries@[a]).entry_id() != req[r as int],
            decreases entries.len() - k,
        {
            proof {
                assert(req[r as int] == required@[r as int]@);
            }
            if !found && str_equal(entries[k].id(), required[r]) {
                found = true;
                assert(entries@[k as int].entry_id() == req[r as int]);
            }
            k = k + 1;
        }
        if !found {
            proof {
                assert(req[r as int] == required@[r as int]@);
                assert(!entries_valid(entries@, req)) by {
                    if entries_valid(entries@, req) {
                        assert(has_entry(entries@, req[r as int]));
                        let a = choose|a: int| 0 <= a < entries@.len() && (#[trigger] entries@[a]).entry_id() == req[r as int];
                        assert(entries@[a].entry_id() != req[r as int]);
                    }
                }
            }
            return Err(String::from_str("text.json: authored entries need unique IDs, labels, and descriptions"));
        }
        assert(has_entry(entries@, req[r as int]));
        r = r + 1;
    }
    assert(req.len() == required@.len());
    assert(r == req.len());
    let mut e: usize = 0;
    while e < entries.len()
        invariant
            e <= entries@.len(),
            req == required@.map_values(|x: &str| x@),
            forall|a: int, b: int|
                0 <= a < entries@.len() && 0 <= b < entries@.len() && a != b ==> (#[trigger] entries@[a]).entry_id()
                    != (#[trigger] entries@[b]).entry_id(),
            forall|k: int| 0 <= k < req.len() ==> has_entry(entries@, #[trigger] req[k]),
            forall|a: int| 0 <= a < e ==> (#[trigger] entries@[a]).entry_id().len() > 0 && entries@[a].entry_label().len() > 0
                && entries@[a].entry_description().len() > 0,
        decreases entries.len() - e,
    {
        let entry = &entries[e];
        if entry.id().unicode_len() == 0 || entry.label().unicode_len() == 0 || entry.description().unicode_len() == 0 {
            return Err(String::from_str("text.json: authored entries need unique IDs, labels, and descriptions"));
        }
        e = e + 1;
    }
    assert(entries_valid(entries@, req));
    Ok(())
}

/// Every fixed text field holds something besides whitespace.
pub open spec fn fixed_text_present(text: GameText) -> bool {
    &&& !blank(text.new_game@)
    &&& !blank(text.victory@)
    &&& !blank(text.assets_loaded@)
    &&& !blank(text.movement_cancelled_feed@)
    &&& !blank(text.movement_cancelled_notification@)
    &&& !blank(text.movement_started_feed@)
    &&& !blank(text.movement_started_notification@)
    &&& !blank(text.automation_locked@)
    &&& !blank(text.production_cancelled@)
    &&& !blank(text.save_success@)
    &&& !blank(text.load_success@)
    &&& !blank(text.placement_guidance@)
    &&& !blank(text.grave_open_hint@)
    &&& !blank(text.grave_ready_hint@)
    &&& !blank(text.lantern_hint@)
    &&& !blank(text.invalid_zone_tile@)
}

pub open spec fn research_ids() -> Seq<Seq<char>> {
    seq!["binding_routines"@, "gravecraft"@, "ossuary_logistics"@, "domain_stewardship"@]
}

pub open spec fn stewardship_ids() -> Seq<Seq<char>> {
    seq!["balanced"@, "secure"@, "harvest"@]
}

/// Authored text is usable: every fixed message is present and the study
/// and policy entries are complete.
pub open spec fn text_valid(text: GameText) -> bool {
    &&& fixed_text_present(text)
    &&& entries_valid(text.research@, research_ids())
    &&& entries_valid(text.stewardship@, stewardship_ids())
}

pub fn validate_text(text: &GameText) -> (result: Result<(), String>)
    ensures
        result is Ok <==> text_valid(*text),
{
    if is_blank(text.new_game.as_str()) || is_blank(text.victory.as_str()) || is_blank(text.assets_loaded.as_str())
        || is_blank(text.movement_cancelled_feed.as_str()) || is_blank(text.movement_cancelled_notification.as_str())
        || is_blank(text.movement_started_feed.as_str()) || is_blank(text.movement_started_notification.as_str())
        || is_blank(text.automation_locked.as_str()) || is_blank(text.production_cancelled.as_str())
        || is_blank(text.save_success.as_str()) || is_blank(text.load_success.as_str())
        || is_blank(text.placement_guidance.as_str()) || is_blank(text.grave_open_hint.as_str())
        || is_blank(text.grave_ready_hint.as_str()) || is_blank(text.lantern_hint.as_str())
        || is_blank(text.invalid_zone_tile.as_str()) {
        return Err(String::from_str(
            "text.json: [\"new_game\", \"victory\", \"assets_loaded\", \"movement_cancelled_feed\", \"movement_cancelled_notification\", \"movement_started_feed\", \"movement_started_notification\", \"automation_locked\", \"production_cancelled\", \"save_success\", \"load_success\", \"placement_guidance\", \"grave_open_hint\", \"grave_ready_hint\", \"lantern_hint\", \"invalid_zone_tile\"] must not be empty",
        ));
    }
    let mut research: Vec<&str> = Vec::new();
    research.push("binding_routines");
    research.push("gravecraft");
    research.push("ossuary_logistics");
    research.push("domain_stewardship");
    assert(research@.map_values(|r: &str| r@) =~= research_ids());
    validate_text_entries(&text.research, &research)?;
    let mut stewardship: Vec<&str> = Vec::new();
    stewardship.push("balanced");
    stewardship.push("secure");
    stewardship.push("harvest");
    assert(stewardship@.map_values(|r: &str| r@) =~= stewardship_ids());
    validate_text_entries(&text.stewardship, &stewardship)
}

} // verus!

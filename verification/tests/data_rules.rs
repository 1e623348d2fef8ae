use tiny_necromancer::data::{
    DistrictRules, GameConfig, NamedTilePosition, StartingContentConfig, StartingWorkerConfig,
    WorldLayoutConfig,
};
use tiny_necromancer::economy::Corpse;
use tiny_necromancer::kinds::{CorpseQuality, JobKind, UndeadKind};
use tiny_necromancer::names::NameBuffer;
use tiny_necromancer::raising::{
    can_raise, discover, fallback_worker_name, find_undead, raise, raise_with_name, UndeadDef,
};
use tiny_necromancer::session::GameSession;
use tiny_necromancer::tile::TilePos;
use tiny_necromancer::validation::{
    unique_tiles, valid_tile, validate_config, validate_starting_content, validate_world_layout,
    FractionalChecks,
};

fn named(id: &str, x: i32, y: i32) -> NamedTilePosition {
    NamedTilePosition { id: id.to_string(), position: TilePos::new(x, y) }
}

fn config() -> GameConfig {
    GameConfig {
        game_name: "tiny_necromancer".to_string(),
        display_name: "Tiny Necromancer".to_string(),
        save_slot: "main".to_string(),
        version: "1".to_string(),
        world_width: 10,
        world_height: 8,
        starting_bones: 10,
        starting_mana: 20,
        starting_wood: 12,
        storage_capacity: 96,
        max_mana: 100,
        worker_wood_reserve: 0,
        starting_unlocked_plots: 1,
        starting_seed: 7,
        victory_undead: 6,
        victory_plots: 6,
        plot_unlock_base_wood: 6,
        plot_unlock_step_wood: 2,
        district_rules: DistrictRules { storage_capacity_bonus: 4, storage_volume_per_tile: 8 },
        world_layout: WorldLayoutConfig {
            road_x: 8,
            mana_source: TilePos::new(7, 0),
            stockpile_position: TilePos::new(6, 5),
            necromancer_position: TilePos::new(5, 6),
            forest_tiles: vec![TilePos::new(0, 0), TilePos::new(0, 1), TilePos::new(1, 7)],
            plot_positions: vec![
                TilePos::new(2, 2),
                TilePos::new(4, 2),
                TilePos::new(2, 4),
                TilePos::new(4, 4),
                TilePos::new(2, 6),
                TilePos::new(4, 6),
            ],
            building_positions: vec![
                named("work_shed", 6, 2),
                named("grave_lantern", 5, 0),
                named("ossuary_kiln", 6, 4),
            ],
        },
        starting_content: StartingContentConfig {
            worker: StartingWorkerConfig {
                id: 1,
                name: "Rattle".to_string(),
                undead_id: "skeleton".to_string(),
                job_id: "dig".to_string(),
            },
            initial_feedback: "The first grave waits.".to_string(),
            initial_reason: "Quiet night.".to_string(),
        },
    }
}

fn checks() -> FractionalChecks {
    FractionalChecks {
        rates_valid: true,
        corpse_chance_valid: true,
        thresholds_valid: true,
        district_multipliers_valid: true,
        durations_valid: true,
    }
}

fn undead() -> Vec<UndeadDef> {
    vec![
        UndeadDef {
            id: "skeleton".to_string(),
            name: "Skeleton".to_string(),
            bones_cost: 10,
            mana_cost: 5,
            haul_capacity: 8,
            description: "A dependable digger.".to_string(),
        },
        UndeadDef {
            id: "brute_skeleton".to_string(),
            name: "Brute Skeleton".to_string(),
            bones_cost: 20,
            mana_cost: 10,
            haul_capacity: 14,
            description: "A heavy lifter.".to_string(),
        },
    ]
}

fn corpse(id: u32, quality: CorpseQuality) -> Corpse {
    Corpse { id, quality, cause_of_death: "fever".to_string() }
}

#[test]
fn authored_data_loads_and_has_required_content() {
    let config = config();
    assert_eq!(config.world_width, 10);
    assert_eq!(validate_config(&config, checks()), Ok(()));
    assert_eq!(validate_world_layout(&config), Ok(()));
    let undead_ids = vec!["skeleton".to_string(), "brute_skeleton".to_string()];
    let job_ids = vec!["dig".to_string(), "haul".to_string(), "refine".to_string()];
    assert_eq!(validate_starting_content(&config, &undead_ids, &job_ids), Ok(()));
    assert_eq!(config.district_rules.storage_capacity_bonus, 4);
    assert!(find_undead(&undead(), UndeadKind::BruteSkeleton).is_some());
}

#[test]
fn invalid_thresholds_are_rejected() {
    let config = config();
    let broken = FractionalChecks { thresholds_valid: false, ..checks() };
    assert_eq!(
        validate_config(&config, broken),
        Err("game_config.json: suspicion thresholds must increase within 0..100".to_string())
    );
}

#[test]
fn invalid_district_rules_are_rejected() {
    let mut config = config();
    config.district_rules.storage_capacity_bonus = -1;
    assert_eq!(
        validate_config(&config, checks()),
        Err("game_config.json: district rules must provide non-negative bonuses".to_string())
    );
}

#[test]
fn starting_targets_must_fit_the_plot_count() {
    let mut config = config();
    config.starting_unlocked_plots = 7;
    assert_eq!(
        validate_config(&config, checks()),
        Err("game_config.json: starting resources or plot targets are invalid".to_string())
    );
    let mut empty = self::config();
    empty.world_width = 0;
    assert_eq!(
        validate_config(&empty, checks()),
        Err("game_config.json: world dimensions must be positive".to_string())
    );
}

#[test]
fn layout_tiles_must_lie_inside_and_stay_distinct() {
    let config = config();
    assert!(valid_tile(TilePos::new(9, 7), &config));
    assert!(!valid_tile(TilePos::new(10, 0), &config));
    assert!(!valid_tile(TilePos::new(0, -1), &config));
    assert!(unique_tiles(&vec![TilePos::new(1, 1), TilePos::new(2, 1)]));
    assert!(!unique_tiles(&vec![TilePos::new(1, 1), TilePos::new(2, 1), TilePos::new(1, 1)]));
    let mut doubled = config.clone();
    doubled.world_layout.plot_positions[1] = TilePos::new(2, 2);
    assert!(validate_world_layout(&doubled).is_err());
}

#[test]
fn the_starting_worker_must_be_a_digging_skeleton() {
    let mut config = config();
    config.starting_content.worker.job_id = "haul".to_string();
    let undead_ids = vec!["skeleton".to_string()];
    let job_ids = vec!["dig".to_string(), "haul".to_string()];
    assert_eq!(
        validate_starting_content(&config, &undead_ids, &job_ids),
        Err("game_config.json: the starting worker must be a skeleton assigned to dig".to_string())
    );
}

#[test]
fn raising_spends_bones_and_mana_and_joins_as_hauler() {
    let mut session = GameSession::new(&config());
    session.economy.bones = 30;
    session.economy.mana = 20;
    session.economy.corpses = vec![corpse(0, CorpseQuality::Sound)];
    raise_with_name(&mut session, &undead(), UndeadKind::Skeleton, Some("  Bony  ")).unwrap();
    assert_eq!((session.economy.bones, session.economy.mana), (20, 15));
    let raised = session.workforce.workers.last().unwrap();
    assert_eq!(raised.name, "Bony");
    assert_eq!(raised.assignment, JobKind::Haul);
    assert_eq!(raised.position, TilePos::new(7, 0));
    assert_eq!(raised.id, 2);
    assert_eq!(session.workforce.selected_worker, 1);
    assert!(session.economy.corpses.is_empty());
    assert_eq!(session.pressure.feed[0].message, "Raised a Skeleton. It reports for Haul duty.");
}

#[test]
fn a_taken_name_falls_back_to_the_rotation() {
    let mut session = GameSession::new(&config());
    session.economy.bones = 30;
    session.economy.mana = 20;
    raise_with_name(&mut session, &undead(), UndeadKind::Skeleton, Some("rattle")).unwrap();
    let expected = fallback_worker_name(&GameSession::new(&config()), UndeadKind::Skeleton, 2);
    assert_eq!(session.workforce.workers[1].name, expected);
    assert_eq!(expected, "Gravewhistle");
}

#[test]
fn raising_names_its_cost_when_short() {
    let mut session = GameSession::new(&config());
    session.economy.bones = 9;
    session.economy.mana = 20;
    assert_eq!(raise(&mut session, &undead(), UndeadKind::Skeleton), Err("Need 10 bones and 5 mana.".to_string()));
    assert_eq!(session.workforce.workers.len(), 1);
}

#[test]
fn a_brute_needs_a_notable_remnant() {
    let mut session = GameSession::new(&config());
    session.economy.bones = 60;
    session.economy.mana = 60;
    session.economy.corpses = vec![corpse(0, CorpseQuality::Sound)];
    assert_eq!(
        can_raise(&session, &undead(), UndeadKind::BruteSkeleton),
        Err("A Brute needs a Notable corpse remnant.".to_string())
    );
    session.economy.corpses.push(corpse(1, CorpseQuality::Notable));
    raise(&mut session, &undead(), UndeadKind::BruteSkeleton).unwrap();
    assert_eq!(session.economy.corpses.len(), 1);
    assert_eq!(session.economy.corpses[0].quality, CorpseQuality::Sound);
    assert_eq!(session.workforce.workers[1].kind, UndeadKind::BruteSkeleton);
}

#[test]
fn the_first_remnant_found_is_notable() {
    let mut session = GameSession::new(&config());
    let first = discover(&mut session, CorpseQuality::Poor, "a fall".to_string());
    assert_eq!(first.quality, CorpseQuality::Notable);
    let second = discover(&mut session, CorpseQuality::Poor, "old age".to_string());
    assert_eq!(second.quality, CorpseQuality::Poor);
    assert_eq!(session.economy.corpses.len(), 2);
    assert_eq!(session.pressure.feed[0].message, "Found a Poor corpse remnant.");
}

#[test]
fn offered_names_are_trimmed_and_kept_once() {
    let mut buffer = NameBuffer::new();
    assert!(buffer.wants_more());
    buffer.absorb(&vec![" Morrow ".to_string(), "".to_string(), "morrow".to_string(), "Ash".to_string(), "   ".to_string()]);
    assert_eq!(buffer.names, vec!["Morrow".to_string(), "Ash".to_string()]);
    buffer.absorb(&vec!["ASH".to_string(), "Sable".to_string()]);
    assert_eq!(buffer.names, vec!["Morrow".to_string(), "Ash".to_string(), "Sable".to_string()]);
    assert!(!buffer.wants_more());
}

#[test]
fn names_already_in_use_are_skipped_when_handing_out() {
    let session = GameSession::new(&config());
    let mut buffer = NameBuffer::new();
    buffer.absorb(&vec!["rattle".to_string(), "Ash".to_string()]);
    assert_eq!(buffer.take_name(&session.workforce.workers), Some("Ash".to_string()));
    assert_eq!(buffer.names, vec!["rattle".to_string()]);
    assert_eq!(buffer.take_name(&session.workforce.workers), None);
    assert_eq!(buffer.names, vec!["rattle".to_string()]);
}

//! Raising new undead workers from bones, mana and corpse remnants.

use vstd::prelude::*;
use crate::economy::Corpse;
use crate::kinds::{undead_id, CorpseQuality, JobKind, UndeadKind, WorkerStatus};
use crate::progression::newest_line;
use crate::session::GameSession;
use crate::text_util::{
    decimal, digits, eq_ignore_ascii_case, push_decimal, push_digits, push_str, same_ignoring_case, str_equal, trim,
    trimmed,
};
use crate::tile::TilePos;
use crate::workforce::Worker;

verus! {

/// The whole-number part of an authored undead type.
#[derive(Debug, Clone)]
pub struct UndeadDef {
    pub id: String,
    pub name: String,
    pub bones_cost: i32,
    pub mana_cost: i32,
    pub haul_capacity: i32,
    pub description: String,
}

/// The first undead entry with id `id`.
pub open spec fn undead_def_for(defs: Seq<UndeadDef>, id: Seq<char>) -> Option<UndeadDef>
    decreases defs.len(),
{
    if defs.len() == 0 {
        None
    } else if defs[0].id@ == id {
        Some(defs[0])
    } else {
        undead_def_for(defs.skip(1), id)
    }
}

/// No undead type costs a negative amount.
pub open spec fn undead_defs_valid(defs: Seq<UndeadDef>) -> bool {
    forall|i: int| 0 <= i < defs.len() ==> (#[trigger] defs[i]).bones_cost >= 0 && defs[i].mana_cost >= 0
}

pub fn find_undead<'a>(defs: &'a Vec<UndeadDef>, kind: UndeadKind) -> (def: Option<&'a UndeadDef>)
    ensures
        match def {
            Some(d) => undead_def_for(defs@, undead_id(kind)) == Some(*d),
            None => undead_def_for(defs@, undead_id(kind)) is None,
        },
{
    let id = kind.id();
    let mut i: usize = 0;
    assert(defs@.skip(0) == defs@);
    while i < defs.len()
        invariant
            i <= defs@.len(),
            id@ == undead_id(kind),
            undead_def_for(defs@, id@) == undead_def_for(defs@.skip(i as int), id@),
        decreases defs.len() - i,
    {
        let ghost rest = defs@.skip(i as int);
        assert(rest[0] == defs@[i as int]);
        assert(rest.skip(1) == defs@.skip(i as int + 1));
        if str_equal(defs[i].id.as_str(), id) {
            return Some(&defs[i]);
        }
        i = i + 1;
    }
    None
}

proof fn lemma_undead_def_valid(defs: Seq<UndeadDef>, id: Seq<char>)
    requires
        undead_defs_valid(defs),
    ensures
        undead_def_for(defs, id) matches Some(d) ==> d.bones_cost >= 0 && d.mana_cost >= 0,
    decreases defs.len(),
{
    if defs.len() > 0 && defs[0].id@ != id {
        let rest = defs.skip(1);
        assert forall|i: int| 0 <= i < rest.len() implies (#[trigger] rest[i]).bones_cost >= 0 && rest[i].mana_cost
            >= 0 by {
            assert(rest[i] == defs[i + 1]);
        }
        lemma_undead_def_valid(rest, id);
    }
}

/// The first corpse whose quality is notable exactly when `notable`.
pub open spec fn corpse_index(corpses: Seq<Corpse>, notable: bool) -> Option<int>
    decreases corpses.len(),
{
    if corpses.len() == 0 {
        None
    } else if (corpses[0].quality == CorpseQuality::Notable) == notable {
        Some(0)
    } else {
        match corpse_index(corpses.skip(1), notable) {
            Some(i) => Some(i + 1),
            None => None,
        }
    }
}

pub open spec fn recipe_missing_message() -> Seq<char> {
    "Undead recipe is missing from authored data."@
}

pub open spec fn raise_cost_message(def: UndeadDef) -> Seq<char> {
    "Need "@ + decimal(def.bones_cost as int) + " bones and "@ + decimal(def.mana_cost as int) + " mana."@
}

pub open spec fn brute_needs_notable_message() -> Seq<char> {
    "A Brute needs a Notable corpse remnant."@
}

/// Why an undead of `kind` cannot be raised now; `None` when it can.
pub open spec fn raise_refusal(session: GameSession, defs: Seq<UndeadDef>, kind: UndeadKind) -> Option<Seq<char>> {
    match undead_def_for(defs, undead_id(kind)) {
        None => Some(recipe_missing_message()),
        Some(def) => if session.economy.bones < def.bones_cost || session.economy.mana < def.mana_cost {
            Some(raise_cost_message(def))
        } else if kind == UndeadKind::BruteSkeleton && corpse_index(session.economy.corpses@, true) is None {
            Some(brute_needs_notable_message())
        } else {
            None
        },
    }
}

proof fn lemma_corpse_index(corpses: Seq<Corpse>, notable: bool)
    ensures
        corpse_index(corpses, notable) matches Some(i) ==> 0 <= i < corpses.len(),
    decreases corpses.len(),
{
    if corpses.len() > 0 {
        lemma_corpse_index(corpses.skip(1), notable);
    }
}

fn first_corpse(corpses: &Vec<Corpse>, notable: bool) -> (index: Option<usize>)
    ensures
        match index {
            Some(i) => corpse_index(corpses@, notable) == Some(i as int),
            None => corpse_index(corpses@, notable) is None,
        },
{
    let mut i: usize = 0;
    assert(corpses@.skip(0) == corpses@);
    while i < corpses.len()
        invariant
            i <= corpses@.len(),
            corpse_index(corpses@, notable) == match corpse_index(corpses@.skip(i as int), notable) {
                Some(k) => Some(k + i),
                None => None::<int>,
            },
        decreases corpses.len() - i,
    {
        let ghost rest = corpses@.skip(i as int);
        assert(rest[0] == corpses@[i as int]);
        assert(rest.skip(1) == corpses@.skip(i as int + 1));
        if (corpses[i].quality == CorpseQuality::Notable) == notable {
            assert(corpse_index(rest, notable) == Some(0int));
            return Some(i);
        }
        i = i + 1;
    }
    None
}

/// Whether an undead of `kind` can be raised now, and if not, why.
pub fn can_raise(session: &GameSession, defs: &Vec<UndeadDef>, kind: UndeadKind) -> (result: Result<(), String>)
    ensures
        raise_refusal(*session, defs@, kind) matches Some(m) ==> (result matches Err(e) && e@ == m),
        result is Ok <==> raise_refusal(*session, defs@, kind) is None,
{
    let def = match find_undead(defs, kind) {
        None => {
            return Err(String::from_str("Undead recipe is missing from authored data."));
        },
        Some(def) => def,
    };
    if session.economy.bones < def.bones_cost || session.economy.mana < def.mana_cost {
        let mut message = String::from_str("Need ");
        push_decimal(&mut message, def.bones_cost as i64);
        push_str(&mut message, " bones and ");
        push_decimal(&mut message, def.mana_cost as i64);
        push_str(&mut message, " mana.");
        return Err(message);
    }
    if kind == UndeadKind::BruteSkeleton && first_corpse(&session.economy.corpses, true).is_none() {
        return Err(String::from_str("A Brute needs a Notable corpse remnant."));
    }
    Ok(())
}

// -------------------------------------------------------------------- names

/// Some worker already goes by `name`, ignoring ASCII case.
pub open spec fn name_taken(workers: Seq<Worker>, name: Seq<char>) -> bool {
    exists|i: int| 0 <= i < workers.len() && same_ignoring_case((#[trigger] workers[i]).name@, name)
}

pub(crate) fn is_name_taken(workers: &Vec<Worker>, name: &str) -> (taken: bool)
    ensures
        taken == name_taken(workers@, name@),
{
    let mut i: usize = 0;
    while i < workers.len()
        invariant
            i <= workers@.len(),
            forall|k: int| 0 <= k < i ==> !same_ignoring_case((#[trigger] workers@[k]).name@, name@),
        decreases workers.len() - i,
    {
        if eq_ignore_ascii_case(workers[i].name.as_str(), name) {
            assert(same_ignoring_case(workers@[i as int].name@, name@));
            return true;
        }
        i = i + 1;
    }
    false
}

/// The eight names given in turn to undead of `kind`.
pub open spec fn rotation_name(kind: UndeadKind, i: int) -> Seq<char> {
    match kind {
        UndeadKind::Skeleton => if i == 0 {
            "Knucklebones"@
        } else if i == 1 {
            "Marrow"@
        } else if i == 2 {
            "Gravewhistle"@
        } else if i == 3 {
            "Dustcap"@
        } else if i == 4 {
            "Clatter"@
        } else if i == 5 {
            "Palehand"@
        } else if i == 6 {
            "Riblet"@
        } else {
            "Mourn"@
        },
        UndeadKind::BruteSkeleton => if i == 0 {
            "Thump"@
        } else if i == 1 {
            "Ossifer"@
        } else if i == 2 {
            "Stonejaw"@
        } else if i == 3 {
            "Gravelord"@
        } else if i == 4 {
            "Ironrib"@
        } else if i == 5 {
            "Boulder"@
        } else if i == 6 {
            "Breakbone"@
        } else {
            "Maw"@
        },
    }
}

fn rotation_name_text(kind: UndeadKind, i: usize) -> (name: &'static str)
    requires
        i < 8,
    ensures
        name@ == rotation_name(kind, i as int),
{
    match kind {
        UndeadKind::Skeleton => if i == 0 {
            "Knucklebones"
        } else if i == 1 {
            "Marrow"
        } else if i == 2 {
            "Gravewhistle"
        } else if i == 3 {
            "Dustcap"
        } else if i == 4 {
            "Clatter"
        } else if i == 5 {
            "Palehand"
        } else if i == 6 {
            "Riblet"
        } else {
            "Mourn"
        },
        UndeadKind::BruteSkeleton => if i == 0 {
            "Thump"
        } else if i == 1 {
            "Ossifer"
        } else if i == 2 {
            "Stonejaw"
        } else if i == 3 {
            "Gravelord"
        } else if i == 4 {
            "Ironrib"
        } else if i == 5 {
            "Boulder"
        } else if i == 6 {
            "Breakbone"
        } else {
            "Maw"
        },
    }
}

/// The first free rotation name, starting at slot `start` and trying
/// `offset` and later ones.
pub open spec fn free_rotation_name(workers: Seq<Worker>, kind: UndeadKind, start: int, offset: int) -> Option<Seq<char>>
    decreases 8 - offset,
{
    if offset >= 8 {
        None
    } else if !name_taken(workers, rotation_name(kind, (start + offset) % 8)) {
        Some(rotation_name(kind, (start + offset) % 8))
    } else {
        free_rotation_name(workers, kind, start, offset + 1)
    }
}

pub open spec fn numbered_prefix(kind: UndeadKind) -> Seq<char> {
    match kind {
        UndeadKind::Skeleton => "Skeleton"@,
        UndeadKind::BruteSkeleton => "Brute"@,
    }
}

/// The `k`-th numbered name tried for worker `id`: the number grows from the
/// worker's id and stops at the largest `u32`.
pub open spec fn numbered_name(kind: UndeadKind, id: u32, k: int) -> Seq<char> {
    let n = if id + k > u32::MAX { u32::MAX as int } else { id + k };
    numbered_prefix(kind) + " "@ + digits(n as nat)
}

/// The first free numbered name among tries `k` up to `limit`.
pub open spec fn free_numbered_name(workers: Seq<Worker>, kind: UndeadKind, id: u32, k: int, limit: int) -> Option<
    Seq<char>,
>
    decreases limit + 1 - k,
{
    if k > limit {
        None
    } else if !name_taken(workers, numbered_name(kind, id, k)) {
        Some(numbered_name(kind, id, k))
    } else {
        free_numbered_name(workers, kind, id, k + 1, limit)
    }
}

/// The name a new undead of `kind` with id `id` gets when none was chosen:
/// the first rotation name no worker uses, starting at the id's slot, else
/// the first free numbered name (one of the first `workers + 1` tries
/// always is, as no two tries give the same name).
pub open spec fn fallback_name(workers: Seq<Worker>, kind: UndeadKind, id: u32) -> Seq<char> {
    match free_rotation_name(workers, kind, (id % 8) as int, 0) {
        Some(name) => name,
        None => match free_numbered_name(workers, kind, id, 0, workers.len() as int) {
            Some(name) => name,
            None => numbered_name(kind, id, workers.len() as int),
        },
    }
}

fn numbered_name_text(kind: UndeadKind, id: u32, k: usize) -> (name: String)
    ensures
        name@ == numbered_name(kind, id, k as int),
{
    let n: u32 = if k as u64 >= u32::MAX as u64 || id as u64 + k as u64 > u32::MAX as u64 {
        u32::MAX
    } else {
        (id as u64 + k as u64) as u32
    };
    let mut name = String::new();
    match kind {
        UndeadKind::Skeleton => push_str(&mut name, "Skeleton"),
        UndeadKind::BruteSkeleton => push_str(&mut name, "Brute"),
    }
    push_str(&mut name, " ");
    push_digits(&mut name, n as u64);
    assert(name@ =~= numbered_name(kind, id, k as int));
    name
}

/// The name a new undead of `kind` with id `worker_id` gets when none was
/// chosen.
pub fn fallback_worker_name(session: &GameSession, kind: UndeadKind, worker_id: u32) -> (name: String)
    ensures
        name@ == fallback_name(session.workforce.workers@, kind, worker_id),
{
    let workers = &session.workforce.workers;
    let start = (worker_id % 8) as usize;
    let mut offset: usize = 0;
    while offset < 8
        invariant
            workers@ == session.workforce.workers@,
            offset <= 8,
            start < 8,
            start == worker_id % 8,
            free_rotation_name(workers@, kind, start as int, 0) == free_rotation_name(
                workers@,
                kind,
                start as int,
                offset as int,
            ),
        decreases 8 - offset,
    {
        let candidate = rotation_name_text(kind, (start + offset) % 8);
        if !is_name_taken(workers, candidate) {
            assert(free_rotation_name(workers@, kind, start as int, offset as int) == Some(candidate@));
            return String::from_str(candidate);
        }
        offset = offset + 1;
    }
    assert(free_rotation_name(workers@, kind, start as int, 8) is None);
    let limit = workers.len();
    let mut k: usize = 0;
    while k <= limit
        invariant
            workers@ == session.workforce.workers@,
            limit == workers@.len(),
            k <= limit + 1,
            free_rotation_name(workers@, kind, (worker_id % 8) as int, 0) is None,
            free_numbered_name(workers@, kind, worker_id, 0, limit as int) == free_numbered_name(
                workers@,
                kind,
                worker_id,
                k as int,
                limit as int,
            ),
        decreases limit + 1 - k,
    {
        let candidate = numbered_name_text(kind, worker_id, k);
        if !is_name_taken(workers, candidate.as_str()) {
            assert(free_numbered_name(workers@, kind, worker_id, k as int, limit as int) == Some(candidate@));
            return candidate;
        }
        if k == limit {
            assert(free_numbered_name(workers@, kind, worker_id, k as int + 1, limit as int) is None);
            return numbered_name_text(kind, worker_id, limit);
        }
        k = k + 1;
    }
    numbered_name_text(kind, worker_id, limit)
}

/// The name a raised undead takes: the suggestion, trimmed, when it is not
/// empty and no worker goes by it; else the fallback name.
pub open spec fn chosen_name(workers: Seq<Worker>, kind: UndeadKind, id: u32, suggested: Option<Seq<char>>) -> Seq<char> {
    match suggested {
        Some(s) if trimmed(s).len() > 0 && !name_taken(workers, trimmed(s)) => trimmed(s),
        _ => fallback_name(workers, kind, id),
    }
}

pub open spec fn raised_message(def: UndeadDef) -> Seq<char> {
    "Raised a "@ + def.name@ + ". It reports for Haul duty."@
}

/// The corpse remnants after raising `kind`: a Brute takes the first
/// Notable remnant, a Skeleton the first other one if there is any.
pub open spec fn corpses_after_raise(corpses: Seq<Corpse>, kind: UndeadKind) -> Seq<Corpse> {
    match corpse_index(corpses, kind == UndeadKind::BruteSkeleton) {
        Some(i) => corpses.remove(i),
        None => corpses,
    }
}

/// `corpse_index` finds the first remnant whose Notable-ness is `notable`:
/// every remnant before it differs, and with none found, all do.
proof fn lemma_corpse_index_first(corpses: Seq<Corpse>, notable: bool)
    ensures
        corpse_index(corpses, notable) matches Some(i) ==> {
            &&& 0 <= i < corpses.len()
            &&& (corpses[i].quality == CorpseQuality::Notable) == notable
            &&& forall|j: int| 0 <= j < i ==> (#[trigger] corpses[j].quality == CorpseQuality::Notable) != notable
        },
        corpse_index(corpses, notable) is None ==> forall|j: int|
            0 <= j < corpses.len() ==> (#[trigger] corpses[j].quality == CorpseQuality::Notable) != notable,
    decreases corpses.len(),
{
    if corpses.len() > 0 {
        let rest = corpses.skip(1);
        lemma_corpse_index_first(rest, notable);
        assert forall|j: int| 1 <= j < corpses.len() implies corpses[j] == rest[j - 1] by {}
    }
}

/// Raising anything but a Brute never uses up a Notable remnant: it removes
/// the first remnant that is not Notable and keeps the order of the rest,
/// and when every remnant is Notable it leaves them all.
pub proof fn lemma_raise_spares_notable(corpses: Seq<Corpse>, kind: UndeadKind)
    requires
        kind != UndeadKind::BruteSkeleton,
    ensures
        (forall|j: int| 0 <= j < corpses.len() ==> (#[trigger] corpses[j]).quality == CorpseQuality::Notable)
            ==> corpses_after_raise(corpses, kind) == corpses,
        (exists|j: int| 0 <= j < corpses.len() && (#[trigger] corpses[j]).quality != CorpseQuality::Notable) ==> exists|
            i: int,
        | {
            &&& 0 <= i < corpses.len()
            &&& (#[trigger] corpses[i]).quality != CorpseQuality::Notable
            &&& forall|j: int| 0 <= j < i ==> (#[trigger] corpses[j]).quality == CorpseQuality::Notable
            &&& corpses_after_raise(corpses, kind) == corpses.remove(i)
        },
{
    lemma_corpse_index_first(corpses, false);
    match corpse_index(corpses, false) {
        Some(i) => {
            assert(corpses[i].quality != CorpseQuality::Notable);
        },
        None => {},
    }
}

/// Raising a Brute uses up the first Notable remnant and keeps the order of
/// the rest.
pub proof fn lemma_brute_takes_first_notable(corpses: Seq<Corpse>)
    ensures
        (exists|j: int| 0 <= j < corpses.len() && (#[trigger] corpses[j]).quality == CorpseQuality::Notable) ==> exists|
            i: int,
        | {
            &&& 0 <= i < corpses.len()
            &&& (#[trigger] corpses[i]).quality == CorpseQuality::Notable
            &&& forall|j: int| 0 <= j < i ==> (#[trigger] corpses[j]).quality != CorpseQuality::Notable
            &&& corpses_after_raise(corpses, UndeadKind::BruteSkeleton) == corpses.remove(i)
        },
{
    lemma_corpse_index_first(corpses, true);
    match corpse_index(corpses, true) {
        Some(i) => {
            assert(corpses[i].quality == CorpseQuality::Notable);
        },
        None => {},
    }
}

/// Raises an undead of `kind` at the mana source, named `suggested_name`
/// when that is free; it joins as a hauler and becomes the selected worker.
/// The caller then raises suspicion by the undead's conspicuousness.
pub fn raise_with_name(
    session: &mut GameSession,
    defs: &Vec<UndeadDef>,
    kind: UndeadKind,
    suggested_name: Option<&str>,
) -> (result: Result<(), String>)
    requires
        undead_defs_valid(defs@),
        old(session).workforce.next_worker_id < u32::MAX,
    ensures
        raise_refusal(*old(session), defs@, kind) matches Some(m) ==> (result matches Err(e) && e@ == m)
            && *final(session) == *old(session),
        result is Ok <==> raise_refusal(*old(session), defs@, kind) is None,
        result is Ok ==> {
            let def = undead_def_for(defs@, undead_id(kind))->0;
            let id = old(session).workforce.next_worker_id;
            let workers = old(session).workforce.workers@;
            let raised = final(session).workforce.workers@.last();
            let suggested = match suggested_name {
                Some(s) => Some(s@),
                None => None::<Seq<char>>,
            };
            &&& final(session).economy.bones == old(session).economy.bones - def.bones_cost
            &&& final(session).economy.mana == old(session).economy.mana - def.mana_cost
            &&& final(session).economy.wood == old(session).economy.wood
            &&& final(session).economy.ward_charges == old(session).economy.ward_charges
            &&& final(session).economy.shovels == old(session).economy.shovels
            &&& final(session).economy.storage_capacity == old(session).economy.storage_capacity
            &&& final(session).economy.same_loose(old(session).economy)
            &&& final(session).research == old(session).research
            &&& final(session).economy.corpses@ == corpses_after_raise(old(session).economy.corpses@, kind)
            &&& final(session).workforce.workers@.len() == workers.len() + 1
            &&& forall|i: int| 0 <= i < workers.len() ==> final(session).workforce.workers@[i] == workers[i]
            &&& raised.id == id
            &&& raised.name@ == chosen_name(workers, kind, id, suggested)
            &&& raised.kind == kind
            &&& raised.assignment == JobKind::Haul
            &&& raised.position == old(session).world.mana_source
            &&& raised.status == WorkerStatus::Idle
            &&& raised.target_plot is None
            &&& raised.carrying == 0
            &&& raised.carrying_resource is None
            &&& !raised.priority_mode
            &&& raised.haul_plan is None
            &&& final(session).workforce.next_worker_id == id + 1
            &&& final(session).workforce.selected_worker == workers.len()
            &&& newest_line(*final(session), raised_message(def))
            &&& final(session).world == old(session).world
            &&& final(session).progress == old(session).progress
        },
{
    match can_raise(session, defs, kind) {
        Err(e) => {
            return Err(e);
        },
        Ok(()) => {},
    }
    let def = match find_undead(defs, kind) {
        Some(def) => def,
        None => {
            return Err(String::from_str("Undead recipe is missing from authored data."));
        },
    };
    proof {
        lemma_undead_def_valid(defs@, undead_id(kind));
    }
    session.economy.bones = session.economy.bones - def.bones_cost;
    session.economy.mana = session.economy.mana - def.mana_cost;
    let used = first_corpse(&session.economy.corpses, kind == UndeadKind::BruteSkeleton);
    proof {
        lemma_corpse_index(session.economy.corpses@, kind == UndeadKind::BruteSkeleton);
    }
    if let Some(i) = used {
        session.economy.corpses.remove(i);
    }
    let worker_id = session.workforce.next_worker_id;
    session.workforce.next_worker_id = worker_id + 1;
    let position = session.world.mana_source;
    let fallback = fallback_worker_name(session, kind, worker_id);
    let name = match suggested_name {
        Some(suggested) => {
            let trimmed_name = trim(suggested);
            if trimmed_name.unicode_len() > 0 && !is_name_taken(&session.workforce.workers, trimmed_name) {
                String::from_str(trimmed_name)
            } else {
                fallback
            }
        },
        None => fallback,
    };
    session.workforce.workers.push(
        Worker {
            id: worker_id,
            name,
            kind,
            assignment: JobKind::Haul,
            position,
            status: WorkerStatus::Idle,
            target_plot: None,
            carrying: 0,
            carrying_resource: None,
            priority_mode: false,
            haul_plan: None,
        },
    );
    session.workforce.selected_worker = session.workforce.workers.len() - 1;
    let mut message = String::from_str("Raised a ");
    push_str(&mut message, def.name.as_str());
    push_str(&mut message, ". It reports for Haul duty.");
    session.add_feed(message);
    Ok(())
}

/// Raises an undead of `kind` under its fallback name.
pub fn raise(session: &mut GameSession, defs: &Vec<UndeadDef>, kind: UndeadKind) -> (result: Result<(), String>)
    requires
        undead_defs_valid(defs@),
        old(session).workforce.next_worker_id < u32::MAX,
    ensures
        raise_refusal(*old(session), defs@, kind) matches Some(m) ==> (result matches Err(e) && e@ == m)
            && *final(session) == *old(session),
        result is Ok <==> raise_refusal(*old(session), defs@, kind) is None,
        result is Ok ==> final(session).workforce.workers@.len() == old(session).workforce.workers@.len() + 1
            && final(session).workforce.workers@.last().name@ == fallback_name(
            old(session).workforce.workers@,
            kind,
            old(session).workforce.next_worker_id,
        ),
{
    raise_with_name(session, defs, kind, None)
}

/// The quality of the next remnant found: the first one is always Notable,
/// later ones fall in the band `rolled` names.
pub open spec fn discovered_quality(corpses: Seq<Corpse>, rolled: CorpseQuality) -> CorpseQuality {
    if corpses.len() == 0 { CorpseQuality::Notable } else { rolled }
}

pub open spec fn found_message(quality: CorpseQuality) -> Seq<char> {
    "Found a "@ + crate::kinds::corpse_quality_label(quality) + " corpse remnant."@
}

/// Records a corpse remnant found in a grave. `rolled` is the quality band
/// the caller's roll fell in; the first remnant ever found is Notable
/// whatever the roll.
pub fn discover(session: &mut GameSession, rolled: CorpseQuality, cause_of_death: String) -> (found: Corpse)
    requires
        old(session).economy.corpses@.len() < u32::MAX,
    ensures
        found.id == old(session).economy.corpses@.len() + 1,
        found.quality == discovered_quality(old(session).economy.corpses@, rolled),
        found.cause_of_death == cause_of_death,
        final(session).economy.corpses@ == old(session).economy.corpses@.push(found),
        final(session).progress.first_corpse_found,
        newest_line(*final(session), found_message(found.quality)),
        final(session).economy.bones == old(session).economy.bones,
        final(session).economy.wood == old(session).economy.wood,
        final(session).economy.mana == old(session).economy.mana,
        final(session).economy.ward_charges == old(session).economy.ward_charges,
        final(session).economy.shovels == old(session).economy.shovels,
        final(session).economy.storage_capacity == old(session).economy.storage_capacity,
        final(session).economy.same_loose(old(session).economy),
        final(session).workforce == old(session).workforce,
        final(session).world == old(session).world,
        final(session).research == old(session).research,
{
    let quality = if session.economy.corpses.len() == 0 {
        CorpseQuality::Notable
    } else {
        rolled
    };
    let found = Corpse { id: session.economy.corpses.len() as u32 + 1, quality, cause_of_death };
    let kept = Corpse { id: found.id, quality: found.quality, cause_of_death: found.cause_of_death.clone() };
    session.economy.corpses.push(kept);
    session.progress.first_corpse_found = true;
    let mut message = String::from_str("Found a ");
    push_str(&mut message, quality.label());
    push_str(&mut message, " corpse remnant.");
    session.add_feed(message);
    found
}

} // verus!

//! Escalation stages of human pressure and the events they bring.

use vstd::prelude::*;
use crate::kinds::{stage_rank_spec, JobKind, SuspicionStage};
use crate::progression::newest_line;
use crate::session::GameSession;
use crate::text_util::{push_str, str_equal};
use crate::workforce::Worker;

verus! {

/// One answer to a pressure event, with its whole-number consequences.
#[derive(Debug, Clone)]
pub struct EventChoiceDef {
    pub id: String,
    pub label: String,
    pub description: String,
    pub bones_delta: i32,
    pub mana_delta: i32,
    pub wood_delta: i32,
    pub pause_digging: bool,
}

/// A pressure event that an escalation stage brings.
#[derive(Debug, Clone)]
pub struct EventDef {
    pub id: String,
    pub stage: SuspicionStage,
    pub title: String,
    pub body: String,
    pub choices: Vec<EventChoiceDef>,
}

/// The first authored event of `stage`.
pub open spec fn event_of_stage(events: Seq<EventDef>, stage: SuspicionStage) -> Option<EventDef>
    decreases events.len(),
{
    if events.len() == 0 {
        None
    } else if events[0].stage == stage {
        Some(events[0])
    } else {
        event_of_stage(events.skip(1), stage)
    }
}

pub fn event_for_stage(events: &Vec<EventDef>, stage: SuspicionStage) -> (event: Option<&EventDef>)
    ensures
        match event {
            Some(e) => event_of_stage(events@, stage) == Some(*e),
            None => event_of_stage(events@, stage) is None,
        },
{
    let mut i: usize = 0;
    assert(events@.skip(0) == events@);
    while i < events.len()
        invariant
            i <= events@.len(),
            event_of_stage(events@, stage) == event_of_stage(events@.skip(i as int), stage),
        decreases events.len() - i,
    {
        let ghost rest = events@.skip(i as int);
        assert(rest[0] == events@[i as int]);
        assert(rest.skip(1) == events@.skip(i as int + 1));
        if events[i].stage == stage {
            return Some(&events[i]);
        }
        i = i + 1;
    }
    None
}

pub open spec fn history_holds(history: Seq<String>, id: Seq<char>) -> bool {
    exists|i: int| 0 <= i < history.len() && (#[trigger] history[i])@ == id
}

/// Enters escalation stage `next`. Climbing to a stage whose event has not
/// been met yet makes that event wait for the player's choice.
pub fn enter_stage(session: &mut GameSession, events: &Vec<EventDef>, next: SuspicionStage)
    ensures
        next == old(session).pressure.stage ==> *final(session) == *old(session),
        next != old(session).pressure.stage ==> final(session).pressure.stage == next,
        ({
            let rising = next != old(session).pressure.stage && stage_rank_spec(next) > stage_rank_spec(
                old(session).pressure.stage,
            );
            let fresh = match event_of_stage(events@, next) {
                Some(e) => !history_holds(old(session).pressure.event_history@, e.id@),
                None => false,
            };
            &&& rising && fresh ==> final(session).pressure.active_event == Some(event_of_stage(events@, next)->0.id)
                && newest_line(*final(session), "Human pressure: "@ + event_of_stage(events@, next)->0.title@)
            &&& !(rising && fresh) ==> final(session).pressure.active_event == old(session).pressure.active_event
                && final(session).pressure.feed@ == old(session).pressure.feed@
        }),
        final(session).pressure.event_history@ == old(session).pressure.event_history@,
        final(session).world == old(session).world,
        final(session).economy == old(session).economy,
        final(session).workforce == old(session).workforce,
        final(session).progress == old(session).progress,
        final(session).research == old(session).research,
{
    let previous = session.pressure.stage;
    if next == previous {
        return;
    }
    session.pressure.stage = next;
    if crate::kinds::stage_rank(next) <= crate::kinds::stage_rank(previous) {
        return;
    }
    if let Some(event) = event_for_stage(events, next) {
        let history = &session.pressure.event_history;
        let mut seen = false;
        let mut i: usize = 0;
        while i < history.len()
            invariant
                i <= history@.len(),
                seen == exists|k: int| 0 <= k < i && (#[trigger] history@[k])@ == event.id@,
            decreases history.len() - i,
        {
            if str_equal(history[i].as_str(), event.id.as_str()) {
                seen = true;
            }
            i = i + 1;
        }
        if !seen {
            session.pressure.active_event = Some(event.id.clone());
            let mut line = String::from_str("Human pressure: ");
            push_str(&mut line, event.title.as_str());
            session.add_feed(line);
        }
    }
}

/// The first event with id `id`.
pub open spec fn event_with_id(events: Seq<EventDef>, id: Seq<char>) -> Option<EventDef>
    decreases events.len(),
{
    if events.len() == 0 {
        None
    } else if events[0].id@ == id {
        Some(events[0])
    } else {
        event_with_id(events.skip(1), id)
    }
}

/// The first choice with id `id`.
pub open spec fn choice_with_id(choices: Seq<EventChoiceDef>, id: Seq<char>) -> Option<EventChoiceDef>
    decreases choices.len(),
{
    if choices.len() == 0 {
        None
    } else if choices[0].id@ == id {
        Some(choices[0])
    } else {
        choice_with_id(choices.skip(1), id)
    }
}

fn find_event<'a>(events: &'a Vec<EventDef>, id: &str) -> (event: Option<&'a EventDef>)
    ensures
        match event {
            Some(e) => event_with_id(events@, id@) == Some(*e),
            None => event_with_id(events@, id@) is None,
        },
{
    let mut i: usize = 0;
    assert(events@.skip(0) == events@);
    while i < events.len()
        invariant
            i <= events@.len(),
            event_with_id(events@, id@) == event_with_id(events@.skip(i as int), id@),
        decreases events.len() - i,
    {
        let ghost rest = events@.skip(i as int);
        assert(rest[0] == events@[i as int]);
        assert(rest.skip(1) == events@.skip(i as int + 1));
        if str_equal(events[i].id.as_str(), id) {
            return Some(&events[i]);
        }
        i = i + 1;
    }
    None
}

fn find_choice<'a>(choices: &'a Vec<EventChoiceDef>, id: &str) -> (choice: Option<&'a EventChoiceDef>)
    ensures
        match choice {
            Some(c) => choice_with_id(choices@, id@) == Some(*c),
            None => choice_with_id(choices@, id@) is None,
        },
{
    let mut i: usize = 0;
    assert(choices@.skip(0) == choices@);
    while i < choices.len()
        invariant
            i <= choices@.len(),
            choice_with_id(choices@, id@) == choice_with_id(choices@.skip(i as int), id@),
        decreases choices.len() - i,
    {
        let ghost rest = choices@.skip(i as int);
        assert(rest[0] == choices@[i as int]);
        assert(rest.skip(1) == choices@.skip(i as int + 1));
        if str_equal(choices[i].id.as_str(), id) {
            return Some(&choices[i]);
        }
        i = i + 1;
    }
    None
}

/// A material count after a choice's change, never below zero.
pub open spec fn after_delta(value: i32, delta: i32) -> i32 {
    if value + delta < 0 { 0 } else { (value + delta) as i32 }
}

/// Diggers go into hiding as guards and let go of their graves.
pub open spec fn hidden(before: Worker, after: Worker) -> bool {
    if before.assignment == JobKind::Dig {
        after == Worker { assignment: JobKind::Guard, target_plot: None, ..before }
    } else {
        after == before
    }
}

pub open spec fn no_event_message() -> Seq<char> {
    "There is no event waiting for a choice."@
}

pub open spec fn event_missing_message() -> Seq<char> {
    "Event content is missing."@
}

pub open spec fn choice_missing_message() -> Seq<char> {
    "That event choice is not available."@
}

pub open spec fn hiding_message() -> Seq<char> {
    "Digging workers are hiding until the road is quiet."@
}

/// Why choice `choice_id` cannot settle the waiting event; `None` when it can.
pub open spec fn event_refusal(session: GameSession, events: Seq<EventDef>, choice_id: Seq<char>) -> Option<Seq<char>> {
    match session.pressure.active_event {
        None => Some(no_event_message()),
        Some(id) => match event_with_id(events, id@) {
            None => Some(event_missing_message()),
            Some(event) => if choice_with_id(event.choices@, choice_id) is None {
                Some(choice_missing_message())
            } else {
                None
            },
        },
    }
}

/// The material changes of every choice of `events` fit in `i32`.
pub open spec fn deltas_fit(session: GameSession, events: Seq<EventDef>, choice_id: Seq<char>) -> bool {
    match session.pressure.active_event {
        None => true,
        Some(id) => match event_with_id(events, id@) {
            None => true,
            Some(event) => match choice_with_id(event.choices@, choice_id) {
                None => true,
                Some(c) => {
                    &&& session.economy.bones + c.bones_delta <= i32::MAX
                    &&& session.economy.mana + c.mana_delta <= i32::MAX
                    &&& session.economy.wood + c.wood_delta <= i32::MAX
                },
            },
        },
    }
}

fn hide_diggers(workers: &mut Vec<Worker>)
    ensures
        final(workers)@.len() == old(workers)@.len(),
        forall|k: int| 0 <= k < old(workers)@.len() ==> hidden(old(workers)@[k], #[trigger] final(workers)@[k]),
{
    let mut i: usize = 0;
    while i < workers.len()
        invariant
            i <= workers@.len(),
            workers@.len() == old(workers)@.len(),
            forall|k: int| 0 <= k < i ==> hidden(old(workers)@[k], #[trigger] workers@[k]),
            forall|k: int| i <= k < workers@.len() ==> #[trigger] workers@[k] == old(workers)@[k],
        decreases workers.len() - i,
    {
        if workers[i].assignment == JobKind::Dig {
            workers[i].assignment = JobKind::Guard;
            workers[i].target_plot = None;
        }
        i = i + 1;
    }
}

/// Settles the waiting event with choice `choice_id`: its material changes
/// apply (never below zero), the event joins the history, and a choice that
/// pauses digging sends the diggers into hiding. The caller then applies
/// the choice's suspicion change.
pub fn resolve_event(session: &mut GameSession, events: &Vec<EventDef>, choice_id: &str) -> (result: Result<(), String>)
    requires
        deltas_fit(*old(session), events@, choice_id@),
    ensures
        event_refusal(*old(session), events@, choice_id@) matches Some(m) ==> (result matches Err(e) && e@ == m)
            && *final(session) == *old(session),
        result is Ok <==> event_refusal(*old(session), events@, choice_id@) is None,
        result is Ok ==> {
            let id = old(session).pressure.active_event->0;
            let event = event_with_id(events@, id@)->0;
            let choice = choice_with_id(event.choices@, choice_id@)->0;
            &&& final(session).economy.bones == after_delta(old(session).economy.bones, choice.bones_delta)
            &&& final(session).economy.mana == after_delta(old(session).economy.mana, choice.mana_delta)
            &&& final(session).economy.wood == after_delta(old(session).economy.wood, choice.wood_delta)
            &&& final(session).pressure.active_event is None
            &&& final(session).pressure.event_history@ == old(session).pressure.event_history@.push(id)
            &&& final(session).workforce.workers@.len() == old(session).workforce.workers@.len()
            &&& forall|i: int|
                0 <= i < old(session).workforce.workers@.len() ==> if choice.pause_digging {
                    hidden(old(session).workforce.workers@[i], #[trigger] final(session).workforce.workers@[i])
                } else {
                    final(session).workforce.workers@[i] == old(session).workforce.workers@[i]
                }
            &&& choice.pause_digging ==> newest_line(*final(session), hiding_message())
            &&& !choice.pause_digging ==> final(session).pressure.feed@ == old(session).pressure.feed@
            &&& final(session).world == old(session).world
            &&& final(session).progress == old(session).progress
        },
        final(session).research == old(session).research,
{
    let event_id = match &session.pressure.active_event {
        None => {
            return Err(String::from_str("There is no event waiting for a choice."));
        },
        Some(id) => id.clone(),
    };
    let event = match find_event(events, event_id.as_str()) {
        None => {
            return Err(String::from_str("Event content is missing."));
        },
        Some(e) => e,
    };
    let choice = match find_choice(&event.choices, choice_id) {
        None => {
            return Err(String::from_str("That event choice is not available."));
        },
        Some(c) => c,
    };
    let bones = session.economy.bones as i64 + choice.bones_delta as i64;
    let mana = session.economy.mana as i64 + choice.mana_delta as i64;
    let wood = session.economy.wood as i64 + choice.wood_delta as i64;
    session.economy.bones = if bones < 0 {
        0
    } else {
        bones as i32
    };
    session.economy.mana = if mana < 0 {
        0
    } else {
        mana as i32
    };
    session.economy.wood = if wood < 0 {
        0
    } else {
        wood as i32
    };
    session.pressure.active_event = None;
    session.pressure.event_history.push(event_id);
    if choice.pause_digging {
        hide_diggers(&mut session.workforce.workers);
        session.add_feed(String::from_str("Digging workers are hiding until the road is quiet."));
    }
    Ok(())
}

} // verus!

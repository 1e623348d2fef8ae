//! Lantern-gated exchanges with the rotating night market.

use vstd::prelude::*;
use crate::data::DistrictRules;
use crate::districts::{capacity_of, storage_capacity};
use crate::kinds::BuildingKind;
use crate::economy::EconomyState;
use crate::market::{
    standing_label_of, standing_tier_of, MarketContract, MarketState, MARKET_CONTRACT_BONUS_FAVOR, MARKET_OFFER_COUNT,
};
use crate::progression::newest_line;
use crate::session::{FeedEntry, GameSession};
use crate::text_util::{decimal, push_decimal, push_digits, push_str};

verus! {

#[derive(Debug, Clone, Copy, PartialEq, Eq, Structural)]
pub enum TradeOfferKind {
    CarvedTimber,
    LanternDraught,
    QuietBargain,
}

/// One of the broker's three rotating offers.
#[derive(Debug, Clone, Copy)]
pub struct TradeOffer {
    pub kind: TradeOfferKind,
    pub title: &'static str,
    pub detail: &'static str,
    pub cost: &'static str,
    pub reward: &'static str,
    pub bones_cost: i32,
    pub wood_cost: i32,
}

/// The offer in rotation slot `index`, wrapping around the three offers.
pub open spec fn offer_kind_at(index: usize) -> TradeOfferKind {
    if index % 3 == 0 {
        TradeOfferKind::CarvedTimber
    } else if index % 3 == 1 {
        TradeOfferKind::LanternDraught
    } else {
        TradeOfferKind::QuietBargain
    }
}

pub open spec fn offer_title(kind: TradeOfferKind) -> Seq<char> {
    match kind {
        TradeOfferKind::CarvedTimber => "Carved timber"@,
        TradeOfferKind::LanternDraught => "Lantern draught"@,
        TradeOfferKind::QuietBargain => "Quiet bargain"@,
    }
}

pub open spec fn offer_cost_text(kind: TradeOfferKind) -> Seq<char> {
    match kind {
        TradeOfferKind::CarvedTimber => "18 bones"@,
        TradeOfferKind::LanternDraught => "18 wood"@,
        TradeOfferKind::QuietBargain => "24 bones + 12 wood"@,
    }
}

pub open spec fn offer_reward_text(kind: TradeOfferKind) -> Seq<char> {
    match kind {
        TradeOfferKind::CarvedTimber => "12 wood"@,
        TradeOfferKind::LanternDraught => "8 mana"@,
        TradeOfferKind::QuietBargain => "1 ward charge"@,
    }
}

pub open spec fn offer_bones_cost(kind: TradeOfferKind) -> i32 {
    match kind {
        TradeOfferKind::CarvedTimber => 18,
        TradeOfferKind::LanternDraught => 0,
        TradeOfferKind::QuietBargain => 24,
    }
}

pub open spec fn offer_wood_cost(kind: TradeOfferKind) -> i32 {
    match kind {
        TradeOfferKind::CarvedTimber => 0,
        TradeOfferKind::LanternDraught => 18,
        TradeOfferKind::QuietBargain => 12,
    }
}

/// `offer` is the authored offer of its kind.
pub open spec fn offer_matches(offer: TradeOffer) -> bool {
    &&& offer.title@ == offer_title(offer.kind)
    &&& offer.cost@ == offer_cost_text(offer.kind)
    &&& offer.reward@ == offer_reward_text(offer.kind)
    &&& offer.bones_cost == offer_bones_cost(offer.kind)
    &&& offer.wood_cost == offer_wood_cost(offer.kind)
}

/// The rotation slot shown to the player: the one a broker request locked
/// in, or else the market's current slot.
pub open spec fn shown_index(session: GameSession) -> usize {
    match session.progress.market.contract {
        Some(contract) => contract.offer_index,
        None => session.progress.market.offer_index,
    }
}

pub open spec fn shown_kind(session: GameSession) -> TradeOfferKind {
    offer_kind_at(shown_index(session))
}

/// The offer in rotation slot `index`.
pub fn offer_at(index: usize) -> (offer: TradeOffer)
    ensures
        offer.kind == offer_kind_at(index),
        offer_matches(offer),
{
    let slot = index % MARKET_OFFER_COUNT;
    if slot == 0 {
        TradeOffer {
            kind: TradeOfferKind::CarvedTimber,
            title: "Carved timber",
            detail: "The broker turns bone into sturdy boards.",
            cost: "18 bones",
            reward: "12 wood",
            bones_cost: 18,
            wood_cost: 0,
        }
    } else if slot == 1 {
        TradeOffer {
            kind: TradeOfferKind::LanternDraught,
            title: "Lantern draught",
            detail: "A blue tonic feeds the grave lantern's reserve.",
            cost: "18 wood",
            reward: "8 mana",
            bones_cost: 0,
            wood_cost: 18,
        }
    } else {
        TradeOffer {
            kind: TradeOfferKind::QuietBargain,
            title: "Quiet bargain",
            detail: "A whispered fee buys one sealed ward charge.",
            cost: "24 bones + 12 wood",
            reward: "1 ward charge",
            bones_cost: 24,
            wood_cost: 12,
        }
    }
}

/// The offer on the table: the one a broker request locked in, or else the
/// market's current offer.
pub fn current_offer(session: &GameSession) -> (offer: TradeOffer)
    ensures
        offer.kind == shown_kind(*session),
        offer_matches(offer),
{
    match &session.progress.market.contract {
        Some(contract) => offer_at(contract.offer_index),
        None => offer_at(session.progress.market.offer_index),
    }
}

/// The shown offer's place in the rotation, counted from one, and the
/// number of offers.
pub fn offer_position(session: &GameSession) -> (position: (usize, usize))
    ensures
        position == ((shown_index(*session) % 3 + 1) as usize, 3usize),
{
    let index = match &session.progress.market.contract {
        Some(contract) => contract.offer_index,
        None => session.progress.market.offer_index,
    };
    (index % MARKET_OFFER_COUNT + 1, MARKET_OFFER_COUNT)
}

/// Moves the market on to its next offer.
pub fn rotate_offer(session: &mut GameSession)
    ensures
        final(session).progress.market.offer_index == (old(session).progress.market.offer_index + 1) % 3,
        final(session).progress.market.contract == old(session).progress.market.contract,
        final(session).progress.market.favor == old(session).progress.market.favor,
        final(session).economy == old(session).economy,
        final(session).pressure == old(session).pressure,
        final(session).world == old(session).world,
        final(session).research == old(session).research,
        final(session).workforce == old(session).workforce,
{
    let index = session.progress.market.offer_index % MARKET_OFFER_COUNT;
    session.progress.market.offer_index = (index + 1) % MARKET_OFFER_COUNT;
}

/// Suspicion an exchange raises, in tenths of a point: less as the broker
/// trusts the cemetery more.
pub open spec fn exchange_suspicion_of(favor: u32) -> u32 {
    match standing_tier_of(favor) {
        0 => 20,
        1 => 15,
        _ => 10,
    }
}

pub fn exchange_suspicion(session: &GameSession) -> (tenths: u32)
    ensures
        tenths == exchange_suspicion_of(session.progress.market.favor),
{
    match session.progress.market.standing_tier() {
        0 => 20,
        1 => 15,
        _ => 10,
    }
}

pub open spec fn expired_message(kind: TradeOfferKind) -> Seq<char> {
    "Broker request expired: "@ + offer_title(kind) + " was left unfulfilled."@
}

/// Drops a broker request whose time has run out.
pub fn expire_contract(session: &mut GameSession) -> (message: Option<String>)
    ensures
        match old(session).progress.market.contract {
            None => message is None && *final(session) == *old(session),
            Some(contract) => {
                &&& message matches Some(m) && m@ == expired_message(offer_kind_at(contract.offer_index))
                &&& final(session).progress.market.contract is None
                &&& final(session).progress.market.offer_index == old(session).progress.market.offer_index
                &&& final(session).progress.market.favor == old(session).progress.market.favor
                &&& final(session).economy == old(session).economy
                &&& final(session).pressure == old(session).pressure
            },
        },
        final(session).world == old(session).world,
        final(session).research == old(session).research,
        final(session).workforce == old(session).workforce,
{
    let contract = match session.progress.market.contract {
        None => {
            return None;
        },
        Some(contract) => contract,
    };
    let offer = offer_at(contract.offer_index);
    session.progress.market.contract = None;
    let mut message = String::from_str("Broker request expired: ");
    push_str(&mut message, offer.title);
    push_str(&mut message, " was left unfulfilled.");
    Some(message)
}

pub open spec fn lantern_missing_request_message() -> Seq<char> {
    "Complete the grave lantern before accepting a broker request."@
}

pub open spec fn request_active_message() -> Seq<char> {
    "A broker request is already active."@
}

pub open spec fn request_accepted_message(kind: TradeOfferKind) -> Seq<char> {
    "Broker request accepted: fulfill "@ + offer_title(kind) + " for +"@ + decimal(MARKET_CONTRACT_BONUS_FAVOR as int)
        + " favor."@
}

/// Locks the current offer in as a broker request worth bonus favor.
pub fn accept_contract(session: &mut GameSession) -> (result: Result<(), String>)
    ensures
        !old(session).built(BuildingKind::GraveLantern) ==> (result matches Err(e) && e@
            == lantern_missing_request_message()) && *final(session) == *old(session),
        old(session).built(BuildingKind::GraveLantern) && old(session).progress.market.contract is Some ==> (result matches Err(
            e,
        ) && e@ == request_active_message()) && *final(session) == *old(session),
        result is Ok <==> old(session).built(BuildingKind::GraveLantern) && old(session).progress.market.contract is None,
        result is Ok ==> {
            &&& final(session).progress.market.contract == Some(
                MarketContract {
                    offer_index: old(session).progress.market.offer_index,
                    bonus_favor: MARKET_CONTRACT_BONUS_FAVOR,
                },
            )
            &&& final(session).progress.market.offer_index == old(session).progress.market.offer_index
            &&& final(session).progress.market.favor == old(session).progress.market.favor
            &&& newest_line(*final(session), request_accepted_message(offer_kind_at(old(session).progress.market.offer_index)))
            &&& final(session).economy == old(session).economy
            &&& final(session).world == old(session).world
        },
        final(session).research == old(session).research,
        final(session).workforce == old(session).workforce,
{
    if !session.has_building(BuildingKind::GraveLantern) {
        return Err(String::from_str("Complete the grave lantern before accepting a broker request."));
    }
    if session.progress.market.contract.is_some() {
        return Err(String::from_str("A broker request is already active."));
    }
    session.progress.market.contract = Some(
        MarketContract { offer_index: session.progress.market.offer_index, bonus_favor: MARKET_CONTRACT_BONUS_FAVOR },
    );
    let offer = current_offer(session);
    let mut message = String::from_str("Broker request accepted: fulfill ");
    push_str(&mut message, offer.title);
    push_str(&mut message, " for +");
    push_digits(&mut message, MARKET_CONTRACT_BONUS_FAVOR as u64);
    push_str(&mut message, " favor.");
    session.add_feed(message);
    Ok(())
}

pub open spec fn lantern_missing_trade_message() -> Seq<char> {
    "Complete the grave lantern before meeting the night broker."@
}

pub open spec fn trade_cost_message(kind: TradeOfferKind) -> Seq<char> {
    "Need "@ + offer_cost_text(kind) + " for this exchange."@
}

pub open spec fn storage_full_message() -> Seq<char> {
    "Clear storage room before accepting more carved timber."@
}

pub open spec fn mana_full_message() -> Seq<char> {
    "The mana reserve cannot hold that draught yet."@
}

/// Why the shown offer may not be taken now; `None` when it may.
pub open spec fn trade_refusal(session: GameSession, rules: DistrictRules, max_mana: i32) -> Option<Seq<char>> {
    let kind = shown_kind(session);
    if !session.built(BuildingKind::GraveLantern) {
        Some(lantern_missing_trade_message())
    } else if session.economy.bones < offer_bones_cost(kind) || session.economy.wood < offer_wood_cost(kind) {
        Some(trade_cost_message(kind))
    } else if kind == TradeOfferKind::CarvedTimber && session.economy.stored_spec() - offer_bones_cost(kind) + 12
        > capacity_of(session, rules) {
        Some(storage_full_message())
    } else if kind == TradeOfferKind::LanternDraught && session.economy.mana + 8 > max_mana {
        Some(mana_full_message())
    } else {
        None
    }
}

/// Whether the shown offer may be taken now, and if not, why.
pub fn trade_status(session: &GameSession, rules: &DistrictRules, max_mana: i32) -> (status: Result<(), String>)
    ensures
        trade_refusal(*session, *rules, max_mana) matches Some(m) ==> (status matches Err(e) && e@ == m),
        status is Ok <==> trade_refusal(*session, *rules, max_mana) is None,
{
    if !session.has_building(BuildingKind::GraveLantern) {
        return Err(String::from_str("Complete the grave lantern before meeting the night broker."));
    }
    let offer = current_offer(session);
    if session.economy.bones < offer.bones_cost || session.economy.wood < offer.wood_cost {
        let mut message = String::from_str("Need ");
        push_str(&mut message, offer.cost);
        push_str(&mut message, " for this exchange.");
        return Err(message);
    }
    match offer.kind {
        TradeOfferKind::CarvedTimber => {
            let capacity = storage_capacity(session, rules);
            let after_cost = session.economy.stored_materials() as i64 - offer.bones_cost as i64;
            if after_cost + 12 > capacity as i64 {
                return Err(String::from_str("Clear storage room before accepting more carved timber."));
            }
        },
        TradeOfferKind::LanternDraught => {
            if session.economy.mana as i64 + 8 > max_mana as i64 {
                return Err(String::from_str("The mana reserve cannot hold that draught yet."));
            }
        },
        TradeOfferKind::QuietBargain => {},
    }
    Ok(())
}

pub open spec fn suspicion_line(tenths: u32) -> Seq<char> {
    "Suspicion +"@ + decimal((tenths / 10) as int) + "."@ + decimal((tenths % 10) as int)
        + ": a discreet night market exchange."@
}

pub open spec fn suspicion_reason(tenths: u32) -> Seq<char> {
    "a discreet night market exchange (+"@ + decimal((tenths / 10) as int) + "."@ + decimal((tenths % 10) as int)
        + ")"@
}

pub open spec fn standing_note(favor: u32) -> Seq<char> {
    "The broker now calls this cemetery "@ + standing_label_of(favor) + "."@
}

pub open spec fn fulfilled_message(kind: TradeOfferKind, gain: u32) -> Seq<char> {
    "Broker request fulfilled: "@ + offer_cost_text(kind) + " for "@ + offer_reward_text(kind) + " \u{b7} +"@
        + decimal(gain as int) + " favor."@
}

pub open spec fn exchange_message(kind: TradeOfferKind) -> Seq<char> {
    "Night market exchange: "@ + offer_cost_text(kind) + " for "@ + offer_reward_text(kind) + "."@
}

/// Favor an exchange earns: one point, plus the request's bonus.
pub open spec fn favor_gain(contract: Option<MarketContract>) -> u32 {
    match contract {
        Some(c) => (1 + c.bonus_favor) as u32,
        None => 1,
    }
}

/// The lines an exchange adds to the feed, oldest first: the suspicion it
/// raised, the new standing if it rose, and the exchange itself.
pub open spec fn trade_lines(before: GameSession, after_favor: u32) -> Seq<Seq<char>> {
    let kind = shown_kind(before);
    let first = seq![suspicion_line(exchange_suspicion_of(after_favor))];
    let rose = standing_tier_of(after_favor) > standing_tier_of(before.progress.market.favor);
    let noted = if rose { first.push(standing_note(after_favor)) } else { first };
    noted.push(
        if before.progress.market.contract is Some {
            fulfilled_message(kind, favor_gain(before.progress.market.contract))
        } else {
            exchange_message(kind)
        },
    )
}

/// The feed after `lines` were announced in order, newest first.
pub open spec fn announced_in_order(feed: Seq<FeedEntry>, lines: Seq<Seq<char>>) -> bool {
    &&& feed.len() >= lines.len()
    &&& forall|i: int| 0 <= i < lines.len() ==> (#[trigger] feed[i]).message@ == lines[lines.len() - 1 - i]
}

/// The rewards of the shown offer fit in the settlement's `i32` counts, and
/// the history counters have room.
pub open spec fn trade_fits(session: GameSession) -> bool {
    &&& session.economy.wood + 12 <= i32::MAX
    &&& session.economy.mana + 8 <= i32::MAX
    &&& session.economy.ward_charges + 1 <= i32::MAX
    &&& session.progress.market.completed_trades < u32::MAX
    &&& session.progress.market.completed_contracts < u32::MAX
    &&& session.progress.market.contract matches Some(c) ==> c.bonus_favor < u32::MAX
}

/// Favor after an exchange that earned `gain`, saturating.
pub open spec fn favor_after(favor: u32, gain: u32) -> u32 {
    if favor + gain > u32::MAX { u32::MAX } else { (favor + gain) as u32 }
}

/// `after` is `before` once the offer of `kind` has been paid for and its
/// reward collected.
pub open spec fn traded_economy(before: EconomyState, after: EconomyState, kind: TradeOfferKind) -> bool {
    &&& after.bones == before.bones - offer_bones_cost(kind)
    &&& after.wood == before.wood - offer_wood_cost(kind) + if kind == TradeOfferKind::CarvedTimber {
        12int
    } else {
        0int
    }
    &&& after.mana == before.mana + if kind == TradeOfferKind::LanternDraught {
        8int
    } else {
        0int
    }
    &&& after.ward_charges == before.ward_charges + if kind == TradeOfferKind::QuietBargain {
        1int
    } else {
        0int
    }
    &&& after.storage_capacity == before.storage_capacity
    &&& after.shovels == before.shovels
    &&& after.loose_bones == before.loose_bones
    &&& after.loose_wood == before.loose_wood
    &&& after.loose_bones_source == before.loose_bones_source
    &&& after.loose_wood_source == before.loose_wood_source
    &&& after.loose_bones_piles@ == before.loose_bones_piles@
    &&& after.loose_wood_piles@ == before.loose_wood_piles@
}

/// `after` is the market once an exchange has been recorded: the request
/// is fulfilled, the trade counted and the favor earned.
pub open spec fn traded_market(before: MarketState, after: MarketState) -> bool {
    &&& after.contract is None
    &&& after.offer_index == before.offer_index
    &&& after.completed_trades == before.completed_trades + 1
    &&& after.favor == favor_after(before.favor, favor_gain(before.contract))
    &&& after.completed_contracts == before.completed_contracts + if before.contract is Some {
        1int
    } else {
        0int
    }
}

fn pay_and_collect(economy: &mut EconomyState, offer: &TradeOffer)
    requires
        offer_matches(*offer),
        old(economy).bones >= offer.bones_cost,
        old(economy).wood >= offer.wood_cost,
        old(economy).wood + 12 <= i32::MAX,
        old(economy).mana + 8 <= i32::MAX,
        old(economy).ward_charges + 1 <= i32::MAX,
    ensures
        traded_economy(*old(economy), *final(economy), offer.kind),
{
    economy.bones = economy.bones - offer.bones_cost;
    economy.wood = economy.wood - offer.wood_cost;
    match offer.kind {
        TradeOfferKind::CarvedTimber => economy.wood = economy.wood + 12,
        TradeOfferKind::LanternDraught => economy.mana = economy.mana + 8,
        TradeOfferKind::QuietBargain => economy.ward_charges = economy.ward_charges + 1,
    }
}

fn record_exchange(market: &mut MarketState) -> (gain: u32)
    requires
        old(market).completed_trades < u32::MAX,
        old(market).completed_contracts < u32::MAX,
        old(market).contract matches Some(c) ==> c.bonus_favor < u32::MAX,
    ensures
        traded_market(*old(market), *final(market)),
        gain == favor_gain(old(market).contract),
{
    let contract = market.contract;
    market.contract = None;
    market.completed_trades = market.completed_trades + 1;
    let gain: u32 = match contract {
        Some(active) => 1 + active.bonus_favor,
        None => 1,
    };
    market.favor = market.favor.saturating_add(gain);
    if contract.is_some() {
        market.completed_contracts = market.completed_contracts + 1;
    }
    gain
}

fn suspicion_texts(tenths: u32) -> (texts: (String, String))
    ensures
        texts.0@ == suspicion_line(tenths),
        texts.1@ == suspicion_reason(tenths),
{
    let mut amount = String::new();
    push_digits(&mut amount, (tenths / 10) as u64);
    push_str(&mut amount, ".");
    push_digits(&mut amount, (tenths % 10) as u64);
    assert(Seq::<char>::empty() + decimal((tenths / 10) as int) == decimal((tenths / 10) as int));
    let mut line = String::from_str("Suspicion +");
    push_str(&mut line, amount.as_str());
    push_str(&mut line, ": a discreet night market exchange.");
    let mut reason = String::from_str("a discreet night market exchange (+");
    push_str(&mut reason, amount.as_str());
    push_str(&mut reason, ")");
    (line, reason)
}

fn outcome_line(offer: &TradeOffer, contract: bool, gain: u32) -> (line: String)
    requires
        offer_matches(*offer),
    ensures
        line@ == if contract { fulfilled_message(offer.kind, gain) } else { exchange_message(offer.kind) },
{
    if contract {
        let mut message = String::from_str("Broker request fulfilled: ");
        push_str(&mut message, offer.cost);
        push_str(&mut message, " for ");
        push_str(&mut message, offer.reward);
        push_str(&mut message, " \u{b7} +");
        push_digits(&mut message, gain as u64);
        push_str(&mut message, " favor.");
        message
    } else {
        let mut message = String::from_str("Night market exchange: ");
        push_str(&mut message, offer.cost);
        push_str(&mut message, " for ");
        push_str(&mut message, offer.reward);
        push_str(&mut message, ".");
        message
    }
}

/// Takes the shown offer: pays its cost, collects its reward, earns favor
/// and announces the exchange. The caller raises suspicion by
/// `exchange_suspicion` afterwards; its feed line is already written here.
pub fn execute_trade(session: &mut GameSession, rules: &DistrictRules, max_mana: i32) -> (result: Result<(), String>)
    requires
        trade_fits(*old(session)),
    ensures
        trade_refusal(*old(session), *rules, max_mana) matches Some(m) ==> (result matches Err(e) && e@ == m)
            && *final(session) == *old(session),
        result is Ok <==> trade_refusal(*old(session), *rules, max_mana) is None,
        result is Ok ==> traded_economy(old(session).economy, final(session).economy, shown_kind(*old(session))),
        result is Ok ==> traded_market(old(session).progress.market, final(session).progress.market),
        result is Ok ==> final(session).pressure.last_reason@ == suspicion_reason(
            exchange_suspicion_of(final(session).progress.market.favor),
        ),
        result is Ok ==> announced_in_order(
            final(session).pressure.feed@,
            trade_lines(*old(session), final(session).progress.market.favor),
        ),
        result is Ok ==> final(session).world == old(session).world && final(session).workforce
            == old(session).workforce && final(session).research == old(session).research,
{
    match trade_status(session, rules, max_mana) {
        Err(e) => {
            return Err(e);
        },
        Ok(()) => {},
    }
    let ghost before = *session;
    let offer = current_offer(session);
    let had_contract = session.progress.market.contract.is_some();
    pay_and_collect(&mut session.economy, &offer);
    let previous_tier = session.progress.market.standing_tier();
    let gain = record_exchange(&mut session.progress.market);
    let (line, reason) = suspicion_texts(exchange_suspicion(session));
    session.pressure.last_reason = reason;
    session.add_feed(line);
    let rose = session.progress.market.standing_tier() > previous_tier;
    if rose {
        let mut note = String::from_str("The broker now calls this cemetery ");
        push_str(&mut note, session.progress.market.standing_label());
        push_str(&mut note, ".");
        session.add_feed(note);
    }
    session.add_feed(outcome_line(&offer, had_contract, gain));
    proof {
        let lines = trade_lines(before, session.progress.market.favor);
        let feed = session.pressure.feed@;
        if rose {
            assert(feed[0].message@ == lines[2]);
            assert(feed[1].message@ == lines[1]);
            assert(feed[2].message@ == lines[0]);
        } else {
            assert(feed[0].message@ == lines[1]);
            assert(feed[1].message@ == lines[0]);
        }
    }
    Ok(())
}

} // verus!

//! The rotating night market: offer rotation, broker standing and requests.

use vstd::prelude::*;

verus! {

pub const MARKET_OFFER_COUNT: usize = 3;

/// Extra favor a fulfilled broker request grants on top of the usual point.
pub const MARKET_CONTRACT_BONUS_FAVOR: u32 = 2;

/// An accepted broker request: the offer it locked in and its bonus.
#[derive(Debug, Clone, Copy, PartialEq, Eq, Structural)]
pub struct MarketContract {
    pub offer_index: usize,
    pub bonus_favor: u32,
}

/// Persistent market rotation, standing and history.
#[derive(Debug, Clone, Copy, PartialEq, Eq, Structural)]
pub struct MarketState {
    pub offer_index: usize,
    pub completed_trades: u32,
    pub favor: u32,
    pub completed_contracts: u32,
    pub contract: Option<MarketContract>,
}

impl Default for MarketState {
    fn default() -> (market: MarketState)
        ensures
            market.offer_index == 0,
            market.completed_trades == 0,
            market.favor == 0,
            market.completed_contracts == 0,
            market.contract is None,
    {
        MarketState { offer_index: 0, completed_trades: 0, favor: 0, completed_contracts: 0, contract: None }
    }
}

/// Broker standing: 0 below 3 favor, 1 below 8 favor, 2 from 8 favor on.
pub open spec fn standing_tier_of(favor: u32) -> u8 {
    if favor >= 8 {
        2
    } else if favor >= 3 {
        1
    } else {
        0
    }
}

pub open spec fn standing_label_of(favor: u32) -> Seq<char> {
    match standing_tier_of(favor) {
        0 => "Whisper"@,
        1 => "Acquainted"@,
        _ => "Trusted"@,
    }
}

impl MarketState {
    pub fn standing_tier(&self) -> (tier: u8)
        ensures
            tier == standing_tier_of(self.favor),
    {
        if self.favor >= 8 {
            2
        } else if self.favor >= 3 {
            1
        } else {
            0
        }
    }

    pub fn standing_label(&self) -> (label: &'static str)
        ensures
            label@ == standing_label_of(self.favor),
    {
        match self.standing_tier() {
            0 => "Whisper",
            1 => "Acquainted",
            _ => "Trusted",
        }
    }

    /// The favor needed for the next standing, if there is one.
    pub fn next_standing_target(&self) -> (target: Option<u32>)
        ensures
            target == (if self.favor >= 8 {
                None
            } else if self.favor >= 3 {
                Some(8u32)
            } else {
                Some(3u32)
            }),
    {
        if self.favor >= 8 {
            None
        } else if self.favor >= 3 {
            Some(8)
        } else {
            Some(3)
        }
    }

    /// Wraps the rotation into range and lets favor account for every
    /// completed trade (older saves kept only the trade count).
    pub fn normalize(&mut self)
        ensures
            final(self).offer_index == old(self).offer_index % MARKET_OFFER_COUNT,
            final(self).favor == if old(self).favor < old(self).completed_trades {
                old(self).completed_trades
            } else {
                old(self).favor
            },
            final(self).completed_trades == old(self).completed_trades,
            final(self).completed_contracts == old(self).completed_contracts,
            final(self).contract == old(self).contract,
    {
        self.offer_index = self.offer_index % MARKET_OFFER_COUNT;
        if self.favor < self.completed_trades {
            self.favor = self.completed_trades;
        }
    }
}

/// Broker standing never falls as favor grows.
pub proof fn lemma_standing_monotone(a: u32, b: u32)
    requires
        a <= b,
    ensures
        standing_tier_of(a) <= standing_tier_of(b),
{
}

} // verus!

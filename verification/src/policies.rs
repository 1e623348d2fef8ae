//! Save-persistent choices that steer automated workers: the route policy of
//! each district and the domain-wide stewardship policy.

use vstd::prelude::*;
use crate::kinds::{JobKind, ZoneKind};

verus! {

/// How an automated worker picks destinations inside one district kind.
#[derive(Debug, Clone, Copy, PartialEq, Eq, Structural)]
pub enum RoutePolicy {
    MarkedFirst,
    Nearest,
    MarkedOnly,
}

impl Default for RoutePolicy {
    fn default() -> (policy: RoutePolicy)
        ensures
            policy == RoutePolicy::MarkedFirst,
    {
        RoutePolicy::MarkedFirst
    }
}

pub open spec fn route_policy_label(policy: RoutePolicy) -> Seq<char> {
    match policy {
        RoutePolicy::MarkedFirst => "Marked first"@,
        RoutePolicy::Nearest => "Nearest"@,
        RoutePolicy::MarkedOnly => "Marked only"@,
    }
}

/// What a policy makes workers do, in a few words.
pub open spec fn route_policy_description(policy: RoutePolicy) -> Seq<char> {
    match policy {
        RoutePolicy::MarkedFirst => "marked tiles first, then the nearest"@,
        RoutePolicy::Nearest => "the nearest tile, marks ignored"@,
        RoutePolicy::MarkedOnly => "marked tiles only, waiting without them"@,
    }
}

/// The policy that follows `policy` when the player cycles it.
pub open spec fn route_policy_next(policy: RoutePolicy) -> RoutePolicy {
    match policy {
        RoutePolicy::MarkedFirst => RoutePolicy::Nearest,
        RoutePolicy::Nearest => RoutePolicy::MarkedOnly,
        RoutePolicy::MarkedOnly => RoutePolicy::MarkedFirst,
    }
}

impl RoutePolicy {
    pub fn description(self) -> (text: &'static str)
        ensures
            text@ == route_policy_description(self),
    {
        match self {
            RoutePolicy::MarkedFirst => "marked tiles first, then the nearest",
            RoutePolicy::Nearest => "the nearest tile, marks ignored",
            RoutePolicy::MarkedOnly => "marked tiles only, waiting without them",
        }
    }

    pub fn label(self) -> (label: &'static str)
        ensures
            label@ == route_policy_label(self),
    {
        match self {
            RoutePolicy::MarkedFirst => "Marked first",
            RoutePolicy::Nearest => "Nearest",
            RoutePolicy::MarkedOnly => "Marked only",
        }
    }

    pub fn next(self) -> (next: RoutePolicy)
        ensures
            next == route_policy_next(self),
    {
        match self {
            RoutePolicy::MarkedFirst => RoutePolicy::Nearest,
            RoutePolicy::Nearest => RoutePolicy::MarkedOnly,
            RoutePolicy::MarkedOnly => RoutePolicy::MarkedFirst,
        }
    }
}

/// Cycling a route policy visits every policy and returns to the start
/// after three steps.
pub proof fn lemma_route_policy_cycle(policy: RoutePolicy)
    ensures
        route_policy_next(route_policy_next(route_policy_next(policy))) == policy,
        route_policy_next(policy) != policy,
        route_policy_next(route_policy_next(policy)) != policy,
{
}

/// One route policy per district kind.
#[derive(Debug, Clone, Copy, PartialEq, Eq, Structural)]
pub struct DistrictRoutePolicies {
    pub work: RoutePolicy,
    pub storage: RoutePolicy,
    pub patrol: RoutePolicy,
}

impl Default for DistrictRoutePolicies {
    fn default() -> (policies: DistrictRoutePolicies)
        ensures
            policies.work == RoutePolicy::MarkedFirst,
            policies.storage == RoutePolicy::MarkedFirst,
            policies.patrol == RoutePolicy::MarkedFirst,
    {
        DistrictRoutePolicies {
            work: RoutePolicy::MarkedFirst,
            storage: RoutePolicy::MarkedFirst,
            patrol: RoutePolicy::MarkedFirst,
        }
    }
}

impl DistrictRoutePolicies {
    pub open spec fn policy_of(self, kind: ZoneKind) -> RoutePolicy {
        match kind {
            ZoneKind::Work => self.work,
            ZoneKind::Storage => self.storage,
            ZoneKind::Patrol => self.patrol,
        }
    }

    pub fn for_kind(self, kind: ZoneKind) -> (policy: RoutePolicy)
        ensures
            policy == self.policy_of(kind),
    {
        match kind {
            ZoneKind::Work => self.work,
            ZoneKind::Storage => self.storage,
            ZoneKind::Patrol => self.patrol,
        }
    }

    /// Advances the policy of one district and returns the new policy; the
    /// other districts keep theirs.
    pub fn cycle(&mut self, kind: ZoneKind) -> (policy: RoutePolicy)
        ensures
            policy == route_policy_next(old(self).policy_of(kind)),
            final(self).policy_of(kind) == policy,
            forall|other: ZoneKind|
                other != kind ==> final(self).policy_of(other) == old(self).policy_of(other),
    {
        match kind {
            ZoneKind::Work => {
                self.work = self.work.next();
                self.work
            },
            ZoneKind::Storage => {
                self.storage = self.storage.next();
                self.storage
            },
            ZoneKind::Patrol => {
                self.patrol = self.patrol.next();
                self.patrol
            },
        }
    }
}

/// The domain-wide priority tilt for automated workers.
#[derive(Debug, Clone, Copy, PartialEq, Eq, Structural)]
pub enum StewardshipPolicy {
    Balanced,
    Secure,
    Harvest,
}

impl Default for StewardshipPolicy {
    fn default() -> (policy: StewardshipPolicy)
        ensures
            policy == StewardshipPolicy::Balanced,
    {
        StewardshipPolicy::Balanced
    }
}

pub open spec fn stewardship_id(policy: StewardshipPolicy) -> Seq<char> {
    match policy {
        StewardshipPolicy::Balanced => "balanced"@,
        StewardshipPolicy::Secure => "secure"@,
        StewardshipPolicy::Harvest => "harvest"@,
    }
}

pub open spec fn stewardship_label(policy: StewardshipPolicy) -> Seq<char> {
    match policy {
        StewardshipPolicy::Balanced => "Balanced"@,
        StewardshipPolicy::Secure => "Secure"@,
        StewardshipPolicy::Harvest => "Harvest"@,
    }
}

pub open spec fn stewardship_next(policy: StewardshipPolicy) -> StewardshipPolicy {
    match policy {
        StewardshipPolicy::Balanced => StewardshipPolicy::Secure,
        StewardshipPolicy::Secure => StewardshipPolicy::Harvest,
        StewardshipPolicy::Harvest => StewardshipPolicy::Balanced,
    }
}

/// The bias a policy puts on a job: 0 is preferred, 1 is deferred.
pub open spec fn stewardship_bias(policy: StewardshipPolicy, job: JobKind) -> usize {
    match policy {
        StewardshipPolicy::Balanced => 0,
        StewardshipPolicy::Secure => if job != JobKind::Guard { 1 } else { 0 },
        StewardshipPolicy::Harvest => if job == JobKind::Dig || job == JobKind::Haul || job
            == JobKind::Wood {
            0
        } else {
            1
        },
    }
}

impl StewardshipPolicy {
    pub fn id(self) -> (id: &'static str)
        ensures
            id@ == stewardship_id(self),
    {
        match self {
            StewardshipPolicy::Balanced => "balanced",
            StewardshipPolicy::Secure => "secure",
            StewardshipPolicy::Harvest => "harvest",
        }
    }

    pub fn label(self) -> (label: &'static str)
        ensures
            label@ == stewardship_label(self),
    {
        match self {
            StewardshipPolicy::Balanced => "Balanced",
            StewardshipPolicy::Secure => "Secure",
            StewardshipPolicy::Harvest => "Harvest",
        }
    }

    pub fn next(self) -> (next: StewardshipPolicy)
        ensures
            next == stewardship_next(self),
    {
        match self {
            StewardshipPolicy::Balanced => StewardshipPolicy::Secure,
            StewardshipPolicy::Secure => StewardshipPolicy::Harvest,
            StewardshipPolicy::Harvest => StewardshipPolicy::Balanced,
        }
    }

    pub fn bias(self, job: JobKind) -> (bias: usize)
        ensures
            bias == stewardship_bias(self, job),
    {
        match self {
            StewardshipPolicy::Balanced => 0,
            StewardshipPolicy::Secure => if job != JobKind::Guard {
                1
            } else {
                0
            },
            StewardshipPolicy::Harvest => match job {
                JobKind::Dig | JobKind::Haul | JobKind::Wood => 0,
                _ => 1,
            },
        }
    }
}

/// Cycling the stewardship policy returns to the start after three steps.
pub proof fn lemma_stewardship_cycle(policy: StewardshipPolicy)
    ensures
        stewardship_next(stewardship_next(stewardship_next(policy))) == policy,
{
}

} // verus!

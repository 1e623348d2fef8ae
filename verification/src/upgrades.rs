//! Persistent one-tier upgrades for completed settlement structures.

use vstd::prelude::*;
use crate::kinds::BuildingKind;
use crate::world::Building;

verus! {

/// The upgrade tier of each structure kind (0 or 1).
#[derive(Debug, Clone, Copy, PartialEq, Eq, Structural)]
pub struct BuildingUpgrades {
    pub work_shed: u8,
    pub grave_lantern: u8,
    pub ossuary_kiln: u8,
}

impl Default for BuildingUpgrades {
    fn default() -> (upgrades: BuildingUpgrades)
        ensures
            upgrades.work_shed == 0,
            upgrades.grave_lantern == 0,
            upgrades.ossuary_kiln == 0,
    {
        BuildingUpgrades { work_shed: 0, grave_lantern: 0, ossuary_kiln: 0 }
    }
}

/// Whether `buildings` holds a completed structure of `kind`.
pub open spec fn has_complete(buildings: Seq<Building>, kind: BuildingKind) -> bool {
    exists|i: int| 0 <= i < buildings.len() && (#[trigger] buildings[i]).kind == kind && buildings[i].complete
}

pub fn any_complete(buildings: &[Building], kind: BuildingKind) -> (found: bool)
    ensures
        found == has_complete(buildings@, kind),
{
    let mut i: usize = 0;
    while i < buildings.len()
        invariant
            i <= buildings@.len(),
            forall|j: int| 0 <= j < i ==> !((#[trigger] buildings@[j]).kind == kind && buildings@[j].complete),
        decreases buildings.len() - i,
    {
        if buildings[i].kind == kind && buildings[i].complete {
            return true;
        }
        i = i + 1;
    }
    false
}

impl BuildingUpgrades {
    pub open spec fn tier_of(self, kind: BuildingKind) -> u8 {
        match kind {
            BuildingKind::WorkShed => self.work_shed,
            BuildingKind::GraveLantern => self.grave_lantern,
            BuildingKind::OssuaryKiln => self.ossuary_kiln,
        }
    }

    pub fn tier(&self, kind: BuildingKind) -> (tier: u8)
        ensures
            tier == self.tier_of(kind),
    {
        match kind {
            BuildingKind::WorkShed => self.work_shed,
            BuildingKind::GraveLantern => self.grave_lantern,
            BuildingKind::OssuaryKiln => self.ossuary_kiln,
        }
    }

    /// Raises `kind` to tier 1; reports `false` when it already was upgraded.
    pub fn upgrade(&mut self, kind: BuildingKind) -> (upgraded: bool)
        ensures
            upgraded == (old(self).tier_of(kind) < 1),
            upgraded ==> final(self).tier_of(kind) == 1,
            !upgraded ==> final(self).tier_of(kind) == old(self).tier_of(kind),
            forall|other: BuildingKind| other != kind ==> final(self).tier_of(other) == old(self).tier_of(other),
    {
        let tier = self.tier(kind);
        if tier >= 1 {
            return false;
        }
        match kind {
            BuildingKind::WorkShed => self.work_shed = 1,
            BuildingKind::GraveLantern => self.grave_lantern = 1,
            BuildingKind::OssuaryKiln => self.ossuary_kiln = 1,
        }
        true
    }

    /// Caps every tier at 1 and clears the tier of kinds without a completed
    /// structure.
    pub fn normalize(&mut self, buildings: &[Building])
        ensures
            forall|kind: BuildingKind| #[trigger] final(self).tier_of(kind) == if has_complete(buildings@, kind) {
                if old(self).tier_of(kind) < 1 { old(self).tier_of(kind) } else { 1 }
            } else {
                0
            },
    {
        let shed: u8 = if any_complete(buildings, BuildingKind::WorkShed) { 1 } else { 0 };
        let lantern: u8 = if any_complete(buildings, BuildingKind::GraveLantern) { 1 } else { 0 };
        let kiln: u8 = if any_complete(buildings, BuildingKind::OssuaryKiln) { 1 } else { 0 };
        self.work_shed = min_u8(min_u8(self.work_shed, 1), shed);
        self.grave_lantern = min_u8(min_u8(self.grave_lantern, 1), lantern);
        self.ossuary_kiln = min_u8(min_u8(self.ossuary_kiln, 1), kiln);
    }
}

fn min_u8(a: u8, b: u8) -> (m: u8)
    ensures
        m == if a < b { a } else { b },
{
    if a < b {
        a
    } else {
        b
    }
}

/// After normalising, an upgrade stands only on a completed structure and
/// no tier exceeds 1.
pub proof fn lemma_normalized_upgrades_sound(before: BuildingUpgrades, after: BuildingUpgrades, buildings: Seq<Building>)
    requires
        forall|kind: BuildingKind| #[trigger] after.tier_of(kind) == if has_complete(buildings, kind) {
            if before.tier_of(kind) < 1 { before.tier_of(kind) } else { 1 }
        } else {
            0
        },
    ensures
        forall|kind: BuildingKind| #[trigger] after.tier_of(kind) <= 1,
        forall|kind: BuildingKind| #[trigger] after.tier_of(kind) == 1 ==> has_complete(buildings, kind),
{
    assert forall|kind: BuildingKind| #[trigger] after.tier_of(kind) <= 1 by {}
}

} // verus!

//! Which domain overlays the map shows once Domain Stewardship is studied.

use vstd::prelude::*;
use crate::kinds::Technology;
use crate::session::GameSession;

verus! {

#[derive(Debug, Clone, Copy, PartialEq, Eq, Structural)]
pub enum DomainOverlay {
    Zones,
    Routes,
    Pressure,
}

/// The overlays drawn over the map.
#[derive(Debug, Clone, Copy, PartialEq, Eq, Structural)]
pub struct DomainOverlays {
    pub zones: bool,
    pub routes: bool,
    pub pressure: bool,
}

impl Default for DomainOverlays {
    /// Marked zones show; routes and road pressure do not.
    fn default() -> (overlays: DomainOverlays)
        ensures
            overlays.zones,
            !overlays.routes,
            !overlays.pressure,
    {
        DomainOverlays { zones: true, routes: false, pressure: false }
    }
}

impl DomainOverlays {
    pub open spec fn shows(self, overlay: DomainOverlay) -> bool {
        match overlay {
            DomainOverlay::Zones => self.zones,
            DomainOverlay::Routes => self.routes,
            DomainOverlay::Pressure => self.pressure,
        }
    }

    /// Flips `overlay` and leaves the others as they are.
    pub fn toggle(&mut self, overlay: DomainOverlay)
        ensures
            final(self).shows(overlay) == !old(self).shows(overlay),
            forall|other: DomainOverlay| other != overlay ==> #[trigger] final(self).shows(other) == old(self).shows(other),
    {
        match overlay {
            DomainOverlay::Zones => self.zones = !self.zones,
            DomainOverlay::Routes => self.routes = !self.routes,
            DomainOverlay::Pressure => self.pressure = !self.pressure,
        }
    }
}

/// Flips `overlay` once Domain Stewardship is studied; before that the
/// overlays stay as they are. Tells whether it flipped.
pub fn toggle_domain_overlay(overlays: &mut DomainOverlays, session: &GameSession, overlay: DomainOverlay) -> (toggled:
    bool)
    ensures
        toggled == session.research.completed@.contains(Technology::DomainStewardship),
        toggled ==> final(overlays).shows(overlay) == !old(overlays).shows(overlay) && forall|other: DomainOverlay|
            other != overlay ==> #[trigger] final(overlays).shows(other) == old(overlays).shows(other),
        !toggled ==> *final(overlays) == *old(overlays),
{
    if session.research.is_unlocked(Technology::DomainStewardship) {
        overlays.toggle(overlay);
        true
    } else {
        false
    }
}

/// Toggling an overlay twice restores every overlay.
pub proof fn lemma_overlay_toggle_twice(
    before: DomainOverlays,
    middle: DomainOverlays,
    after: DomainOverlays,
    overlay: DomainOverlay,
)
    requires
        middle.shows(overlay) == !before.shows(overlay),
        forall|other: DomainOverlay| other != overlay ==> #[trigger] middle.shows(other) == before.shows(other),
        after.shows(overlay) == !middle.shows(overlay),
        forall|other: DomainOverlay| other != overlay ==> #[trigger] after.shows(other) == middle.shows(other),
    ensures
        after == before,
{
    assert(after.shows(DomainOverlay::Zones) == before.shows(DomainOverlay::Zones));
    assert(after.shows(DomainOverlay::Routes) == before.shows(DomainOverlay::Routes));
    assert(after.shows(DomainOverlay::Pressure) == before.shows(DomainOverlay::Pressure));
}

} // verus!

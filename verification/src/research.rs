//! Completed and current research.

use vstd::prelude::*;
use crate::kinds::{technology_prerequisite, Technology};

verus! {

/// Which studies are complete and which one is under way.
#[derive(Debug, Clone)]
pub struct ResearchState {
    pub completed: Vec<Technology>,
    pub current: Option<Technology>,
}

impl Default for ResearchState {
    fn default() -> (state: ResearchState)
        ensures
            state.completed@.len() == 0,
            state.current is None,
    {
        ResearchState { completed: Vec::new(), current: None }
    }
}

/// A study may begin when it is not complete, nothing else is under way and
/// its prerequisite is complete.
pub open spec fn may_start(completed: Seq<Technology>, current: Option<Technology>, technology: Technology) -> bool {
    &&& !completed.contains(technology)
    &&& current is None
    &&& match technology_prerequisite(technology) {
        None => true,
        Some(p) => completed.contains(p),
    }
}

impl ResearchState {
    pub fn is_unlocked(&self, technology: Technology) -> (unlocked: bool)
        ensures
            unlocked == self.completed@.contains(technology),
    {
        let mut i: usize = 0;
        while i < self.completed.len()
            invariant
                i <= self.completed@.len(),
                forall|j: int| 0 <= j < i ==> self.completed@[j] != technology,
            decreases self.completed.len() - i,
        {
            if self.completed[i] == technology {
                return true;
            }
            i = i + 1;
        }
        false
    }

    pub fn can_start(&self, technology: Technology) -> (startable: bool)
        ensures
            startable == may_start(self.completed@, self.current, technology),
            startable ==> !self.completed@.contains(technology) && self.current is None,
            startable ==> (technology_prerequisite(technology) matches Some(p) ==> self.completed@.contains(p)),
    {
        if self.is_unlocked(technology) || self.current.is_some() {
            return false;
        }
        match technology.prerequisite() {
            None => true,
            Some(p) => self.is_unlocked(p),
        }
    }
}

} // verus!

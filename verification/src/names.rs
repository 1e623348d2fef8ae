//! The pool of prefetched undead names: names offered by a name service are
//! kept trimmed and without case-insensitive repeats, and handed out only
//! when no worker already goes by them.

use vstd::prelude::*;
use crate::raising::{is_name_taken, name_taken};
use crate::text_util::{eq_ignore_ascii_case, same_ignoring_case, trim, trimmed};
use crate::workforce::Worker;

verus! {

/// How many names one request to the service asks for.
pub const PREFETCH_COUNT: usize = 8;

/// Below this many buffered names another request is worth making.
pub const MIN_BUFFERED_NAMES: usize = 3;

/// Names waiting to be given to newly raised undead.
#[derive(Debug, Clone)]
pub struct NameBuffer {
    pub names: Vec<String>,
}

/// Some buffered name equals `name`, ignoring ASCII case.
pub open spec fn listed_ignoring_case(names: Seq<Seq<char>>, name: Seq<char>) -> bool {
    exists|i: int| 0 <= i < names.len() && same_ignoring_case(#[trigger] names[i], name)
}

/// The buffer after the offered `incoming` names are taken in, in order:
/// each is trimmed, and kept unless empty or already buffered.
pub open spec fn absorbed(buffer: Seq<Seq<char>>, incoming: Seq<Seq<char>>) -> Seq<Seq<char>>
    decreases incoming.len(),
{
    if incoming.len() == 0 {
        buffer
    } else {
        let before = absorbed(buffer, incoming.drop_last());
        let name = trimmed(incoming.last());
        if name.len() == 0 || listed_ignoring_case(before, name) {
            before
        } else {
            before.push(name)
        }
    }
}

/// The position of the first buffered name no worker goes by.
pub open spec fn first_free_name(names: Seq<Seq<char>>, workers: Seq<Worker>) -> Option<int>
    decreases names.len(),
{
    if names.len() == 0 {
        None
    } else if !name_taken(workers, names[0]) {
        Some(0)
    } else {
        match first_free_name(names.skip(1), workers) {
            Some(i) => Some(i + 1),
            None => None,
        }
    }
}

pub open spec fn texts(names: Seq<String>) -> Seq<Seq<char>> {
    names.map_values(|s: String| s@)
}

/// A name handed out is one of the buffered names and no worker goes by it.
pub proof fn lemma_first_free_in_range(names: Seq<Seq<char>>, workers: Seq<Worker>)
    ensures
        first_free_name(names, workers) matches Some(i) ==> 0 <= i < names.len() && !name_taken(workers, names[i]),
    decreases names.len(),
{
    if names.len() > 0 && name_taken(workers, names[0]) {
        lemma_first_free_in_range(names.skip(1), workers);
    }
}

/// No two buffered names are equal ignoring ASCII case.
pub open spec fn distinct_ignoring_case(names: Seq<Seq<char>>) -> bool {
    forall|i: int, j: int|
        0 <= i < j < names.len() ==> !same_ignoring_case(#[trigger] names[i], #[trigger] names[j])
}

/// Taking in offered names never lets a repeat into the buffer.
pub proof fn lemma_absorbed_stays_distinct(buffer: Seq<Seq<char>>, incoming: Seq<Seq<char>>)
    requires
        distinct_ignoring_case(buffer),
    ensures
        distinct_ignoring_case(absorbed(buffer, incoming)),
    decreases incoming.len(),
{
    if incoming.len() > 0 {
        lemma_absorbed_stays_distinct(buffer, incoming.drop_last());
        let before = absorbed(buffer, incoming.drop_last());
        let name = trimmed(incoming.last());
        if !(name.len() == 0 || listed_ignoring_case(before, name)) {
            let after = before.push(name);
            assert forall|i: int, j: int| 0 <= i < j < after.len() implies !same_ignoring_case(
                #[trigger] after[i],
                #[trigger] after[j],
            ) by {
                if j == before.len() {
                    assert(after[i] == before[i]);
                    assert(after[j] == name);
                } else {
                    assert(after[i] == before[i] && after[j] == before[j]);
                }
            }
        }
    }
}

fn is_buffered(names: &Vec<String>, name: &str) -> (found: bool)
    ensures
        found == listed_ignoring_case(texts(names@), name@),
{
    let mut i: usize = 0;
    while i < names.len()
        invariant
            i <= names@.len(),
            forall|k: int| 0 <= k < i ==> !same_ignoring_case(#[trigger] texts(names@)[k], name@),
        decreases names.len() - i,
    {
        if eq_ignore_ascii_case(names[i].as_str(), name) {
            assert(same_ignoring_case(texts(names@)[i as int], name@));
            return true;
        }
        i = i + 1;
    }
    false
}

impl NameBuffer {
    /// An empty buffer.
    pub fn new() -> (buffer: NameBuffer)
        ensures
            buffer.names@.len() == 0,
    {
        NameBuffer { names: Vec::new() }
    }

    /// Whether the buffer runs low enough to ask the service for more.
    pub fn wants_more(&self) -> (low: bool)
        ensures
            low == (self.names@.len() < MIN_BUFFERED_NAMES),
    {
        self.names.len() < MIN_BUFFERED_NAMES
    }

    /// Takes in names offered by the service: each is trimmed and kept
    /// unless empty or already buffered (ignoring ASCII case).
    pub fn absorb(&mut self, incoming: &Vec<String>)
        ensures
            texts(final(self).names@) == absorbed(texts(old(self).names@), texts(incoming@)),
    {
        let ghost start = texts(self.names@);
        let mut i: usize = 0;
        while i < incoming.len()
            invariant
                i <= incoming@.len(),
                texts(self.names@) == absorbed(start, texts(incoming@).take(i as int)),
            decreases incoming.len() - i,
        {
            let name = trim(incoming[i].as_str());
            proof {
                let taken = texts(incoming@).take(i as int + 1);
                assert(taken.drop_last() =~= texts(incoming@).take(i as int));
                assert(taken.last() == incoming@[i as int]@);
            }
            if name.unicode_len() > 0 && !is_buffered(&self.names, name) {
                let ghost before = self.names@;
                self.names.push(name.to_string());
                assert(texts(self.names@) =~= texts(before).push(name@));
            }
            i = i + 1;
        }
        assert(texts(incoming@).take(i as int) =~= texts(incoming@));
    }

    /// Hands out the first buffered name no worker goes by, removing it
    /// from the buffer.
    pub fn take_name(&mut self, workers: &Vec<Worker>) -> (name: Option<String>)
        ensures
            match first_free_name(texts(old(self).names@), workers@) {
                Some(i) => name matches Some(n) && n@ == texts(old(self).names@)[i] && final(self).names@
                    == old(self).names@.remove(i),
                None => name is None && final(self).names@ == old(self).names@,
            },
    {
        let ghost all = texts(self.names@);
        let mut i: usize = 0;
        proof {
            assert(all.skip(0) =~= all);
        }
        while i < self.names.len()
            invariant
                i <= self.names@.len(),
                self.names@ == old(self).names@,
                all == texts(self.names@),
                first_free_name(all, workers@) == match first_free_name(all.skip(i as int), workers@) {
                    Some(k) => Some(k + i),
                    None => None::<int>,
                },
            decreases self.names.len() - i,
        {
            let ghost rest = all.skip(i as int);
            assert(rest[0] == all[i as int]);
            assert(rest.skip(1) =~= all.skip(i as int + 1));
            if !is_name_taken(workers, self.names[i].as_str()) {
                let taken = self.names.remove(i);
                return Some(taken);
            }
            i = i + 1;
        }
        assert(all.skip(i as int) =~= Seq::<Seq<char>>::empty());
        None
    }
}

} // verus!

//! The checkpoint store: residues kept by the iteration offset at which they
//! were reached.

use crate::engine::SEED;
use crate::natural::Natural;
use std::collections::BTreeMap;
use vstd::prelude::*;

verus! {

/// An ordered table from iteration offsets to residues. Each offset holds at
/// most one residue; writing to an offset replaces what it held.
pub struct CheckpointStore {
    entries: BTreeMap<u64, Natural>,
}

impl View for CheckpointStore {
    type V = Map<nat, nat>;

    closed spec fn view(&self) -> Map<nat, nat> {
        Map::new(
            |k: nat| k <= u64::MAX && self.entries@.contains_key(k as u64),
            |k: nat| self.entries@[k as u64]@,
        )
    }
}

/// The store of a run that has not begun: the seed residue at offset zero.
pub open spec fn initial_checkpoints() -> Map<nat, nat> {
    Map::<nat, nat>::empty().insert(0, SEED as nat)
}

impl CheckpointStore {
    /// A store that holds the seed residue at offset zero and nothing else.
    pub fn new() -> (store: CheckpointStore)
        ensures
            store@ == initial_checkpoints(),
    {
        let mut entries: BTreeMap<u64, Natural> = BTreeMap::new();
        entries.insert(0, Natural::from_u64(SEED));
        let store = CheckpointStore { entries };
        assert(store@ =~= initial_checkpoints());
        store
    }

    /// The residue kept at `offset`, if there is one.
    pub fn get(&self, offset: u64) -> (found: Option<&Natural>)
        ensures
            match found {
                Some(residue) => self@.contains_key(offset as nat) && self@[offset as nat]
                    == residue@,
                None => !self@.contains_key(offset as nat),
            },
    {
        self.entries.get(&offset)
    }

    /// Keeps `residue` at `offset`, in place of what was kept there before.
    pub fn put(&mut self, offset: u64, residue: Natural)
        ensures
            final(self)@ == old(self)@.insert(offset as nat, residue@),
    {
        self.entries.insert(offset, residue);
        assert(self@ =~= old(self)@.insert(offset as nat, residue@));
    }
}

} // verus!

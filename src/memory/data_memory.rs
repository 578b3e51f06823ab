//! The variable store: a sparse map from byte addresses to values.
use vstd::prelude::*;

use std::collections::HashMap;

use crate::memory::data::{DataView, InnerData};

verus! {

broadcast use vstd::std_specs::hash::group_hash_axioms;

/// The value read at an address: what was last written there, else 0.
pub open spec fn read_var(m: Map<u8, DataView>, idx: u8) -> DataView {
    if m.contains_key(idx) {
        m[idx]
    } else {
        DataView::Int8(0)
    }
}

/// Values stored by address; an address never written reads as 0.
#[derive(Debug)]
pub struct DataMemory {
    pub data: HashMap<u8, InnerData>,
}

impl View for DataMemory {
    type V = Map<u8, DataView>;

    open spec fn view(&self) -> Map<u8, DataView> {
        self.data@.map_values(|v: InnerData| v@)
    }
}

impl DataMemory {
    /// A store with no address written.
    pub fn new() -> (r: DataMemory)
        ensures
            r@ == Map::<u8, DataView>::empty(),
    {
        let r = DataMemory { data: HashMap::new() };
        proof {
            assert(r@ =~= Map::<u8, DataView>::empty());
        }
        r
    }

    /// The value at `idx`, or `INT(0)` where nothing was written.
    pub fn get_var_value(&self, idx: u8) -> (r: &InnerData)
        ensures
            r@ == read_var(self@, idx),
    {
        if let Some(value) = self.data.get(&idx) {
            value
        } else {
            &InnerData::INT(0)
        }
    }

    /// Writes `value` at `idx`.
    pub fn set_var_value(&mut self, idx: u8, value: InnerData)
        ensures
            final(self)@ == old(self)@.insert(idx, value@),
    {
        self.data.insert(idx, value);
        proof {
            assert(self@ =~= old(self)@.insert(idx, value@));
        }
    }
}

/// The store after writing each `(address, value)` pair of `writes` in turn,
/// starting from `m`.
pub open spec fn apply_writes(m: Map<u8, DataView>, writes: Seq<(u8, DataView)>) -> Map<u8, DataView>
    decreases writes.len(),
{
    if writes.len() == 0 {
        m
    } else {
        apply_writes(m, writes.drop_last()).insert(writes.last().0, writes.last().1)
    }
}

/// Default read: in a store that starts empty, an address that none of the
/// writes touched reads as the 8-bit integer 0.
pub proof fn lemma_default_read(writes: Seq<(u8, DataView)>, idx: u8)
    requires
        forall|k: int| 0 <= k < writes.len() ==> (#[trigger] writes[k]).0 != idx,
    ensures
        read_var(apply_writes(Map::empty(), writes), idx) == DataView::Int8(0),
    decreases writes.len(),
{
    if writes.len() > 0 {
        let rest = writes.drop_last();
        assert forall|k: int| 0 <= k < rest.len() implies (#[trigger] rest[k]).0 != idx by {
            assert(rest[k] == writes[k]);
        }
        lemma_default_read(rest, idx);
        assert(writes.last() == writes[writes.len() - 1]);
    }
}

} // verus!

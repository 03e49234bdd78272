//! The state service: keeps the latest snapshot each component published in
//! this period and plans the writes that carry snapshots along state syncs.
use std::collections::HashMap;
use vstd::prelude::*;
use crate::codec::{frame, framed};
use crate::global_state::{component_ready, GlobalState};
use crate::types::{ComponentView, StateSync, StateSyncStatus};

verus! {

broadcast use vstd::std_specs::hash::group_hash_axioms;

/// The largest state frame accepted by default, in bytes.
pub const STATE_FRAME_CAP: u32 = 1000;

/// A framed snapshot to write to the state socket of a sync's target.
pub struct SnapshotWrite {
    pub state_sync_id: u128,
    pub child_pid: i32,
    pub frame: Vec<u8>,
}

pub struct SnapshotWriteView {
    pub state_sync_id: u128,
    pub child_pid: i32,
    pub frame: Seq<u8>,
}

impl View for SnapshotWrite {
    type V = SnapshotWriteView;

    open spec fn view(&self) -> SnapshotWriteView {
        SnapshotWriteView {
            state_sync_id: self.state_sync_id,
            child_pid: self.child_pid,
            frame: self.frame@,
        }
    }
}

/// The writes for a list of syncs, in order: each sync past Created whose
/// source published a snapshot and whose target has an implementation gets
/// that snapshot, framed.
pub open spec fn snapshot_writes(
    input: Map<u128, Seq<u8>>,
    components: Map<u128, ComponentView>,
    syncs: Seq<StateSync>,
) -> Seq<SnapshotWriteView>
    decreases syncs.len(),
{
    if syncs.len() == 0 {
        Seq::empty()
    } else {
        let rest = snapshot_writes(input, components, syncs.drop_last());
        let s = syncs.last();
        if s.status != StateSyncStatus::Created && input.contains_key(s.source.component_id)
            && component_ready(components, s.target.component_id) {
            rest.push(
                SnapshotWriteView {
                    state_sync_id: s.id,
                    child_pid: components[s.target.component_id].implementation->Some_0.child_pid,
                    frame: framed(input[s.source.component_id]),
                },
            )
        } else {
            rest
        }
    }
}

pub struct StateService {
    pub input_state: HashMap<u128, Vec<u8>>,
    pub cap: u32,
}

impl StateService {
    /// The snapshots read in this period, by component.
    pub open spec fn input(&self) -> Map<u128, Seq<u8>> {
        self.input_state@.map_values(|b: Vec<u8>| b@)
    }

    /// Every kept snapshot is within the cap.
    pub open spec fn inv(&self) -> bool {
        forall|id: u128| #[trigger]
            self.input().contains_key(id) ==> self.input()[id].len() <= self.cap
    }

    /// Whether a state frame of this length is read at all: it must be
    /// non-empty and within the cap.
    pub open spec fn length_ok(&self, length: int) -> bool {
        0 < length <= self.cap
    }

    pub fn new() -> (r: StateService)
        ensures
            r.inv(),
            r.input().is_empty(),
            r.cap == STATE_FRAME_CAP,
    {
        let r = StateService { input_state: HashMap::new(), cap: STATE_FRAME_CAP };
        assert(r.input() =~= Map::empty());
        r
    }

    /// Forgets the snapshots of the previous period.
    pub fn clear(&mut self)
        ensures
            final(self).inv(),
            final(self).input().is_empty(),
            final(self).cap == old(self).cap,
    {
        self.input_state.clear();
        assert(self.input() =~= Map::empty());
    }

    pub fn frame_length_ok(&self, length: u32) -> (r: bool)
        ensures
            r == self.length_ok(length as int),
    {
        0 < length && length <= self.cap
    }

    /// Keeps `body` as component `id`'s latest snapshot when its length is
    /// acceptable; otherwise changes nothing. Returns whether it was kept.
    pub fn accept_snapshot(&mut self, id: u128, body: Vec<u8>) -> (r: bool)
        requires
            old(self).inv(),
        ensures
            final(self).inv(),
            final(self).cap == old(self).cap,
            r == old(self).length_ok(body@.len() as int),
            r ==> final(self).input() == old(self).input().insert(id, body@),
            !r ==> final(self).input() == old(self).input(),
    {
        if body.len() == 0 || body.len() > self.cap as usize {
            return false;
        }
        let ghost b = body@;
        let _ = self.input_state.insert(id, body);
        assert(self.input() =~= old(self).input().insert(id, b));
        true
    }

    /// The snapshot writes of this period, in the order of the state syncs.
    pub fn pending_writes(&self, state: &GlobalState) -> (r: Vec<SnapshotWrite>)
        requires
            self.inv(),
        ensures
            r@.map_values(|w: SnapshotWrite| w@) == snapshot_writes(
                self.input(),
                state@.components,
                state.state_sync@,
            ),
    {
        let syncs = &state.state_sync;
        let mut out: Vec<SnapshotWrite> = Vec::new();
        let mut i: usize = 0;
        while i < syncs.len()
            invariant
                syncs == &state.state_sync,
                i <= syncs@.len(),
                self.inv(),
                out@.map_values(|w: SnapshotWrite| w@) == snapshot_writes(
                    self.input(),
                    state@.components,
                    syncs@.subrange(0, i as int),
                ),
            decreases syncs@.len() - i,
        {
            let s = syncs[i];
            assert(syncs@.subrange(0, i + 1).drop_last() =~= syncs@.subrange(0, i as int));
            let ghost before = out@.map_values(|w: SnapshotWrite| w@);
            if s.status != StateSyncStatus::Created {
                match self.input_state.get(&s.source.component_id) {
                    Some(bytes) => {
                        match state.components.get(&s.target.component_id) {
                            Some(c) => {
                                match c.implementation {
                                    Some(imp) => {
                                        assert(self.input().contains_key(s.source.component_id));
                                        let w = SnapshotWrite {
                                            state_sync_id: s.id,
                                            child_pid: imp.child_pid,
                                            frame: frame(bytes),
                                        };
                                        out.push(w);
                                        assert(out@.map_values(|w: SnapshotWrite| w@)
                                            =~= before.push(w@));
                                    },
                                    None => {},
                                }
                            },
                            None => {},
                        }
                    },
                    None => {},
                }
            }
            i = i + 1;
        }
        assert(syncs@.subrange(0, syncs@.len() as int) =~= syncs@);
        out
    }
}

} // verus!

//! The scheduler service: which components run in the current period, in
//! which order, and for how long.
use vstd::prelude::*;
use crate::global_state::{component_ready, GlobalState, GlobalStateView};
use crate::types::{ComponentView, MinorFrame};

verus! {

broadcast use vstd::std_specs::hash::group_hash_axioms;

/// One minor frame to run: resume the component's process, let it run for
/// `deadline` microseconds, then demote it.
#[derive(PartialEq, Eq, Structural, Clone, Copy, Debug)]
pub struct Dispatch {
    pub component_id: u128,
    pub child_pid: i32,
    pub deadline: u64,
}

/// A component that the scheduler resumes: it exists, runs, and has an
/// implementation.
pub open spec fn dispatchable(components: Map<u128, ComponentView>, id: u128) -> bool {
    component_ready(components, id) && components[id].run
}

/// The dispatches of a major frame's minor frames, in order; frames whose
/// component is missing, stopped or without implementation are skipped.
pub open spec fn dispatches(components: Map<u128, ComponentView>, frames: Seq<MinorFrame>) -> Seq<
    Dispatch,
>
    decreases frames.len(),
{
    if frames.len() == 0 {
        Seq::empty()
    } else {
        let rest = dispatches(components, frames.drop_last());
        let f = frames.last();
        if dispatchable(components, f.component_id) {
            rest.push(
                Dispatch {
                    component_id: f.component_id,
                    child_pid: components[f.component_id].implementation->Some_0.child_pid,
                    deadline: f.deadline,
                },
            )
        } else {
            rest
        }
    }
}

/// The major frame that a run starts from: the first after a schedule
/// change or when the index is out of range, else the current one.
pub open spec fn start_index(v: GlobalStateView, index: int) -> int {
    if v.schedule_changed || index >= v.schedule.frames.len() {
        0
    } else {
        index
    }
}

pub struct SchedulerService {
    frame_index: usize,
}

impl SchedulerService {
    /// The index of the major frame that the next run executes.
    pub closed spec fn index(&self) -> int {
        self.frame_index as int
    }

    pub fn new() -> (r: SchedulerService)
        ensures
            r.index() == 0,
    {
        SchedulerService { frame_index: 0 }
    }

    pub fn frame_index(&self) -> (r: usize)
        ensures
            r == self.index(),
    {
        self.frame_index
    }

    /// Plans the current major frame and advances to the next one, wrapping
    /// at the end. With no major frames nothing runs.
    pub fn run(&mut self, state: &mut GlobalState) -> (r: Vec<Dispatch>)
        requires
            old(state).inv(),
        ensures
            final(state).inv(),
            final(state)@ == (GlobalStateView { schedule_changed: false, ..old(state)@ }),
            ({
                let v = old(state)@;
                let n = v.schedule.frames.len();
                let start = start_index(v, old(self).index());
                &&& n == 0 ==> r@.len() == 0 && final(self).index() == 0
                &&& n > 0 ==> r@ == dispatches(
                    v.components,
                    v.schedule.frames[start],
                )
                &&& n > 0 ==> final(self).index() == (start + 1) % (n as int)
                &&& n > 0 ==> 0 <= final(self).index() < n
            }),
    {
        if state.schedule_changed {
            self.frame_index = 0;
            state.schedule_changed = false;
        }
        let n = state.schedule.major_frames.len();
        if n == 0 {
            self.frame_index = 0;
            return Vec::new();
        }
        if self.frame_index >= n {
            self.frame_index = 0;
        }
        let ghost start = start_index(old(state)@, old(self).index());
        assert(self.frame_index == start);
        let minor = &state.schedule.major_frames[self.frame_index].minor_frames;
        let mut out: Vec<Dispatch> = Vec::new();
        let mut j: usize = 0;
        while j < minor.len()
            invariant
                state@ == (GlobalStateView { schedule_changed: false, ..old(state)@ }),
                self.frame_index == start,
                0 <= start < n,
                n == state.schedule.major_frames@.len(),
                minor == state.schedule.major_frames@[start].minor_frames,
                j <= minor@.len(),
                out@ == dispatches(state@.components, minor@.subrange(0, j as int)),
            decreases minor@.len() - j,
        {
            let f = minor[j];
            assert(minor@.subrange(0, j + 1).drop_last() =~= minor@.subrange(0, j as int));
            match state.components.get(&f.component_id) {
                Some(c) => {
                    if c.run {
                        match c.implementation {
                            Some(i) => {
                                out.push(
                                    Dispatch {
                                        component_id: f.component_id,
                                        child_pid: i.child_pid,
                                        deadline: f.deadline,
                                    },
                                );
                            },
                            None => {},
                        }
                    }
                },
                None => {},
            }
            j = j + 1;
        }
        assert(minor@.subrange(0, minor@.len() as int) =~= minor@);
        if self.frame_index + 1 >= n {
            self.frame_index = 0;
            assert((start + 1) % (n as int) == 0) by (nonlinear_arith)
                requires
                    start + 1 == n,
                    n > 0,
            ;
        } else {
            self.frame_index = self.frame_index + 1;
            assert((start + 1) % (n as int) == start + 1) by (nonlinear_arith)
                requires
                    0 <= start + 1 < n,
            ;
        }
        out
    }
}

} // verus!

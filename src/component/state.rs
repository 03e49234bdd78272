//! A component's snapshot: the last one received from the runner or set by
//! the component itself.
use vstd::prelude::*;
use crate::codec::{frame, framed, push_all};

verus! {

pub struct Manager {
    pub data: Vec<u8>,
}

impl Manager {
    pub fn new() -> (r: Manager)
        ensures
            r.data@.len() == 0,
    {
        Manager { data: Vec::new() }
    }

    /// Takes in one state frame body from the runner; an empty one is skipped.
    pub fn receive(&mut self, body: Vec<u8>)
        ensures
            body@.len() == 0 ==> final(self).data@ == old(self).data@,
            body@.len() > 0 ==> final(self).data@ == body@,
    {
        if body.len() > 0 {
            self.data = body;
        }
    }

    /// A copy of the current snapshot.
    pub fn get_data(&self) -> (r: Vec<u8>)
        ensures
            r@ == self.data@,
    {
        let mut out: Vec<u8> = Vec::new();
        push_all(&mut out, &self.data);
        out
    }

    /// Replaces the snapshot and returns it framed, to write to the state socket.
    pub fn set_data(&mut self, data: Vec<u8>) -> (r: Vec<u8>)
        requires
            data@.len() <= u32::MAX,
        ensures
            final(self).data@ == data@,
            r@ == framed(data@),
    {
        let r = frame(&data);
        self.data = data;
        r
    }
}

} // verus!

//! A component's message queues: inbound messages by channel, in arrival
//! order, and the counter stamped on outbound messages.
use std::collections::HashMap;
use vstd::prelude::*;
use crate::codec::{decoded, encode_frame, framed, message_bytes, push_all, Message, MessageView};
use crate::global_state::queue_view;

verus! {

broadcast use vstd::std_specs::hash::group_hash_axioms;

/// The counter after `c`, wrapping at 255.
pub open spec fn next_count(c: u8) -> u8 {
    if c == 255 {
        0
    } else {
        (c + 1) as u8
    }
}

/// The sequence counters of a component's message stream.
#[derive(PartialEq, Eq, Structural, Clone, Copy, Debug)]
pub struct State {
    pub send_count: u8,
    pub receive_count: u8,
}

pub struct Manager {
    pub state: State,
    pub messages: HashMap<u32, Vec<Message>>,
    /// Framed outbound messages not yet written to the data socket.
    pub outbox: Vec<u8>,
}

impl Manager {
    /// The inbound queues by channel.
    pub open spec fn queues(&self) -> Map<u32, Seq<MessageView>> {
        self.messages@.map_values(|q: Vec<Message>| queue_view(q@))
    }

    /// The inbound queue of a channel; empty where nothing arrived.
    pub open spec fn queue(&self, channel: u32) -> Seq<MessageView> {
        if self.queues().contains_key(channel) {
            self.queues()[channel]
        } else {
            Seq::empty()
        }
    }

    pub fn new() -> (r: Manager)
        ensures
            r.queues().is_empty(),
            r.state.send_count == 0,
            r.state.receive_count == 0,
            r.outbox@.len() == 0,
    {
        let r = Manager {
            state: State { send_count: 0, receive_count: 0 },
            messages: HashMap::new(),
            outbox: Vec::new(),
        };
        assert(r.queues() =~= Map::empty());
        r
    }

    /// Takes in one frame body from the runner: a message is appended to its
    /// channel's queue and the expected count moves past its count; a body
    /// that does not decode changes nothing.
    pub fn receive(&mut self, body: &Vec<u8>)
        ensures
            final(self).state.send_count == old(self).state.send_count,
            final(self).outbox == old(self).outbox,
            match decoded(body@) {
                None => final(self).queues() == old(self).queues() && final(self).state
                    == old(self).state,
                Some(m) => {
                    &&& final(self).queues() == old(self).queues().insert(
                        m.channel_id,
                        old(self).queue(m.channel_id).push(m),
                    )
                    &&& final(self).state.receive_count == next_count(m.count)
                },
            },
    {
        let m = match Message::decode(body) {
            Some(m) => m,
            None => return,
        };
        let c = m.count;
        self.state.receive_count = if c == 255 {
            0
        } else {
            c + 1
        };
        let channel = m.channel_id;
        let mut q = match self.messages.remove(&channel) {
            Some(q) => q,
            None => Vec::new(),
        };
        assert(queue_view(q@) =~= old(self).queue(channel));
        let ghost mv = m@;
        q.push(m);
        assert(queue_view(q@) =~= old(self).queue(channel).push(mv));
        let _ = self.messages.insert(channel, q);
        assert(self.queues() =~= old(self).queues().insert(channel, old(self).queue(channel).push(mv)));
    }

    /// Takes the oldest message that arrived on `channel`.
    pub fn get_message(&mut self, channel: u32) -> (r: Option<Message>)
        ensures
            final(self).state == old(self).state,
            final(self).outbox == old(self).outbox,
            old(self).queue(channel).len() == 0 ==> r is None && final(self).queues() == old(
                self,
            ).queues(),
            old(self).queue(channel).len() > 0 ==> {
                &&& r matches Some(m) && m@ == old(self).queue(channel)[0]
                &&& final(self).queues() == old(self).queues().insert(
                    channel,
                    old(self).queue(channel).drop_first(),
                )
            },
    {
        let mut q = match self.messages.remove(&channel) {
            Some(q) => q,
            None => {
                assert(self.queues() =~= old(self).queues());
                return None;
            },
        };
        if q.len() == 0 {
            let _ = self.messages.insert(channel, q);
            assert(self.messages@ =~= old(self).messages@);
            return None;
        }
        let ghost q0 = q@;
        let m = q.remove(0);
        assert(queue_view(q@) =~= queue_view(q0).drop_first());
        let _ = self.messages.insert(channel, q);
        assert(self.queues() =~= old(self).queues().insert(
            channel,
            old(self).queue(channel).drop_first(),
        ));
        Some(m)
    }

    /// Stamps `data` with the send counter, advances the counter (wrapping),
    /// and appends the framed message to the outbox.
    pub fn send_message(&mut self, channel_id: u32, data: Vec<u8>)
        requires
            data@.len() + 5 <= u32::MAX,
        ensures
            final(self).outbox@ == old(self).outbox@ + framed(
                message_bytes(
                    MessageView { channel_id, count: old(self).state.send_count, data: data@ },
                ),
            ),
            final(self).state.send_count == next_count(old(self).state.send_count),
            final(self).state.receive_count == old(self).state.receive_count,
            final(self).queues() == old(self).queues(),
    {
        let count = self.state.send_count;
        let message = Message { channel_id, count, data };
        let frame = encode_frame(&message);
        self.state.send_count = if count == 255 {
            0
        } else {
            count + 1
        };
        push_all(&mut self.outbox, &frame);
    }

    /// Takes the framed messages sent since the last call, in send order.
    pub fn take_outbox(&mut self) -> (r: Vec<u8>)
        ensures
            r@ == old(self).outbox@,
            final(self).outbox@.len() == 0,
            final(self).state == old(self).state,
            final(self).queues() == old(self).queues(),
    {
        let mut out: Vec<u8> = Vec::new();
        std::mem::swap(&mut out, &mut self.outbox);
        out
    }
}

} // verus!

//! The communication service: routes each message read from a component's
//! data socket or from the UDP socket to its target, buffers it, and turns the
//! buffers into framed writes.
use vstd::prelude::*;
use crate::codec::{
    datagram_message, decode_datagram, decoded, encode_frame, framed, message_bytes, Message,
    MessageView,
};
use crate::global_state::{GlobalState, GlobalStateView};
use crate::scheduler::dispatchable;
use crate::types::{ComponentView, Endpoint, PeerAddr, RouteEndpoint};

verus! {

broadcast use vstd::std_specs::hash::group_hash_axioms;

/// The routing plane as plain values: the egress buffers for components and
/// for UDP peers, in arrival order, and the global state.
pub struct Plane {
    pub components: Seq<(u128, MessageView)>,
    pub addresses: Seq<(PeerAddr, MessageView)>,
    pub state: GlobalStateView,
}

/// Where a message from `source` goes: the route of (source, its channel)
/// decides; a component or a peer target buffers it, the runner target queues
/// it on the target's channel, and with no route it is dropped.
pub open spec fn routed(p: Plane, source: Endpoint, m: MessageView) -> Plane {
    let key = RouteEndpoint { endpoint: source, channel_id: m.channel_id };
    if !p.state.routes.contains_key(key) {
        p
    } else {
        let t = p.state.routes[key];
        match t.endpoint {
            Endpoint::Component(id) => Plane { components: p.components.push((id, m)), ..p },
            Endpoint::Address(a) => Plane { addresses: p.addresses.push((a, m)), ..p },
            Endpoint::Runner => Plane { state: p.state.push_message(t.channel_id, m), ..p },
        }
    }
}

/// Routes the message that a body holds; a body that does not decode is dropped.
pub open spec fn routed_body(p: Plane, source: Endpoint, body: Seq<u8>) -> Plane {
    match decoded(body) {
        Some(m) => routed(p, source, m),
        None => p,
    }
}

/// Routes bodies from one source, in order.
pub open spec fn routed_bodies(p: Plane, source: Endpoint, bodies: Seq<Seq<u8>>) -> Plane
    decreases bodies.len(),
{
    if bodies.len() == 0 {
        p
    } else {
        routed_body(routed_bodies(p, source, bodies.drop_last()), source, bodies.last())
    }
}

/// A framed write to a component's data socket.
pub struct Delivery {
    pub component_id: u128,
    pub child_pid: i32,
    pub frame: Vec<u8>,
}

pub struct DeliveryView {
    pub component_id: u128,
    pub child_pid: i32,
    pub frame: Seq<u8>,
}

impl View for Delivery {
    type V = DeliveryView;

    open spec fn view(&self) -> DeliveryView {
        DeliveryView {
            component_id: self.component_id,
            child_pid: self.child_pid,
            frame: self.frame@,
        }
    }
}

/// The writes that flushing a component buffer makes, in buffer order: one
/// frame per message whose target runs and has an implementation.
pub open spec fn deliveries(components: Map<u128, ComponentView>, es: Seq<(u128, MessageView)>) -> Seq<
    DeliveryView,
>
    decreases es.len(),
{
    if es.len() == 0 {
        Seq::empty()
    } else {
        let rest = deliveries(components, es.drop_last());
        let e = es.last();
        if dispatchable(components, e.0) {
            rest.push(
                DeliveryView {
                    component_id: e.0,
                    child_pid: components[e.0].implementation->Some_0.child_pid,
                    frame: framed(message_bytes(e.1)),
                },
            )
        } else {
            rest
        }
    }
}

/// A message fits in a frame.
pub open spec fn fits(m: MessageView) -> bool {
    m.data.len() + 5 <= u32::MAX
}

pub struct CommunicationService {
    pub component_exit_buffer: Vec<(u128, Message)>,
    pub address_exit_buffer: Vec<(PeerAddr, Message)>,
}

impl CommunicationService {
    pub open spec fn component_egress(&self) -> Seq<(u128, MessageView)> {
        self.component_exit_buffer@.map_values(|e: (u128, Message)| (e.0, e.1@))
    }

    pub open spec fn address_egress(&self) -> Seq<(PeerAddr, MessageView)> {
        self.address_exit_buffer@.map_values(|e: (PeerAddr, Message)| (e.0, e.1@))
    }

    pub open spec fn plane(&self, state: GlobalStateView) -> Plane {
        Plane { components: self.component_egress(), addresses: self.address_egress(), state }
    }

    /// Every buffered message fits in a frame.
    pub open spec fn inv(&self) -> bool {
        &&& forall|i: int|
            0 <= i < self.component_exit_buffer@.len() ==> fits(
                #[trigger] self.component_exit_buffer@[i].1@,
            )
        &&& forall|i: int|
            0 <= i < self.address_exit_buffer@.len() ==> fits(
                #[trigger] self.address_exit_buffer@[i].1@,
            )
    }

    pub fn new() -> (r: CommunicationService)
        ensures
            r.inv(),
            r.component_egress().len() == 0,
            r.address_egress().len() == 0,
    {
        CommunicationService { component_exit_buffer: Vec::new(), address_exit_buffer: Vec::new() }
    }

    /// Routes one message from `source`.
    pub fn dispatch(&mut self, state: &mut GlobalState, source: Endpoint, message: Message)
        requires
            old(state).inv(),
            old(self).inv(),
            fits(message@),
        ensures
            final(state).inv(),
            final(self).inv(),
            final(self).plane(final(state)@) == routed(
                old(self).plane(old(state)@),
                source,
                message@,
            ),
    {
        let key = RouteEndpoint { endpoint: source, channel_id: message.channel_id };
        let ghost m = message@;
        match state.get_route(&key) {
            None => {},
            Some(t) => {
                match t.endpoint {
                    Endpoint::Component(id) => {
                        self.component_exit_buffer.push((id, message));
                        assert(self.component_egress() =~= old(self).component_egress().push(
                            (id, m),
                        ));
                    },
                    Endpoint::Address(a) => {
                        self.address_exit_buffer.push((a, message));
                        assert(self.address_egress() =~= old(self).address_egress().push((a, m)));
                    },
                    Endpoint::Runner => {
                        state.push_message(t.channel_id, message);
                    },
                }
            },
        }
    }

    /// Routes the message held in a frame body read from `source`.
    pub fn route_frame(&mut self, state: &mut GlobalState, source: Endpoint, body: &Vec<u8>)
        requires
            old(state).inv(),
            old(self).inv(),
            body@.len() <= u32::MAX,
        ensures
            final(state).inv(),
            final(self).inv(),
            final(self).plane(final(state)@) == routed_body(
                old(self).plane(old(state)@),
                source,
                body@,
            ),
    {
        match Message::decode(body) {
            Some(m) => {
                self.dispatch(state, source, m);
            },
            None => {},
        }
    }

    /// Routes the bodies read from one source, in the order they were read.
    pub fn route_frames(&mut self, state: &mut GlobalState, source: Endpoint, bodies: &Vec<Vec<u8>>)
        requires
            old(state).inv(),
            old(self).inv(),
            forall|i: int| 0 <= i < bodies@.len() ==> (#[trigger] bodies@[i])@.len() <= u32::MAX,
        ensures
            final(state).inv(),
            final(self).inv(),
            final(self).plane(final(state)@) == routed_bodies(
                old(self).plane(old(state)@),
                source,
                bodies@.map_values(|b: Vec<u8>| b@),
            ),
    {
        let ghost all = bodies@.map_values(|b: Vec<u8>| b@);
        let mut i: usize = 0;
        while i < bodies.len()
            invariant
                i <= bodies@.len(),
                all == bodies@.map_values(|b: Vec<u8>| b@),
                forall|k: int| 0 <= k < bodies@.len() ==> (#[trigger] bodies@[k])@.len() <= u32::MAX,
                state.inv(),
                self.inv(),
                self.plane(state@) == routed_bodies(
                    old(self).plane(old(state)@),
                    source,
                    all.subrange(0, i as int),
                ),
            decreases bodies@.len() - i,
        {
            assert(all.subrange(0, i + 1).drop_last() =~= all.subrange(0, i as int));
            assert(all.subrange(0, i + 1).last() == bodies@[i as int]@);
            self.route_frame(state, source, &bodies[i]);
            i = i + 1;
        }
        assert(all.subrange(0, bodies@.len() as int) =~= all);
    }

    /// Routes the message that a datagram from `from` carries.
    pub fn route_datagram(&mut self, state: &mut GlobalState, from: PeerAddr, datagram: &Vec<u8>)
        requires
            old(state).inv(),
            old(self).inv(),
        ensures
            final(state).inv(),
            final(self).inv(),
            final(self).plane(final(state)@) == match datagram_message(datagram@) {
                Some(m) => routed(old(self).plane(old(state)@), Endpoint::Address(from), m),
                None => old(self).plane(old(state)@),
            },
    {
        match decode_datagram(datagram) {
            Some(m) => {
                self.dispatch(state, Endpoint::Address(from), m);
            },
            None => {},
        }
    }

    /// Takes the component buffer as framed writes, in order, dropping the
    /// messages whose target is stopped, gone or without implementation.
    pub fn flush_components(&mut self, state: &GlobalState) -> (r: Vec<Delivery>)
        requires
            old(self).inv(),
        ensures
            final(self).inv(),
            final(self).component_egress().len() == 0,
            final(self).address_egress() == old(self).address_egress(),
            r@.map_values(|d: Delivery| d@) == deliveries(
                state@.components,
                old(self).component_egress(),
            ),
    {
        let mut out: Vec<Delivery> = Vec::new();
        let ghost es = self.component_egress();
        let mut i: usize = 0;
        while i < self.component_exit_buffer.len()
            invariant
                self == old(self),
                es == self.component_egress(),
                i <= es.len(),
                self.inv(),
                out@.map_values(|d: Delivery| d@) == deliveries(
                    state@.components,
                    es.subrange(0, i as int),
                ),
            decreases es.len() - i,
        {
            let e = &self.component_exit_buffer[i];
            assert(es.subrange(0, i + 1).drop_last() =~= es.subrange(0, i as int));
            assert(fits(self.component_exit_buffer@[i as int].1@));
            let ghost before = out@.map_values(|d: Delivery| d@);
            match state.components.get(&e.0) {
                Some(c) => {
                    if c.run {
                        match c.implementation {
                            Some(imp) => {
                                let frame = encode_frame(&e.1);
                                let d = Delivery {
                                    component_id: e.0,
                                    child_pid: imp.child_pid,
                                    frame,
                                };
                                out.push(d);
                                assert(out@.map_values(|d: Delivery| d@) =~= before.push(d@));
                            },
                            None => {},
                        }
                    }
                },
                None => {},
            }
            i = i + 1;
        }
        assert(es.subrange(0, es.len() as int) =~= es);
        self.component_exit_buffer.clear();
        assert(self.component_egress() =~= Seq::empty());
        out
    }

    /// Takes the peer buffer as framed datagrams, in order.
    pub fn flush_addresses(&mut self) -> (r: Vec<(PeerAddr, Vec<u8>)>)
        requires
            old(self).inv(),
        ensures
            final(self).inv(),
            final(self).address_egress().len() == 0,
            final(self).component_egress() == old(self).component_egress(),
            r@.len() == old(self).address_egress().len(),
            forall|i: int|
                0 <= i < r@.len() ==> (#[trigger] r@[i]).0 == old(self).address_egress()[i].0
                    && r@[i].1@ == framed(message_bytes(old(self).address_egress()[i].1)),
    {
        let mut out: Vec<(PeerAddr, Vec<u8>)> = Vec::new();
        let ghost es = self.address_egress();
        let mut i: usize = 0;
        while i < self.address_exit_buffer.len()
            invariant
                self == old(self),
                es == self.address_egress(),
                i <= es.len(),
                self.inv(),
                out@.len() == i,
                forall|k: int|
                    0 <= k < i ==> (#[trigger] out@[k]).0 == es[k].0 && out@[k].1@ == framed(
                        message_bytes(es[k].1),
                    ),
            decreases es.len() - i,
        {
            let e = &self.address_exit_buffer[i];
            assert(fits(self.address_exit_buffer@[i as int].1@));
            let frame = encode_frame(&e.1);
            out.push((e.0, frame));
            i = i + 1;
        }
        self.address_exit_buffer.clear();
        assert(self.address_egress() =~= Seq::empty());
        out
    }
}

/// The messages that a list of bodies holds, in order; bodies that do not
/// decode are left out.
pub open spec fn decoded_all(bodies: Seq<Seq<u8>>) -> Seq<MessageView>
    decreases bodies.len(),
{
    if bodies.len() == 0 {
        Seq::empty()
    } else {
        let rest = decoded_all(bodies.drop_last());
        match decoded(bodies.last()) {
            Some(m) => rest.push(m),
            None => rest,
        }
    }
}

/// The messages of `ms` on channel `c`, in order.
pub open spec fn on_channel(ms: Seq<MessageView>, c: u32) -> Seq<MessageView>
    decreases ms.len(),
{
    if ms.len() == 0 {
        Seq::empty()
    } else {
        let rest = on_channel(ms.drop_last(), c);
        if ms.last().channel_id == c {
            rest.push(ms.last())
        } else {
            rest
        }
    }
}

/// The messages buffered for component `t` on channel `c`, in order.
pub open spec fn on_target(es: Seq<(u128, MessageView)>, t: u128, c: u32) -> Seq<MessageView>
    decreases es.len(),
{
    if es.len() == 0 {
        Seq::empty()
    } else {
        let rest = on_target(es.drop_last(), t, c);
        if es.last().0 == t && es.last().1.channel_id == c {
            rest.push(es.last().1)
        } else {
            rest
        }
    }
}

/// What routing messages from `source` adds to the component buffer, in order.
pub open spec fn component_part(
    routes: Map<RouteEndpoint, RouteEndpoint>,
    source: Endpoint,
    ms: Seq<MessageView>,
) -> Seq<(u128, MessageView)>
    decreases ms.len(),
{
    if ms.len() == 0 {
        Seq::empty()
    } else {
        let rest = component_part(routes, source, ms.drop_last());
        let m = ms.last();
        let key = RouteEndpoint { endpoint: source, channel_id: m.channel_id };
        if routes.contains_key(key) {
            match routes[key].endpoint {
                Endpoint::Component(t) => rest.push((t, m)),
                _ => rest,
            }
        } else {
            rest
        }
    }
}

proof fn lemma_on_target_append(a: Seq<(u128, MessageView)>, b: Seq<(u128, MessageView)>, t: u128, c: u32)
    ensures
        on_target(a + b, t, c) == on_target(a, t, c) + on_target(b, t, c),
    decreases b.len(),
{
    if b.len() == 0 {
        assert(a + b =~= a);
        assert(on_target(a, t, c) + on_target(b, t, c) =~= on_target(a, t, c));
    } else {
        assert((a + b).drop_last() =~= a + b.drop_last());
        lemma_on_target_append(a, b.drop_last(), t, c);
        if b.last().0 == t && b.last().1.channel_id == c {
            assert(on_target(a, t, c) + on_target(b.drop_last(), t, c).push(b.last().1)
                =~= (on_target(a, t, c) + on_target(b.drop_last(), t, c)).push(b.last().1));
        }
    }
}

/// Routing a batch of bodies buffers, for components, exactly the component
/// part of the decoded messages, after what was buffered before; the routes
/// do not change.
proof fn lemma_routed_bodies_components(p: Plane, source: Endpoint, bodies: Seq<Seq<u8>>)
    ensures
        routed_bodies(p, source, bodies).state.routes == p.state.routes,
        routed_bodies(p, source, bodies).components == p.components + component_part(
            p.state.routes,
            source,
            decoded_all(bodies),
        ),
    decreases bodies.len(),
{
    if bodies.len() == 0 {
        assert(p.components + Seq::<(u128, MessageView)>::empty() =~= p.components);
    } else {
        lemma_routed_bodies_components(p, source, bodies.drop_last());
        let q = routed_bodies(p, source, bodies.drop_last());
        let ms = decoded_all(bodies);
        match decoded(bodies.last()) {
            Some(m) => {
                assert(ms.drop_last() =~= decoded_all(bodies.drop_last()));
                assert(ms.last() == m);
                let key = RouteEndpoint { endpoint: source, channel_id: m.channel_id };
                if p.state.routes.contains_key(key) {
                    match p.state.routes[key].endpoint {
                        Endpoint::Component(t) => {
                            assert(p.components + component_part(
                                p.state.routes,
                                source,
                                ms.drop_last(),
                            ).push((t, m)) =~= (p.components + component_part(
                                p.state.routes,
                                source,
                                ms.drop_last(),
                            )).push((t, m)));
                        },
                        _ => {},
                    }
                }
            },
            None => {},
        }
    }
}

proof fn lemma_component_part_fifo(
    routes: Map<RouteEndpoint, RouteEndpoint>,
    source: Endpoint,
    ms: Seq<MessageView>,
    c: u32,
    t: u128,
)
    requires
        routes.contains_key(RouteEndpoint { endpoint: source, channel_id: c }),
        routes[RouteEndpoint { endpoint: source, channel_id: c }].endpoint == Endpoint::Component(t),
    ensures
        on_target(component_part(routes, source, ms), t, c) == on_channel(ms, c),
    decreases ms.len(),
{
    if ms.len() > 0 {
        lemma_component_part_fifo(routes, source, ms.drop_last(), c, t);
        let m = ms.last();
        let key = RouteEndpoint { endpoint: source, channel_id: m.channel_id };
        let rest = component_part(routes, source, ms.drop_last());
        if routes.contains_key(key) {
            match routes[key].endpoint {
                Endpoint::Component(u) => {
                    assert(rest.push((u, m)).drop_last() =~= rest);
                },
                _ => {},
            }
        }
    }
}

/// Within one period, the messages that one source emits on one channel
/// reach the buffer of the component that channel is routed to in emission
/// order: what is buffered there for that channel is what was buffered
/// before, followed by the source's messages on that channel, in the order
/// the source wrote them.
pub proof fn lemma_fifo_per_channel(
    p: Plane,
    source: Endpoint,
    bodies: Seq<Seq<u8>>,
    c: u32,
    t: u128,
)
    requires
        p.state.routes.contains_key(RouteEndpoint { endpoint: source, channel_id: c }),
        p.state.routes[RouteEndpoint { endpoint: source, channel_id: c }].endpoint
            == Endpoint::Component(t),
    ensures
        on_target(routed_bodies(p, source, bodies).components, t, c) == on_target(
            p.components,
            t,
            c,
        ) + on_channel(decoded_all(bodies), c),
{
    lemma_routed_bodies_components(p, source, bodies);
    let part = component_part(p.state.routes, source, decoded_all(bodies));
    lemma_on_target_append(p.components, part, t, c);
    lemma_component_part_fifo(p.state.routes, source, decoded_all(bodies), c, t);
}

} // verus!

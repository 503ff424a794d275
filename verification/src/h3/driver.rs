//! The connection's datagram driver, as decisions between calls of the transport.
//!
//! A turn first takes packets from the transport and hands them to their sessions, then
//! takes packets of the sessions and hands them to the transport. Each half has a budget
//! of its own, so that neither direction starves the other or the rest of the connection.

use crate::buffer::bytes_of;
use crate::error::outside;
use crate::error::Error;
use crate::error::Kind;
use crate::error::Reason;
use crate::h3::code::Code;
use crate::h3::datagram::model::lemma_skip_idle;
use crate::h3::datagram::model::Received;
use crate::h3::datagram::model::RegistryView;
use crate::h3::datagram::Registry;
use crate::rt::quic::datagram::DatagramError;
use bytes::Bytes;
use vstd::prelude::*;

verus! {

/// Calls of the transport that one half of a turn may make.
pub const TURN: u8 = 32;

/// What the transport's receiver answered.
pub enum RecvEvent {
    /// A whole packet.
    Packet(Bytes),
    /// No more packets will come.
    End,
    /// The connection failed.
    Failed(u64),
    /// Nothing has arrived.
    Pending,
}

/// What the transport's sender answered.
pub enum SendEvent {
    /// It took the packet.
    Accepted,
    /// It refused the packet.
    Refused(DatagramError),
    /// It has no room yet.
    Pending,
}

/// What the driver does next.
#[derive(Clone, Copy, Debug, PartialEq, Eq, Structural)]
pub enum Action {
    /// Ask the transport for a packet.
    Receive,
    /// Offer [`Driver::packet`] to the transport.
    Send,
    /// End the turn.
    Wait,
    /// End: the transport's datagrams are over.
    Finish,
    /// End: close the connection with the code.
    Fail(Code, Error),
}

/// One decision of the driver.
#[derive(Clone, Copy, Debug, PartialEq, Eq, Structural)]
pub struct Step {
    /// Whether another turn must follow without waiting for an event.
    pub wake: bool,
    /// What became of the packet that was received.
    pub delivered: Option<Received>,
    /// What to do next.
    pub action: Action,
}

/// How far a turn has come.
#[derive(Clone, Copy, Debug, PartialEq, Eq, Structural)]
pub enum Phase {
    /// No turn is under way.
    Idle,
    /// So many calls of the receiver have been answered.
    Receiving(u8),
    /// So many packets have been dealt with, and one is being offered.
    Sending(u8),
}

/// What the driver holds: a packet that is being sent, and the turn's progress.
#[verifier::ext_equal]
pub struct DriverView {
    pub pending: Option<(u64, Seq<u8>)>,
    pub phase: Phase,
}

/// The connection after one decision.
#[verifier::ext_equal]
pub struct Turn {
    pub registry: RegistryView,
    pub driver: DriverView,
    pub step: Step,
}

impl RegistryView {
    /// Whether the session `id` can still send.
    pub open spec fn send_open(self, id: u64) -> bool {
        self.sessions.contains_key(id) && self.sessions[id].send_open
    }
}

/// Picks the packet to offer: the pending one, or the next of the registry. A packet whose
/// session can no longer send is discarded, and counts.
pub open spec fn offer(
    registry: RegistryView,
    pending: Option<(u64, Seq<u8>)>,
    index: u8,
    wake: bool,
    delivered: Option<Received>,
) -> Turn
    decreases TURN - index,
{
    if index >= TURN {
        Turn {
            registry,
            driver: DriverView { pending, phase: Phase::Idle },
            step: Step { wake, delivered, action: Action::Wait },
        }
    } else {
        let (r, p) = match pending {
            Some(packet) => (registry, Some(packet)),
            None => registry.next(),
        };
        match p {
            None => Turn {
                registry: r,
                driver: DriverView { pending: None, phase: Phase::Idle },
                step: Step { wake, delivered, action: Action::Wait },
            },
            Some((id, data)) => if r.send_open(id) {
                Turn {
                    registry: r,
                    driver: DriverView { pending: p, phase: Phase::Sending(index) },
                    step: Step { wake, delivered, action: Action::Send },
                }
            } else {
                offer(r, None, (index + 1) as u8, wake || index == TURN - 1, delivered)
            },
        }
    }
}

impl DriverView {
    /// A received packet goes to its session; a malformed one is a connection error.
    pub open spec fn on_packet(self, registry: RegistryView, index: u8, packet: Seq<u8>) -> Turn {
        match registry.receive(packet) {
            None => Turn {
                registry,
                driver: DriverView { phase: Phase::Idle, ..self },
                step: Step {
                    wake: false,
                    delivered: None,
                    action: Action::Fail(
                        Code::DatagramError,
                        Error::found(Kind::Http3, Reason::InvalidDatagram),
                    ),
                },
            },
            Some((r, outcome)) => if index == TURN - 1 {
                offer(r, self.pending, 0, true, Some(outcome))
            } else {
                Turn {
                    registry: r,
                    driver: DriverView { phase: Phase::Receiving((index + 1) as u8), ..self },
                    step: Step { wake: false, delivered: Some(outcome), action: Action::Receive },
                }
            },
        }
    }

    /// The end of the driver.
    pub open spec fn ended(self, registry: RegistryView, action: Action) -> Turn {
        Turn {
            registry,
            driver: DriverView { phase: Phase::Idle, ..self },
            step: Step { wake: false, delivered: None, action },
        }
    }
}

/// Moves packets between the transport and the sessions of a [`Registry`].
pub struct Driver {
    pending: Option<(u64, Bytes)>,
    phase: Phase,
}

impl View for Driver {
    type V = DriverView;

    closed spec fn view(&self) -> DriverView {
        DriverView {
            pending: match self.pending {
                Some((id, data)) => Some((id, bytes_of(data))),
                None => None,
            },
            phase: self.phase,
        }
    }
}

impl Driver {
    /// The budgets hold, and there is a packet while one is being offered.
    pub open spec fn wf(self) -> bool {
        match self@.phase {
            Phase::Idle => true,
            Phase::Receiving(index) => index < TURN,
            Phase::Sending(index) => index < TURN && self@.pending is Some,
        }
    }

    /// A driver that holds no packet.
    pub fn new() -> (d: Driver)
        ensures
            d.wf(),
            d@ == (DriverView { pending: None, phase: Phase::Idle }),
    {
        Driver { pending: None, phase: Phase::Idle }
    }

    /// The packet that is being sent.
    pub fn packet(&self) -> (p: Option<&Bytes>)
        ensures
            match (p, self@.pending) {
                (Some(data), Some((_, bytes))) => bytes_of(*data) == bytes,
                (None, None) => true,
                _ => false,
            },
    {
        match &self.pending {
            Some(pending) => Some(&pending.1),
            None => None,
        }
    }

    /// The session whose packet is being sent.
    pub fn pending(&self) -> (id: Option<u64>)
        ensures
            id == match self@.pending {
                Some((id, _)) => Some(id),
                None => None,
            },
    {
        match &self.pending {
            Some(pending) => Some(pending.0),
            None => None,
        }
    }

    /// Starts a turn: takes note of the transport's current packet limit, and asks for a
    /// packet.
    pub fn start(&mut self, registry: &mut Registry, max_size: Option<usize>) -> (step: Step)
        requires
            old(registry).wf(),
        ensures
            final(self).wf(),
            final(registry).wf(),
            old(registry)@.balanced() ==> final(registry)@.balanced(),
            final(registry)@ == (RegistryView { max_size, ..old(registry)@ }),
            final(self)@ == (DriverView { phase: Phase::Receiving(0), ..old(self)@ }),
            step == (Step { wake: false, delivered: None, action: Action::Receive }),
    {
        registry.set_max_size(max_size);
        self.phase = Phase::Receiving(0);
        Step { wake: false, delivered: None, action: Action::Receive }
    }

    /// Decides after an answer of the transport's receiver.
    pub fn received(&mut self, registry: &mut Registry, event: RecvEvent) -> (step: Step)
        requires
            old(self).wf(),
            old(registry).wf(),
            old(self)@.phase is Receiving,
        ensures
            final(self).wf(),
            final(registry).wf(),
            old(registry)@.balanced() ==> final(registry)@.balanced(),
            (Turn { registry: final(registry)@, driver: final(self)@, step }) == match event {
                RecvEvent::Packet(packet) => old(self)@.on_packet(
                    old(registry)@,
                    old(self)@.phase->Receiving_0,
                    bytes_of(packet),
                ),
                RecvEvent::End => old(self)@.ended(old(registry)@, Action::Finish),
                RecvEvent::Failed(token) => old(self)@.ended(
                    old(registry)@,
                    Action::Fail(Code::InternalError, Error::outside(Kind::Http3, token)),
                ),
                RecvEvent::Pending => offer(old(registry)@, old(self)@.pending, 0, false, None),
            },
    {
        let index: u8 = match self.phase {
            Phase::Receiving(index) => index,
            _ => 0,
        };
        match event {
            RecvEvent::Packet(packet) => match registry.receive(packet) {
                Err(error) => {
                    self.phase = Phase::Idle;
                    Step {
                        wake: false,
                        delivered: None,
                        action: Action::Fail(Code::DatagramError, error),
                    }
                },
                Ok(outcome) => {
                    if index == TURN - 1 {
                        self.offer(registry, 0, true, Some(outcome))
                    } else {
                        self.phase = Phase::Receiving(index + 1);
                        Step { wake: false, delivered: Some(outcome), action: Action::Receive }
                    }
                },
            },
            RecvEvent::End => {
                self.phase = Phase::Idle;
                Step { wake: false, delivered: None, action: Action::Finish }
            },
            RecvEvent::Failed(token) => {
                self.phase = Phase::Idle;
                Step {
                    wake: false,
                    delivered: None,
                    action: Action::Fail(Code::InternalError, outside(Kind::Http3, token)),
                }
            },
            RecvEvent::Pending => self.offer(registry, 0, false, None),
        }
    }

    /// Decides after an answer of the transport's sender. A packet that the transport can
    /// no longer take is dropped: delivery is unreliable, and the session goes on.
    pub fn sent(&mut self, registry: &mut Registry, event: SendEvent) -> (step: Step)
        requires
            old(self).wf(),
            old(registry).wf(),
            old(self)@.phase is Sending,
        ensures
            final(self).wf(),
            final(registry).wf(),
            old(registry)@.balanced() ==> final(registry)@.balanced(),
            (Turn { registry: final(registry)@, driver: final(self)@, step }) == match event {
                SendEvent::Pending => old(self)@.ended(old(registry)@, Action::Wait),
                SendEvent::Refused(DatagramError::Connection(token)) => old(self)@.ended(
                    old(registry)@,
                    Action::Fail(Code::InternalError, Error::outside(Kind::Http3, token)),
                ),
                _ => {
                    let index = old(self)@.phase->Sending_0;
                    offer(old(registry)@, None, (index + 1) as u8, index == TURN - 1, None)
                },
            },
    {
        let index: u8 = match self.phase {
            Phase::Sending(index) => index,
            _ => 0,
        };
        match event {
            SendEvent::Pending => {
                self.phase = Phase::Idle;
                Step { wake: false, delivered: None, action: Action::Wait }
            },
            SendEvent::Refused(DatagramError::Connection(token)) => {
                self.phase = Phase::Idle;
                Step {
                    wake: false,
                    delivered: None,
                    action: Action::Fail(Code::InternalError, outside(Kind::Http3, token)),
                }
            },
            _ => {
                self.pending = None;
                self.offer(registry, index + 1, index == TURN - 1, None)
            },
        }
    }

    /// Picks the packet to offer.
    fn offer(
        &mut self,
        registry: &mut Registry,
        index: u8,
        wake: bool,
        delivered: Option<Received>,
    ) -> (step: Step)
        requires
            old(registry).wf(),
            index <= TURN,
        ensures
            final(self).wf(),
            final(registry).wf(),
            old(registry)@.balanced() ==> final(registry)@.balanced(),
            (Turn { registry: final(registry)@, driver: final(self)@, step }) == offer(
                old(registry)@,
                old(self)@.pending,
                index,
                wake,
                delivered,
            ),
        decreases TURN - index,
    {
        if index == TURN {
            self.phase = Phase::Idle;
            return Step { wake, delivered, action: Action::Wait };
        }
        if self.pending.is_none() {
            self.pending = registry.next();
        }
        let open = match &self.pending {
            None => {
                self.phase = Phase::Idle;
                return Step { wake, delivered, action: Action::Wait };
            },
            Some(pending) => registry.is_send_open(pending.0),
        };
        if open {
            self.phase = Phase::Sending(index);
            return Step { wake, delivered, action: Action::Send };
        }
        self.pending = None;
        self.offer(registry, index + 1, wake || index == TURN - 1, delivered)
    }
}

/// The calls of the transport that a turn may still make.
pub open spec fn calls_left(phase: Phase) -> int {
    match phase {
        Phase::Idle => 0,
        Phase::Receiving(index) => 2 * TURN - index,
        Phase::Sending(index) => TURN - index,
    }
}

proof fn lemma_offer_is_bounded(
    registry: RegistryView,
    pending: Option<(u64, Seq<u8>)>,
    index: u8,
    wake: bool,
    delivered: Option<Received>,
)
    requires
        index <= TURN,
    ensures
        calls_left(offer(registry, pending, index, wake, delivered).driver.phase) <= TURN - index,
        wake ==> offer(registry, pending, index, wake, delivered).step.wake,
    decreases TURN - index,
{
    if index < TURN {
        let (r, p) = match pending {
            Some(packet) => (registry, Some(packet)),
            None => registry.next(),
        };
        if let Some((id, _)) = p {
            if !r.send_open(id) {
                lemma_offer_is_bounded(
                    r,
                    None,
                    (index + 1) as u8,
                    wake || index == TURN - 1,
                    delivered,
                );
            }
        }
    }
}

/// Every answer of the transport uses up a part of the turn's budget, so that a turn ends
/// after at most 32 calls of the receiver and 32 of the sender, however busy they are.
pub proof fn lemma_turn_is_bounded(registry: RegistryView, driver: DriverView, packet: Seq<u8>)
    ensures
        driver.phase matches Phase::Receiving(index) ==> index < TURN ==> {
            &&& calls_left(driver.on_packet(registry, index, packet).driver.phase) < calls_left(
                driver.phase,
            )
            &&& calls_left(offer(registry, driver.pending, 0, false, None).driver.phase)
                < calls_left(driver.phase)
        },
        driver.phase matches Phase::Sending(index) ==> index < TURN ==> calls_left(
            offer(registry, None, (index + 1) as u8, index == TURN - 1, None).driver.phase,
        ) < calls_left(driver.phase),
{
    match driver.phase {
        Phase::Receiving(index) => {
            if index < TURN {
                lemma_offer_is_bounded(registry, driver.pending, 0, false, None);
                if let Some((r, outcome)) = registry.receive(packet) {
                    lemma_offer_is_bounded(r, driver.pending, 0, true, Some(outcome));
                }
            }
        },
        Phase::Sending(index) => {
            if index < TURN {
                lemma_offer_is_bounded(
                    registry,
                    None,
                    (index + 1) as u8,
                    index == TURN - 1,
                    None,
                );
            }
        },
        Phase::Idle => {},
    }
}

/// A turn that ends without asking for another one leaves no packet behind that could be
/// sent, unless the transport itself had no room.
pub proof fn lemma_nothing_is_left_asleep(
    registry: RegistryView,
    pending: Option<(u64, Seq<u8>)>,
    index: u8,
    delivered: Option<Received>,
)
    requires
        index < TURN,
    ensures
        ({
            let turn = offer(registry, pending, index, false, delivered);
            turn.step.action == Action::Wait && !turn.step.wake ==> turn.driver.pending is None
                && turn.registry.next().1 is None
        }),
    decreases TURN - index,
{
    let (r, p) = match pending {
        Some(packet) => (registry, Some(packet)),
        None => registry.next(),
    };
    match p {
        None => {
            lemma_next_of_idle(registry, registry.ready);
        },
        Some((id, _)) => {
            if !r.send_open(id) {
                if index == TURN - 1 {
                    lemma_offer_is_bounded(r, None, (index + 1) as u8, true, delivered);
                } else {
                    lemma_nothing_is_left_asleep(r, None, (index + 1) as u8, delivered);
                }
            }
        },
    }
}

proof fn lemma_next_of_idle(r: RegistryView, line: Seq<u64>)
    ensures
        r.skip_idle(line).len() == 0 ==> r.skip_idle(line) == Seq::<u64>::empty(),
    decreases line.len(),
{
    if line.len() == 0 {
        assert(line =~= Seq::empty());
    } else if !r.has_outgoing(line[0]) {
        lemma_next_of_idle(r, line.drop_first());
    }
}

/// A packet that waited for the transport while its session closed is discarded, and the
/// next packet of another session takes its place.
pub proof fn lemma_packet_of_closed_session_is_discarded(
    registry: RegistryView,
    id: u64,
    packet: Seq<u8>,
)
    requires
        registry.bounded(),
        !registry.send_open(id),
    ensures
        ({
            let turn = offer(registry, Some((id, packet)), 0, false, None);
            match registry.next().1 {
                Some(other) => turn.driver.pending == Some(other) && turn.step.action
                    == Action::Send && other.0 != id,
                None => turn.driver.pending is None && turn.step.action == Action::Wait,
            }
        }),
{
    reveal_with_fuel(offer, 3);
    lemma_skip_idle(registry, registry.ready);
    let line = registry.skip_idle(registry.ready);
    if line.len() > 0 {
        assert(registry.has_outgoing(line[0]));
        assert(registry.sessions[line[0]].bounded());
    }
}

/// Going on after a packet was sent, refused or discarded closes no session and takes
/// nothing that was received.
pub proof fn lemma_sending_closes_nothing(
    registry: RegistryView,
    pending: Option<(u64, Seq<u8>)>,
    index: u8,
    wake: bool,
    id: u64,
)
    requires
        index <= TURN,
        registry.sessions.contains_key(id),
    ensures
        ({
            let before = registry.sessions[id];
            let after = offer(registry, pending, index, wake, None).registry.sessions;
            &&& after.contains_key(id)
            &&& after[id].send_open == before.send_open
            &&& after[id].recv_open == before.recv_open
            &&& after[id].incoming == before.incoming
        }),
    decreases TURN - index,
{
    if index < TURN {
        let (r, p) = match pending {
            Some(packet) => (registry, Some(packet)),
            None => registry.next(),
        };
        if let Some((k, _)) = p {
            if !r.send_open(k) {
                lemma_sending_closes_nothing(
                    r,
                    None,
                    (index + 1) as u8,
                    wake || index == TURN - 1,
                    id,
                );
            }
        }
    }
}

} // verus!

//! The Datagram driver: what it does with the answers of the transport.

use crate::error::Cause;
use crate::error::Error;
use crate::error::Kind;
use crate::error::Reason;
use crate::h3::code::Code;
use crate::h3::datagram::model::Received;
use crate::h3::datagram::model::RegistryView;
use crate::h3::driver::offer;
use crate::h3::driver::Action;
use crate::h3::driver::DriverView;
use crate::h3::driver::Phase;
use vstd::prelude::*;

verus! {

/// A packet that was received goes to its session, and the transport is asked for another one;
/// after the 32nd the driver turns to sending, and asks for another turn. A packet that is
/// not well formed is a connection error with the code of Datagrams.
pub proof fn lemma_received_packets_are_passed_on(
    driver: DriverView,
    registry: RegistryView,
    index: u8,
    packet: Seq<u8>,
)
    requires
        index < 32,
    ensures
        ({
            let turn = driver.on_packet(registry, index, packet);
            match registry.receive(packet) {
                None => {
                    &&& turn.step.action == Action::Fail(
                        Code::DatagramError,
                        Error { kind: Kind::Http3, cause: Cause::Found(Reason::InvalidDatagram) },
                    )
                    &&& turn.registry == registry && !turn.step.wake
                    &&& turn.driver == (DriverView { phase: Phase::Idle, ..driver })
                },
                Some((after, outcome)) => {
                    &&& turn.step.delivered == Some(outcome)
                    &&& index < 31 ==> {
                        &&& turn.step.action == Action::Receive && !turn.step.wake
                        &&& turn.registry == after
                        &&& turn.driver.pending == driver.pending
                        &&& turn.driver.phase == Phase::Receiving((index + 1) as u8)
                    }
                    &&& index == 31 ==> {
                        &&& turn.step.wake
                        &&& turn == offer(after, driver.pending, 0, true, Some(outcome))
                    }
                },
            }
        }),
{
    if index == 31 {
        if let Some((after, outcome)) = registry.receive(packet) {
            lemma_offers_keep_what_was_asked(after, driver.pending, 0, true, Some(outcome));
        }
    }
}

proof fn lemma_offers_keep_what_was_asked(
    registry: RegistryView,
    pending: Option<(u64, Seq<u8>)>,
    index: u8,
    wake: bool,
    delivered: Option<Received>,
)
    requires
        index <= 32,
    ensures
        wake ==> offer(registry, pending, index, wake, delivered).step.wake,
        offer(registry, pending, index, wake, delivered).step.delivered == delivered,
    decreases 32 - index,
{
    if index < 32 {
        let (r, p) = match pending {
            Some(packet) => (registry, Some(packet)),
            None => registry.next(),
        };
        if let Some((id, _)) = p {
            if !r.send_open(id) {
                lemma_offers_keep_what_was_asked(
                    r,
                    None,
                    (index + 1) as u8,
                    wake || index == 31,
                    delivered,
                );
            }
        }
    }
}

/// The packet that is offered is the one that waits, or else the next in line, if its session
/// can still send. One whose session cannot is given up, and the next is tried; that uses up
/// one of the 32 places of a turn, and the last one asks for another turn. Without a packet,
/// or without a place, the driver waits.
pub proof fn lemma_packets_are_offered(
    registry: RegistryView,
    pending: Option<(u64, Seq<u8>)>,
    index: u8,
    wake: bool,
    delivered: Option<Received>,
)
    requires
        index <= 32,
    ensures
        ({
            let turn = offer(registry, pending, index, wake, delivered);
            let (r, p) = if pending is Some {
                (registry, pending)
            } else {
                registry.next()
            };
            let open = p is Some && r.sessions.contains_key((p->0).0) && r.sessions[(
            p->0).0].send_open;
            &&& index == 32 ==> {
                &&& turn.step.action == Action::Wait && turn.step.wake == wake
                &&& turn.registry == registry && turn.driver.pending == pending
                &&& turn.driver.phase == Phase::Idle && turn.step.delivered == delivered
            }
            &&& index < 32 && p is None ==> {
                &&& turn.step.action == Action::Wait && turn.step.wake == wake
                &&& turn.registry == r && turn.driver.pending is None
                &&& turn.driver.phase == Phase::Idle && turn.step.delivered == delivered
            }
            &&& index < 32 && open ==> {
                &&& turn.step.action == Action::Send && turn.step.wake == wake
                &&& turn.registry == r && turn.driver.pending == p
                &&& turn.driver.phase == Phase::Sending(index)
                &&& turn.step.delivered == delivered
            }
            &&& index < 32 && p is Some && !open ==> turn == offer(
                r,
                None,
                (index + 1) as u8,
                wake || index == 31,
                delivered,
            )
        }),
{
}

/// A driver that ends, or whose transport fails, keeps its queues and the packet that waits.
pub proof fn lemma_ended_turns_change_nothing(
    driver: DriverView,
    registry: RegistryView,
    action: Action,
)
    ensures
        driver.ended(registry, action).registry == registry,
        driver.ended(registry, action).driver.pending == driver.pending,
        driver.ended(registry, action).driver.phase == Phase::Idle,
        driver.ended(registry, action).step.action == action,
        !driver.ended(registry, action).step.wake,
        driver.ended(registry, action).step.delivered is None,
{
}

} // verus!

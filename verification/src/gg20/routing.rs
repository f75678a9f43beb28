//! Routing of incoming traffic: which incoming messages are handed on to the
//! protocol, which are ignored and which end the session.

use vstd::prelude::*;
use crate::tofnd::{message_in, MessageIn, TrafficIn};

verus! {

/// Results of routing.
#[derive(Clone, Debug, PartialEq)]
pub enum RoutingStatus {
    /// Hand the traffic on to the protocol.
    Continue { traffic: TrafficIn },
    /// End the session.
    Stop,
    /// Ignore the message.
    Skip,
}

/// How a received message is routed: traffic is handed on, an abort ends the
/// session, and an empty message or a second init message is ignored.
pub open spec fn routing_of(msg: MessageIn) -> RoutingStatus {
    match msg.data {
        None => RoutingStatus::Skip,
        Some(message_in::Data::Traffic(t)) => RoutingStatus::Continue { traffic: t },
        Some(message_in::Data::Abort(_)) => RoutingStatus::Stop,
        Some(message_in::Data::KeygenInit(_)) => RoutingStatus::Skip,
        Some(message_in::Data::SignInit(_)) => RoutingStatus::Skip,
    }
}

/// Routes a message received from the local channel.
pub fn open_message_in(msg: MessageIn) -> (r: RoutingStatus)
    ensures
        r == routing_of(msg),
{
    let msg_data = match msg.data {
        Some(data) => data,
        None => {
            return RoutingStatus::Skip;
        },
    };
    let traffic = match msg_data {
        message_in::Data::Traffic(t) => t,
        message_in::Data::Abort(_) => {
            return RoutingStatus::Stop;
        },
        message_in::Data::KeygenInit(_) | message_in::Data::SignInit(_) => {
            return RoutingStatus::Skip;
        },
    };
    RoutingStatus::Continue { traffic }
}

/// Routes an item read from a stream: the end of the stream or an error on
/// it ends the session; a message is routed as `routing_of` says.
pub fn open_message<E>(msg: Option<Result<MessageIn, E>>) -> (r: RoutingStatus)
    ensures
        r == match msg {
            None => RoutingStatus::Stop,
            Some(Err(_)) => RoutingStatus::Stop,
            Some(Ok(m)) => routing_of(m),
        },
{
    let msg_result = match msg {
        Some(msg_result) => msg_result,
        None => {
            return RoutingStatus::Stop;
        },
    };
    match msg_result {
        Ok(msg_in) => open_message_in(msg_in),
        Err(_) => RoutingStatus::Stop,
    }
}

/// Routing hands on traffic untouched and nothing else: a message is
/// handed on as some traffic exactly when it carries that traffic, and it
/// ends the session exactly when it asks for an abort.
pub proof fn lemma_routing_hands_on_traffic(msg: MessageIn, traffic: TrafficIn)
    ensures
        (routing_of(msg) == RoutingStatus::Continue { traffic }) <==> msg.data == Some(
            message_in::Data::Traffic(traffic),
        ),
        (routing_of(msg) == RoutingStatus::Stop) <==> msg.data matches Some(message_in::Data::Abort(_)),
{
}

} // verus!

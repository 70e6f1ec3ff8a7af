//! End-of-tick dispatch: routing a connection-targeted message through the
//! registry, and the slow-consumer policy when a session's bounded response
//! channel refuses a message.
use vstd::prelude::*;

use crate::connection_manager::{ConnectionManager, manager_wf, spec_drop_connection, spec_register,
    spec_resolve};
use crate::event::{ChannelId, Event, spec_connection_id};

verus! {

/// What the runtime should do with one outbound message.
#[derive(Clone, Copy, Debug, PartialEq, Eq, Structural)]
pub enum RouteOutcome {
    /// Hand the message to this response channel.
    Deliver(ChannelId),
    /// The connection is unknown: drop the message with a warning.
    UnknownConnection,
    /// The message carries no connection id: a programmer error, logged.
    MissingConnectionId,
}

/// Routes an outgoing packet message to the response channel of its
/// connection. A message without a connection id cannot be routed; one
/// whose connection is not in the registry is dropped with a warning.
pub fn send_packet_message(m: &ConnectionManager, message: &Event) -> (r: RouteOutcome)
    ensures
        match spec_connection_id(*message) {
            None => r == RouteOutcome::MissingConnectionId,
            Some(c) => match spec_resolve(m@, c) {
                Some(ch) => r == RouteOutcome::Deliver(ch),
                None => r == RouteOutcome::UnknownConnection,
            },
        },
{
    let c = match message.connection_id() {
        Some(c) => c,
        None => {
            return RouteOutcome::MissingConnectionId;
        },
    };
    match m.resolve_channel(c) {
        Some(ch) => RouteOutcome::Deliver(ch),
        None => RouteOutcome::UnknownConnection,
    }
}

/// The registry window of a connection: from registration on, the fresh id
/// resolves to the session's channel, and it stops resolving exactly at the
/// drop notice.
pub proof fn lemma_registry_lifecycle(
    m: crate::connection_manager::ManagerView,
    ch: ChannelId,
)
    requires
        manager_wf(m),
        m.connections.len() < 0x10000000000000000,
    ensures
        ({
            let m2 = spec_register(m, ch).0;
            let id = m.connections.len() as u64;
            &&& spec_register(m, ch).1 == (Event::ResponseRegisterConnection {
                connection_id: id,
            })
            &&& spec_resolve(m2, id) == Some(ch)
            &&& spec_resolve(spec_drop_connection(m2, id), id) is None
        }),
{
}

} // verus!

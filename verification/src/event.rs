//! Events handled and emitted by the worlds.
//!
//! Events are the only messages between sessions and worlds (and world to
//! world). Packet events wrap a decoded packet; system events carry only
//! connection state. Messages from sessions to worlds are requests;
//! messages from worlds to sessions are responses. Every event has a
//! target: the global world, a local world, or a connection.
use vstd::prelude::*;

use crate::de::MAX_FRAME_LEN;
use crate::error::Error;
use crate::opcode::Opcode;
use crate::packet::{CCheckVersion, CLoginArbiter, CPong, SCheckVersion, SLoadingScreenControlInfo,
    SLoginArbiter, SPing, spec_decode_c_check_version, spec_decode_c_login_arbiter,
    spec_decode_s_check_version, spec_decode_s_loading_screen, spec_decode_s_login_arbiter,
    spec_encode_c_check_version, spec_encode_c_login_arbiter, spec_encode_s_check_version,
    spec_encode_s_loading_screen, spec_encode_s_login_arbiter, spec_first_zero_unit, clb_wf};

verus! {

/// The id of a connection's entity in the global world.
pub type EntityId = u64;

/// A handle standing for a session's bounded response channel; the runtime
/// around the core maps it to the real channel.
pub type ChannelId = u64;

/// The target of the event.
#[derive(Clone, Copy, Debug, PartialEq, Eq, Structural)]
pub enum EventTarget {
    Global,
    Local,
    Connection,
}

/// All events of the core. The registration request is the only event
/// without a connection id: it is what asks for one.
#[derive(Clone, Debug, PartialEq)]
pub enum Event {
    RequestRegisterConnection { response_channel: ChannelId },
    RequestLoginArbiter { connection_id: EntityId, packet: CLoginArbiter },
    ResponseLoginArbiter { connection_id: EntityId, packet: SLoginArbiter },
    RequestCheckVersion { connection_id: EntityId, packet: CCheckVersion },
    ResponseCheckVersion { connection_id: EntityId, packet: SCheckVersion },
    ResponseLoadingScreenControlInfo { connection_id: EntityId, packet: SLoadingScreenControlInfo },
    RequestPong { connection_id: EntityId, packet: CPong },
    ResponsePing { connection_id: EntityId, packet: SPing },
    ResponseRegisterConnection { connection_id: EntityId },
    ResponseDropConnection { connection_id: EntityId },
}

/// The connection id an event carries; absent only for the registration
/// request.
pub open spec fn spec_connection_id(e: Event) -> Option<EntityId> {
    match e {
        Event::RequestRegisterConnection { .. } => None,
        Event::RequestLoginArbiter { connection_id, .. } => Some(connection_id),
        Event::ResponseLoginArbiter { connection_id, .. } => Some(connection_id),
        Event::RequestCheckVersion { connection_id, .. } => Some(connection_id),
        Event::ResponseCheckVersion { connection_id, .. } => Some(connection_id),
        Event::ResponseLoadingScreenControlInfo { connection_id, .. } => Some(connection_id),
        Event::RequestPong { connection_id, .. } => Some(connection_id),
        Event::ResponsePing { connection_id, .. } => Some(connection_id),
        Event::ResponseRegisterConnection { connection_id } => Some(connection_id),
        Event::ResponseDropConnection { connection_id } => Some(connection_id),
    }
}

/// The opcode of a packet event; system events have none.
pub open spec fn spec_opcode(e: Event) -> Option<Opcode> {
    match e {
        Event::RequestRegisterConnection { .. } => None,
        Event::RequestLoginArbiter { .. } => Some(Opcode::C_LOGIN_ARBITER),
        Event::ResponseLoginArbiter { .. } => Some(Opcode::S_LOGIN_ARBITER),
        Event::RequestCheckVersion { .. } => Some(Opcode::C_CHECK_VERSION),
        Event::ResponseCheckVersion { .. } => Some(Opcode::S_CHECK_VERSION),
        Event::ResponseLoadingScreenControlInfo { .. } => Some(
            Opcode::S_LOADING_SCREEN_CONTROL_INFO,
        ),
        Event::RequestPong { .. } => Some(Opcode::C_PONG),
        Event::ResponsePing { .. } => Some(Opcode::S_PING),
        Event::ResponseRegisterConnection { .. } => None,
        Event::ResponseDropConnection { .. } => None,
    }
}

/// The statically fixed target of each event variant.
pub open spec fn spec_target(e: Event) -> EventTarget {
    match e {
        Event::RequestRegisterConnection { .. } => EventTarget::Global,
        Event::RequestLoginArbiter { .. } => EventTarget::Global,
        Event::ResponseLoginArbiter { .. } => EventTarget::Connection,
        Event::RequestCheckVersion { .. } => EventTarget::Global,
        Event::ResponseCheckVersion { .. } => EventTarget::Connection,
        Event::ResponseLoadingScreenControlInfo { .. } => EventTarget::Connection,
        Event::RequestPong { .. } => EventTarget::Global,
        Event::ResponsePing { .. } => EventTarget::Connection,
        Event::ResponseRegisterConnection { .. } => EventTarget::Connection,
        Event::ResponseDropConnection { .. } => EventTarget::Connection,
    }
}

impl Event {
    /// Creates the request or response event the opcode names, decoding the
    /// body against that packet's schema.
    pub fn new_from_packet(connection_id: EntityId, opcode: Opcode, packet_data: Vec<u8>) -> (r:
        Result<Event, Error>)
        requires
            packet_data@.len() <= MAX_FRAME_LEN,
        ensures
            match r {
                Ok(e) => spec_connection_id(e) == Some(connection_id) && spec_opcode(e) == Some(
                    opcode,
                ) && match e {
                    Event::RequestCheckVersion { connection_id: c, packet } => c == connection_id
                        && spec_decode_c_check_version(packet_data@) == Ok::<_, Error>(packet@),
                    Event::RequestLoginArbiter { connection_id: c, packet } => c == connection_id
                        && spec_decode_c_login_arbiter(packet_data@) == Ok::<_, Error>(packet@),
                    Event::ResponseCheckVersion { connection_id: c, packet } => c == connection_id
                        && spec_decode_s_check_version(packet_data@) == Ok::<_, Error>(packet),
                    Event::ResponseLoginArbiter { connection_id: c, packet } => c == connection_id
                        && spec_decode_s_login_arbiter(packet_data@) == Ok::<_, Error>(packet),
                    Event::ResponseLoadingScreenControlInfo { connection_id: c, packet } => c
                        == connection_id && spec_decode_s_loading_screen(packet_data@) == Ok::<
                        _,
                        Error,
                    >(packet),
                    Event::RequestPong { connection_id: c, packet } => c == connection_id,
                    Event::ResponsePing { connection_id: c, packet } => c == connection_id,
                    _ => false,
                },
                Err(e) => match opcode {
                    Opcode::C_CHECK_VERSION => spec_decode_c_check_version(packet_data@) == Err::<
                        Seq<crate::packet::CCheckVersionEntry>,
                        _,
                    >(e),
                    Opcode::C_LOGIN_ARBITER => spec_decode_c_login_arbiter(packet_data@) == Err::<
                        crate::packet::CLoginArbiterView,
                        _,
                    >(e),
                    Opcode::S_CHECK_VERSION => spec_decode_s_check_version(packet_data@) == Err::<
                        SCheckVersion,
                        _,
                    >(e),
                    Opcode::S_LOGIN_ARBITER => spec_decode_s_login_arbiter(packet_data@) == Err::<
                        SLoginArbiter,
                        _,
                    >(e),
                    Opcode::S_LOADING_SCREEN_CONTROL_INFO => spec_decode_s_loading_screen(
                        packet_data@,
                    ) == Err::<SLoadingScreenControlInfo, _>(e),
                    Opcode::C_PONG => false,
                    Opcode::S_PING => false,
                    _ => e == Error::NoEventMappingForPacket,
                },
            },
    {
        match opcode {
            Opcode::C_CHECK_VERSION => match CCheckVersion::decode(packet_data) {
                Ok(packet) => Ok(Event::RequestCheckVersion { connection_id, packet }),
                Err(e) => Err(e),
            },
            Opcode::C_LOGIN_ARBITER => match CLoginArbiter::decode(packet_data) {
                Ok(packet) => Ok(Event::RequestLoginArbiter { connection_id, packet }),
                Err(e) => Err(e),
            },
            Opcode::S_CHECK_VERSION => match SCheckVersion::decode(packet_data) {
                Ok(packet) => Ok(Event::ResponseCheckVersion { connection_id, packet }),
                Err(e) => Err(e),
            },
            Opcode::S_LOGIN_ARBITER => match SLoginArbiter::decode(packet_data) {
                Ok(packet) => Ok(Event::ResponseLoginArbiter { connection_id, packet }),
                Err(e) => Err(e),
            },
            Opcode::S_LOADING_SCREEN_CONTROL_INFO => match SLoadingScreenControlInfo::decode(
                packet_data,
            ) {
                Ok(packet) => Ok(
                    Event::ResponseLoadingScreenControlInfo { connection_id, packet },
                ),
                Err(e) => Err(e),
            },
            Opcode::C_PONG => match CPong::decode(packet_data) {
                Ok(packet) => Ok(Event::RequestPong { connection_id, packet }),
                Err(e) => Err(e),
            },
            Opcode::S_PING => match SPing::decode(packet_data) {
                Ok(packet) => Ok(Event::ResponsePing { connection_id, packet }),
                Err(e) => Err(e),
            },
            _ => Err(Error::NoEventMappingForPacket),
        }
    }

    /// The connection id of the event; `None` only for the registration
    /// request.
    pub fn connection_id(&self) -> (r: Option<EntityId>)
        ensures
            r == spec_connection_id(*self),
    {
        match self {
            Event::RequestRegisterConnection { .. } => None,
            Event::RequestLoginArbiter { connection_id, .. } => Some(*connection_id),
            Event::ResponseLoginArbiter { connection_id, .. } => Some(*connection_id),
            Event::RequestCheckVersion { connection_id, .. } => Some(*connection_id),
            Event::ResponseCheckVersion { connection_id, .. } => Some(*connection_id),
            Event::ResponseLoadingScreenControlInfo { connection_id, .. } => Some(*connection_id),
            Event::RequestPong { connection_id, .. } => Some(*connection_id),
            Event::ResponsePing { connection_id, .. } => Some(*connection_id),
            Event::ResponseRegisterConnection { connection_id } => Some(*connection_id),
            Event::ResponseDropConnection { connection_id } => Some(*connection_id),
        }
    }

    /// The body bytes of a packet event; `None` for system events.
    pub fn data(&self) -> (r: Result<Option<Vec<u8>>, Error>)
        ensures
            match *self {
                Event::RequestCheckVersion { packet, .. } => match r {
                    Ok(Some(v)) => packet.wf() && v@ == spec_encode_c_check_version(packet@),
                    Ok(None) => false,
                    Err(e) => !packet.wf() && e == Error::PacketTooLarge(packet.version@.len() as usize),
                },
                Event::RequestLoginArbiter { packet, .. } => match r {
                    Ok(Some(v)) => clb_wf(packet@) && v@ == spec_encode_c_login_arbiter(packet@),
                    Ok(None) => false,
                    Err(e) => !clb_wf(packet@) && (match spec_first_zero_unit(packet@.master_account_name, 0) {
                        Some(w) => e == Error::InvalidString(w as usize),
                        None => e is PacketTooLarge,
                    }),
                },
                Event::ResponseCheckVersion { packet, .. } => r matches Ok(Some(v)) && v@ == spec_encode_s_check_version(packet),
                Event::ResponseLoginArbiter { packet, .. } => r matches Ok(Some(v)) && v@ == spec_encode_s_login_arbiter(packet),
                Event::ResponseLoadingScreenControlInfo { packet, .. } => r matches Ok(Some(v)) && v@ == spec_encode_s_loading_screen(packet),
                Event::RequestPong { .. } => r matches Ok(Some(v)) && v@ == Seq::<u8>::empty(),
                Event::ResponsePing { .. } => r matches Ok(Some(v)) && v@ == Seq::<u8>::empty(),
                Event::RequestRegisterConnection { .. } => r == Ok::<Option<Vec<u8>>, Error>(None),
                Event::ResponseRegisterConnection { .. } => r == Ok::<Option<Vec<u8>>, Error>(None),
                Event::ResponseDropConnection { .. } => r == Ok::<Option<Vec<u8>>, Error>(None),
            },
    {
        match self {
            Event::RequestCheckVersion { packet, .. } => match packet.encode() {
                Ok(v) => Ok(Some(v)),
                Err(e) => Err(e),
            },
            Event::RequestLoginArbiter { packet, .. } => match packet.encode() {
                Ok(v) => Ok(Some(v)),
                Err(e) => Err(e),
            },
            Event::ResponseCheckVersion { packet, .. } => Ok(Some(packet.encode())),
            Event::ResponseLoginArbiter { packet, .. } => Ok(Some(packet.encode())),
            Event::ResponseLoadingScreenControlInfo { packet, .. } => Ok(Some(packet.encode())),
            Event::RequestPong { packet, .. } => Ok(Some(packet.encode())),
            Event::ResponsePing { packet, .. } => Ok(Some(packet.encode())),
            Event::RequestRegisterConnection { .. } => Ok(None),
            Event::ResponseRegisterConnection { .. } => Ok(None),
            Event::ResponseDropConnection { .. } => Ok(None),
        }
    }

    /// The opcode of a packet event; `None` for system events.
    pub fn opcode(&self) -> (r: Option<Opcode>)
        ensures
            r == spec_opcode(*self),
    {
        match self {
            Event::RequestRegisterConnection { .. } => None,
            Event::RequestLoginArbiter { .. } => Some(Opcode::C_LOGIN_ARBITER),
            Event::ResponseLoginArbiter { .. } => Some(Opcode::S_LOGIN_ARBITER),
            Event::RequestCheckVersion { .. } => Some(Opcode::C_CHECK_VERSION),
            Event::ResponseCheckVersion { .. } => Some(Opcode::S_CHECK_VERSION),
            Event::ResponseLoadingScreenControlInfo { .. } => Some(
                Opcode::S_LOADING_SCREEN_CONTROL_INFO,
            ),
            Event::RequestPong { .. } => Some(Opcode::C_PONG),
            Event::ResponsePing { .. } => Some(Opcode::S_PING),
            Event::ResponseRegisterConnection { .. } => None,
            Event::ResponseDropConnection { .. } => None,
        }
    }

    /// The target of the event: global world, local world, or connection.
    pub fn target(&self) -> (r: EventTarget)
        ensures
            r == spec_target(*self),
    {
        match self {
            Event::RequestRegisterConnection { .. } => EventTarget::Global,
            Event::RequestLoginArbiter { .. } => EventTarget::Global,
            Event::ResponseLoginArbiter { .. } => EventTarget::Connection,
            Event::RequestCheckVersion { .. } => EventTarget::Global,
            Event::ResponseCheckVersion { .. } => EventTarget::Connection,
            Event::ResponseLoadingScreenControlInfo { .. } => EventTarget::Connection,
            Event::RequestPong { .. } => EventTarget::Global,
            Event::ResponsePing { .. } => EventTarget::Connection,
            Event::ResponseRegisterConnection { .. } => EventTarget::Connection,
            Event::ResponseDropConnection { .. } => EventTarget::Connection,
        }
    }
}

} // verus!

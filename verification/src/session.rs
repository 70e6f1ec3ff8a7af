//! Session framing: the four-byte wire frame around every packet body, and
//! the inbound step that turns one decrypted frame into exactly one typed
//! event for exactly one world queue.
use vstd::prelude::*;

use crate::bytes::{le16, le16_bytes, lemma_le16_recompose};
use crate::de::MAX_FRAME_LEN;
use crate::error::Error;
use crate::event::{EntityId, Event, EventTarget, spec_connection_id, spec_opcode, spec_target};
use crate::opcode::{Opcode, OpcodeTable};
use crate::packet::{spec_decode_c_check_version, spec_decode_c_login_arbiter,
    spec_decode_s_check_version, spec_decode_s_loading_screen, spec_decode_s_login_arbiter};
use crate::ser::push_u16;

verus! {

/// The length of every key blob of the pre-cipher handshake.
pub const KEY_BLOB_LEN: usize = 128;

/// The lifecycle of a session task.
#[derive(Clone, Copy, Debug, PartialEq, Eq, Structural)]
pub enum SessionPhase {
    /// Exchanging the magic and the key blobs in the clear.
    Handshake,
    /// Waiting for the global world to acknowledge registration.
    Registering,
    /// Reading frames into events and writing response events.
    Running,
    /// Flushing and deregistering after a drop notice.
    Draining,
    /// Terminal.
    Closed,
}

/// What moves a session from one phase to the next.
#[derive(Clone, Copy, Debug, PartialEq, Eq, Structural)]
pub enum SessionStep {
    /// Both cipher states are derived; the session can register.
    HandshakeComplete,
    /// The registration acknowledgement arrived with the entity id.
    Registered,
    /// A drop notice arrived on the response channel.
    DropReceived,
    /// The socket is flushed and the session deregistered.
    Flushed,
    /// An IO error or a timeout on the current step.
    Failed,
}

/// The phase a session moves to on a step. Failure anywhere is terminal;
/// every other step only advances the phase it belongs to.
pub open spec fn spec_advance_phase(phase: SessionPhase, step: SessionStep) -> SessionPhase {
    match step {
        SessionStep::Failed => SessionPhase::Closed,
        SessionStep::HandshakeComplete => if phase == SessionPhase::Handshake {
            SessionPhase::Registering
        } else {
            phase
        },
        SessionStep::Registered => if phase == SessionPhase::Registering {
            SessionPhase::Running
        } else {
            phase
        },
        SessionStep::DropReceived => if phase == SessionPhase::Running {
            SessionPhase::Draining
        } else {
            phase
        },
        SessionStep::Flushed => if phase == SessionPhase::Draining {
            SessionPhase::Closed
        } else {
            phase
        },
    }
}

pub fn advance_phase(phase: SessionPhase, step: SessionStep) -> (p: SessionPhase)
    ensures
        p == spec_advance_phase(phase, step),
{
    match step {
        SessionStep::Failed => SessionPhase::Closed,
        SessionStep::HandshakeComplete => if phase == SessionPhase::Handshake {
            SessionPhase::Registering
        } else {
            phase
        },
        SessionStep::Registered => if phase == SessionPhase::Registering {
            SessionPhase::Running
        } else {
            phase
        },
        SessionStep::DropReceived => if phase == SessionPhase::Running {
            SessionPhase::Draining
        } else {
            phase
        },
        SessionStep::Flushed => if phase == SessionPhase::Draining {
            SessionPhase::Closed
        } else {
            phase
        },
    }
}

/// A closed session stays closed: no step leaves the terminal phase.
pub proof fn lemma_closed_is_terminal(step: SessionStep)
    ensures
        spec_advance_phase(SessionPhase::Closed, step) == SessionPhase::Closed,
{
}

/// The four bytes the server opens every connection with, before any
/// cipher.
pub fn handshake_magic() -> (r: Vec<u8>)
    ensures
        r@ == seq![1u8, 0u8, 0u8, 0u8],
{
    let mut out: Vec<u8> = Vec::new();
    out.push(1);
    out.push(0);
    out.push(0);
    out.push(0);
    proof {
        assert(out@ =~= seq![1u8, 0u8, 0u8, 0u8]);
    }
    out
}

/// The key-blob exchange of the handshake, in protocol order: the client
/// sends C1 and C2, and after each the server answers with its own blob.
/// The derivation of the cipher states from the four blobs belongs to the
/// crypto library, an external collaborator of this core.
#[derive(Clone, Copy, Debug, PartialEq, Eq, Structural)]
pub enum HandshakeState {
    ExpectC1,
    ExpectC2,
    Complete,
}

impl HandshakeState {
    pub fn start() -> (s: HandshakeState)
        ensures
            s == HandshakeState::ExpectC1,
    {
        HandshakeState::ExpectC1
    }

    /// Takes one client key blob. A blob of the wrong length fails the
    /// handshake and leaves the state untouched; otherwise the state
    /// advances, and the result says whether the exchange is complete once
    /// the server has answered with its own blob.
    pub fn on_client_blob(&mut self, blob: &Vec<u8>) -> (r: Result<bool, Error>)
        requires
            *old(self) != HandshakeState::Complete,
        ensures
            match r {
                Ok(complete) => blob@.len() == KEY_BLOB_LEN && (if *old(self)
                    == HandshakeState::ExpectC1 {
                    *final(self) == HandshakeState::ExpectC2 && complete == false
                } else {
                    *final(self) == HandshakeState::Complete && complete == true
                }),
                Err(e) => blob@.len() != KEY_BLOB_LEN && e == Error::HandshakeFailed(
                    blob@.len() as usize,
                ) && *final(self) == *old(self),
            },
    {
        if blob.len() != KEY_BLOB_LEN {
            return Err(Error::HandshakeFailed(blob.len()));
        }
        match *self {
            HandshakeState::ExpectC1 => {
                *self = HandshakeState::ExpectC2;
                Ok(false)
            },
            _ => {
                *self = HandshakeState::Complete;
                Ok(true)
            },
        }
    }
}

/// Parses the four header bytes of a frame: a 16-bit total length covering
/// header and body, then the 16-bit opcode. A length below the header size
/// or above the protocol's cap is fatal for the connection.
pub fn parse_frame_header(header: &Vec<u8>) -> (r: Result<(u16, u16), Error>)
    requires
        header@.len() == 4,
    ensures
        ({
            let total = le16(header@, 0);
            match r {
                Ok((t, opcode)) => 4 <= total <= MAX_FRAME_LEN && t == total && opcode == le16(
                    header@,
                    2,
                ),
                Err(e) => (total < 4 || total > MAX_FRAME_LEN) && e == Error::MalformedFrameLength(
                    total as usize,
                ),
            }
        }),
{
    let b0 = header[0];
    let b1 = header[1];
    let total = (b0 as u16) | ((b1 as u16) << 8);
    if total < 4 || total as usize > MAX_FRAME_LEN {
        return Err(Error::MalformedFrameLength(total as usize));
    }
    let b2 = header[2];
    let b3 = header[3];
    Ok((total, (b2 as u16) | ((b3 as u16) << 8)))
}

/// Frames an encoded body for the wire: total length, opcode, body. A body
/// that would push the total over the protocol's cap is refused; such a
/// response is a programmer error and is dropped by the runtime.
pub fn build_frame(opcode: u16, body: &Vec<u8>) -> (r: Result<Vec<u8>, Error>)
    ensures
        match r {
            Ok(v) => body@.len() + 4 <= MAX_FRAME_LEN && v@ == le16_bytes(
                (body@.len() + 4) as u16,
            ) + le16_bytes(opcode) + body@ && le16(v@, 0) == (body@.len() + 4) as u16 && le16(
                v@,
                2,
            ) == opcode && v@.subrange(4, v@.len() as int) == body@,
            Err(e) => body@.len() + 4 > MAX_FRAME_LEN && e == Error::MalformedFrameLength(
                body@.len() as usize,
            ),
        },
{
    if body.len() > MAX_FRAME_LEN - 4 {
        return Err(Error::MalformedFrameLength(body.len()));
    }
    let total = (body.len() + 4) as u16;
    let mut out: Vec<u8> = Vec::new();
    push_u16(&mut out, total);
    push_u16(&mut out, opcode);
    let mut i: usize = 0;
    while i < body.len()
        invariant
            i <= body@.len(),
            out@ == le16_bytes((body@.len() + 4) as u16) + le16_bytes(opcode) + body@.subrange(
                0,
                i as int,
            ),
        decreases body@.len() - i,
    {
        out.push(body[i]);
        proof {
            assert(out@ =~= le16_bytes((body@.len() + 4) as u16) + le16_bytes(opcode)
                + body@.subrange(0, i + 1));
        }
        i = i + 1;
    }
    proof {
        assert(body@.subrange(0, body@.len() as int) =~= body@);
        assert(out@[0] == le16_bytes(total)[0] && out@[1] == le16_bytes(total)[1]);
        lemma_le16_recompose(out@, 0, total);
        assert(out@[2] == le16_bytes(opcode)[0] && out@[3] == le16_bytes(opcode)[1]);
        lemma_le16_recompose(out@, 2, opcode);
        assert(out@.subrange(4, out@.len() as int) =~= body@);
    }
    Ok(out)
}

/// One inbound frame becomes exactly one event, bound for exactly one world
/// queue: the opcode is resolved through the table, the body decoded into
/// the matching request or response event, and the event's statically fixed
/// target names the single queue it is enqueued into.
pub fn handle_inbound_frame(
    connection_id: EntityId,
    table: &OpcodeTable,
    opcode_code: u16,
    body: Vec<u8>,
) -> (r: Result<(Event, EventTarget), Error>)
    requires
        body@.len() <= MAX_FRAME_LEN,
    ensures
        match r {
            Ok((e, t)) => t == spec_target(e) && spec_connection_id(e) == Some(connection_id) && (
            opcode_code as int) < table.spec_entries().len() && spec_opcode(e) == Some(
                table.spec_entries()[opcode_code as int],
            ),
            Err(e) => if (opcode_code as int) >= table.spec_entries().len() {
                e == Error::UnknownOpcode(opcode_code)
            } else {
                match table.spec_entries()[opcode_code as int] {
                    Opcode::C_CHECK_VERSION => spec_decode_c_check_version(body@) == Err::<
                        Seq<crate::packet::CCheckVersionEntry>,
                        _,
                    >(e),
                    Opcode::C_LOGIN_ARBITER => spec_decode_c_login_arbiter(body@) == Err::<
                        crate::packet::CLoginArbiterView,
                        _,
                    >(e),
                    Opcode::S_CHECK_VERSION => spec_decode_s_check_version(body@) == Err::<
                        crate::packet::SCheckVersion,
                        _,
                    >(e),
                    Opcode::S_LOGIN_ARBITER => spec_decode_s_login_arbiter(body@) == Err::<
                        crate::packet::SLoginArbiter,
                        _,
                    >(e),
                    Opcode::S_LOADING_SCREEN_CONTROL_INFO => spec_decode_s_loading_screen(body@)
                        == Err::<crate::packet::SLoadingScreenControlInfo, _>(e),
                    Opcode::C_PONG => false,
                    Opcode::S_PING => false,
                    _ => e == Error::NoEventMappingForPacket,
                }
            },
        },
{
    let name = match table.code_to_name(opcode_code) {
        Ok(name) => name,
        Err(e) => {
            return Err(e);
        },
    };
    let event = match Event::new_from_packet(connection_id, name, body) {
        Ok(ev) => ev,
        Err(e) => {
            return Err(e);
        },
    };
    let target = event.target();
    Ok((event, target))
}

} // verus!

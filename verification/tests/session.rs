use almetica::error::Error;
use almetica::event::{Event, EventTarget};
use almetica::opcode::{Opcode, OpcodeTable};
use almetica::session::{
    advance_phase, build_frame, handle_inbound_frame, handshake_magic, parse_frame_header,
    HandshakeState, SessionPhase, SessionStep,
};

#[test]
fn test_handshake_magic() {
    assert_eq!(handshake_magic(), vec![0x01, 0x00, 0x00, 0x00]);
}

#[test]
fn test_handshake_blob_order() -> Result<(), Error> {
    let mut state = HandshakeState::start();
    let c1 = vec![0u8; 128];
    let c2 = vec![0u8; 128];
    assert_eq!(state.on_client_blob(&c1)?, false);
    assert_eq!(state.on_client_blob(&c2)?, true);
    Ok(())
}

#[test]
fn test_handshake_wrong_blob_length() {
    let mut state = HandshakeState::start();
    let short = vec![0u8; 5];
    assert_eq!(
        state.on_client_blob(&short),
        Err(Error::HandshakeFailed(5))
    );
}

#[test]
fn test_session_phases() {
    let mut phase = SessionPhase::Handshake;
    phase = advance_phase(phase, SessionStep::HandshakeComplete);
    assert_eq!(phase, SessionPhase::Registering);
    phase = advance_phase(phase, SessionStep::Registered);
    assert_eq!(phase, SessionPhase::Running);
    phase = advance_phase(phase, SessionStep::DropReceived);
    assert_eq!(phase, SessionPhase::Draining);
    phase = advance_phase(phase, SessionStep::Flushed);
    assert_eq!(phase, SessionPhase::Closed);

    // Failure is terminal from anywhere, and a closed session stays closed.
    assert_eq!(
        advance_phase(SessionPhase::Running, SessionStep::Failed),
        SessionPhase::Closed
    );
    assert_eq!(
        advance_phase(SessionPhase::Closed, SessionStep::Registered),
        SessionPhase::Closed
    );
}

#[test]
fn test_frame_roundtrip() -> Result<(), Error> {
    let body = vec![0xaa, 0xbb, 0xcc];
    let frame = build_frame(0x1234, &body)?;
    assert_eq!(frame.len(), 7);
    let (total, opcode) = parse_frame_header(&frame[0..4].to_vec())?;
    assert_eq!(total, 7);
    assert_eq!(opcode, 0x1234);
    assert_eq!(&frame[4..], &body[..]);
    Ok(())
}

#[test]
fn test_malformed_frame_length() {
    assert_eq!(
        parse_frame_header(&vec![0x03, 0x00, 0x01, 0x00]),
        Err(Error::MalformedFrameLength(3))
    );
    assert_eq!(
        parse_frame_header(&vec![0x01, 0x90, 0x01, 0x00]),
        Err(Error::MalformedFrameLength(0x9001))
    );
}

#[test]
fn test_oversized_body_is_refused() {
    let body = vec![0u8; 0x8000];
    assert_eq!(
        build_frame(1, &body),
        Err(Error::MalformedFrameLength(0x8000))
    );
}

#[test]
fn test_inbound_frame_yields_one_event_for_one_queue() -> Result<(), Error> {
    let table = OpcodeTable::new(vec![Opcode::S_PING, Opcode::C_CHECK_VERSION]);
    let body = vec![
        0x2, 0x0, 0x8, 0x0, 0x8, 0x0, 0x14, 0x0, 0x0, 0x0, 0x0, 0x0, 0x1d, 0x8a, 0x5, 0x0, 0x14,
        0x0, 0x0, 0x0, 0x1, 0x0, 0x0, 0x0, 0xce, 0x7b, 0x5, 0x0,
    ];
    let (event, target) = handle_inbound_frame(7, &table, 1, body)?;
    assert_eq!(target, EventTarget::Global);
    assert_eq!(event.connection_id(), Some(7));
    assert_eq!(event.opcode(), Some(Opcode::C_CHECK_VERSION));
    match event {
        Event::RequestCheckVersion { .. } => {}
        other => panic!("wrong event: {:?}", other),
    }
    Ok(())
}

#[test]
fn test_inbound_frame_unknown_opcode() {
    let table = OpcodeTable::new(vec![Opcode::S_PING]);
    assert_eq!(
        handle_inbound_frame(7, &table, 5, vec![]),
        Err(Error::UnknownOpcode(5))
    );
}

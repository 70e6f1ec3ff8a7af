use almetica::error::Error;
use almetica::event::{Event, EventTarget};
use almetica::opcode::Opcode;
use almetica::packet::{CLoginArbiter, Region, SCheckVersion};

#[test]
fn test_opcode_mapping() -> Result<(), Error> {
    let entity: u64 = 1;

    let data = vec![
        0x2, 0x0, 0x8, 0x0, 0x8, 0x0, 0x14, 0x0, 0x0, 0x0, 0x0, 0x0, 0x1d, 0x8a, 0x5, 0x0, 0x14,
        0x0, 0x0, 0x0, 0x1, 0x0, 0x0, 0x0, 0xce, 0x7b, 0x5, 0x0,
    ];
    let event = Event::new_from_packet(entity, Opcode::C_CHECK_VERSION, data)?;
    if let Event::RequestCheckVersion {
        connection_id: entity_id,
        packet,
    } = event
    {
        assert_eq!(entity, entity_id);
        assert_eq!(packet.version[0].index, 0);
        assert_eq!(packet.version[0].value, 363_037);
        assert_eq!(packet.version[1].index, 1);
        assert_eq!(packet.version[1].value, 359_374);
    } else {
        panic!("New didn't returned the right event.");
    }
    Ok(())
}

#[test]
fn test_target_global() -> Result<(), Error> {
    let entity: u64 = 1;
    let org = Event::RequestLoginArbiter {
        connection_id: entity,
        packet: CLoginArbiter {
            master_account_name: vec![0x74, 0x65, 0x73, 0x74],
            ticket: vec![],
            unk1: 0,
            unk2: 0,
            region: Region::Europe,
            patch_version: 0,
        },
    };
    assert_eq!(org.target(), EventTarget::Global);
    Ok(())
}

#[test]
fn test_target_connection() -> Result<(), Error> {
    let entity: u64 = 1;
    let org = Event::ResponseCheckVersion {
        connection_id: entity,
        packet: SCheckVersion { ok: true },
    };
    assert_eq!(org.target(), EventTarget::Connection);
    Ok(())
}

#[test]
fn test_event_opcode_some() -> Result<(), Error> {
    let entity: u64 = 1;
    let org = Event::ResponseCheckVersion {
        connection_id: entity,
        packet: SCheckVersion { ok: true },
    };
    assert_eq!(org.opcode(), Some(Opcode::S_CHECK_VERSION));
    Ok(())
}

#[test]
fn test_event_opcode_none() -> Result<(), Error> {
    let response_channel: u64 = 0;
    let org = Event::RequestRegisterConnection { response_channel };

    assert_eq!(org.opcode(), None);
    Ok(())
}

#[test]
fn test_event_connection_some() -> Result<(), Error> {
    let entity: u64 = 1;
    let org = Event::ResponseCheckVersion {
        connection_id: entity,
        packet: SCheckVersion { ok: true },
    };
    assert_eq!(org.connection_id(), Some(entity));
    Ok(())
}

#[test]
fn test_event_connection_none() -> Result<(), Error> {
    let response_channel: u64 = 0;
    let org = Event::RequestRegisterConnection { response_channel };

    assert_eq!(org.connection_id(), None);
    Ok(())
}

#[test]
fn test_event_data_of_system_event_is_none() -> Result<(), Error> {
    let org = Event::ResponseDropConnection { connection_id: 7 };
    assert_eq!(org.data()?, None);
    Ok(())
}

#[test]
fn test_event_data_of_packet_event() -> Result<(), Error> {
    let org = Event::ResponseCheckVersion {
        connection_id: 7,
        packet: SCheckVersion { ok: true },
    };
    assert_eq!(org.data()?, Some(vec![1u8]));
    Ok(())
}

#[test]
fn test_no_event_mapping_for_packet() {
    let r = Event::new_from_packet(1, Opcode::C_SET_VISIBLE_RANGE, vec![]);
    assert_eq!(r, Err(Error::NoEventMappingForPacket));
}

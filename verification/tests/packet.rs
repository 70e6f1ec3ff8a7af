use almetica::error::Error;
use almetica::packet::{
    CCheckVersion, CCheckVersionEntry, CLoginArbiter, Region, SCheckVersion,
    SLoadingScreenControlInfo, SLoginArbiter,
};

#[test]
fn test_check_version_decode() -> Result<(), Error> {
    let data = vec![
        0x2, 0x0, 0x8, 0x0, 0x8, 0x0, 0x14, 0x0, 0x0, 0x0, 0x0, 0x0, 0x1d, 0x8a, 0x5, 0x0, 0x14,
        0x0, 0x0, 0x0, 0x1, 0x0, 0x0, 0x0, 0xce, 0x7b, 0x5, 0x0,
    ];
    let packet = CCheckVersion::decode(data)?;
    assert_eq!(packet.version.len(), 2);
    assert_eq!(packet.version[0].index, 0);
    assert_eq!(packet.version[0].value, 363_037);
    assert_eq!(packet.version[1].index, 1);
    assert_eq!(packet.version[1].value, 359_374);
    Ok(())
}

#[test]
fn test_check_version_encode_matches_wire() -> Result<(), Error> {
    let data = vec![
        0x2, 0x0, 0x8, 0x0, 0x8, 0x0, 0x14, 0x0, 0x0, 0x0, 0x0, 0x0, 0x1d, 0x8a, 0x5, 0x0, 0x14,
        0x0, 0x0, 0x0, 0x1, 0x0, 0x0, 0x0, 0xce, 0x7b, 0x5, 0x0,
    ];
    let packet = CCheckVersion::decode(data.clone())?;
    assert_eq!(packet.encode()?, data);
    Ok(())
}

#[test]
fn test_check_version_roundtrip() -> Result<(), Error> {
    let packet = CCheckVersion {
        version: vec![
            CCheckVersionEntry {
                index: 0,
                value: 363_037,
            },
            CCheckVersionEntry {
                index: 1,
                value: 359_374,
            },
        ],
    };
    let encoded = packet.encode()?;
    assert_eq!(CCheckVersion::decode(encoded)?, packet);
    Ok(())
}

#[test]
fn test_check_version_roundtrip_empty() -> Result<(), Error> {
    let packet = CCheckVersion { version: vec![] };
    let encoded = packet.encode()?;
    assert_eq!(CCheckVersion::decode(encoded)?, packet);
    Ok(())
}

#[test]
fn test_check_version_invalid_seq_entry() {
    // Corrupt the first element's stored self-offset (body position 4).
    let data = vec![
        0x2, 0x0, 0x8, 0x0, 0x9, 0x0, 0x14, 0x0, 0x0, 0x0, 0x0, 0x0, 0x1d, 0x8a, 0x5, 0x0, 0x14,
        0x0, 0x0, 0x0, 0x1, 0x0, 0x0, 0x0, 0xce, 0x7b, 0x5, 0x0,
    ];
    assert_eq!(
        CCheckVersion::decode(data),
        Err(Error::InvalidSeqEntry(5))
    );
}

#[test]
fn test_check_version_encode_too_large() {
    let packet = CCheckVersion {
        version: vec![CCheckVersionEntry { index: 0, value: 0 }; 3000],
    };
    assert_eq!(packet.encode(), Err(Error::PacketTooLarge(3000)));
}

#[test]
fn test_s_check_version_roundtrip() -> Result<(), Error> {
    for ok in [false, true] {
        let packet = SCheckVersion { ok };
        assert_eq!(SCheckVersion::decode(packet.encode())?, packet);
    }
    Ok(())
}

#[test]
fn test_s_loading_screen_roundtrip() -> Result<(), Error> {
    let packet = SLoadingScreenControlInfo {
        custom_screen_enabled: false,
    };
    assert_eq!(
        SLoadingScreenControlInfo::decode(packet.encode())?,
        packet
    );
    Ok(())
}

#[test]
fn test_s_login_arbiter_roundtrip() -> Result<(), Error> {
    let packet = SLoginArbiter {
        success: true,
        login_queue: false,
        status: 1,
        unk1: 0,
        region: Region::Europe,
        pvp_disabled: true,
        unk2: 0,
        unk3: 0,
    };
    assert_eq!(SLoginArbiter::decode(packet.encode())?, packet);
    Ok(())
}

#[test]
fn test_s_login_arbiter_unknown_region() {
    let mut data = SLoginArbiter {
        success: true,
        login_queue: false,
        status: 1,
        unk1: 0,
        region: Region::Europe,
        pvp_disabled: true,
        unk2: 0,
        unk3: 0,
    }
    .encode();
    // The region enumeration sits at body positions 10 to 13.
    data[10] = 0x63;
    assert_eq!(
        SLoginArbiter::decode(data),
        Err(Error::UnknownEnum(10, 0x63))
    );
}

#[test]
fn test_login_arbiter_roundtrip() -> Result<(), Error> {
    let packet = CLoginArbiter {
        master_account_name: vec![0x74, 0x65, 0x73, 0x74],
        ticket: vec![0x4f, 0x4b, 0x21],
        unk1: 0,
        unk2: 0,
        region: Region::Europe,
        patch_version: 363_037,
    };
    let encoded = packet.encode()?;
    assert_eq!(CLoginArbiter::decode(encoded)?, packet);
    Ok(())
}

#[test]
fn test_login_arbiter_roundtrip_empty_fields() -> Result<(), Error> {
    let packet = CLoginArbiter {
        master_account_name: vec![],
        ticket: vec![],
        unk1: 7,
        unk2: 9,
        region: Region::Usa,
        patch_version: 0,
    };
    let encoded = packet.encode()?;
    assert_eq!(CLoginArbiter::decode(encoded)?, packet);
    Ok(())
}

#[test]
fn test_login_arbiter_ticket_at_declared_offset() -> Result<(), Error> {
    let ticket = vec![0xde, 0xad, 0xbe, 0xef];
    let packet = CLoginArbiter {
        master_account_name: vec![0x61, 0x62],
        ticket: ticket.clone(),
        unk1: 0,
        unk2: 0,
        region: Region::Korea,
        patch_version: 0,
    };
    let encoded = packet.encode()?;
    // The ticket header at body position 2 holds the absolute offset.
    let raw = u16::from_le_bytes([encoded[2], encoded[3]]) as usize;
    let abs = raw - 4;
    assert_eq!(&encoded[abs..abs + ticket.len()], &ticket[..]);
    Ok(())
}

#[test]
fn test_login_arbiter_rejects_zero_code_unit() {
    let packet = CLoginArbiter {
        master_account_name: vec![0x61, 0x00, 0x62],
        ticket: vec![],
        unk1: 0,
        unk2: 0,
        region: Region::Europe,
        patch_version: 0,
    };
    assert_eq!(packet.encode(), Err(Error::InvalidString(1)));
}

#[test]
fn test_region_codes() {
    assert_eq!(Region::from_code(6), Some(Region::Europe));
    assert_eq!(Region::Europe.code(), 6);
    assert_eq!(Region::from_code(99), None);
}

use almetica::connection_manager::{Connection, ConnectionManager};
use almetica::dispatch::{send_packet_message, RouteOutcome};
use almetica::error::Error;
use almetica::event::Event;
use almetica::packet::{
    CCheckVersion, CCheckVersionEntry, CLoginArbiter, Region, SCheckVersion,
    SLoadingScreenControlInfo, SLoginArbiter,
};

fn two_entry_version() -> CCheckVersion {
    CCheckVersion {
        version: vec![
            CCheckVersionEntry {
                index: 0,
                value: 363_037,
            },
            CCheckVersionEntry {
                index: 1,
                value: 359_374,
            },
        ],
    }
}

fn login_packet() -> CLoginArbiter {
    CLoginArbiter {
        master_account_name: vec![0x74, 0x65, 0x73, 0x74],
        ticket: vec![0x4f, 0x4b],
        unk1: 0,
        unk2: 0,
        region: Region::Europe,
        patch_version: 0,
    }
}

fn register(manager: &mut ConnectionManager, channel: u64) -> u64 {
    match manager.handle_connection_registration(channel) {
        Event::ResponseRegisterConnection { connection_id } => connection_id,
        other => panic!("unexpected registration response: {:?}", other),
    }
}

#[test]
fn test_registration_resolves_channel() {
    let mut manager = ConnectionManager::new();
    let id = register(&mut manager, 42);
    assert_eq!(manager.resolve_channel(id), Some(42));
    assert_eq!(
        manager.connection_state(id),
        Some(Connection {
            verified: false,
            version_checked: false,
        })
    );
}

#[test]
fn test_post_init_check_version_then_login() -> Result<(), Error> {
    let mut manager = ConnectionManager::new();
    let id = register(&mut manager, 1);

    let evs = manager.handle_request_check_version(Some(id), &two_entry_version())?;
    assert_eq!(
        evs,
        vec![Event::ResponseCheckVersion {
            connection_id: id,
            packet: SCheckVersion { ok: true },
        }]
    );

    let evs = manager.handle_request_login_arbiter(Some(id), &login_packet())?;
    assert_eq!(
        evs,
        vec![
            Event::ResponseLoginArbiter {
                connection_id: id,
                packet: SLoginArbiter {
                    success: true,
                    login_queue: false,
                    status: 1,
                    unk1: 0,
                    region: Region::Europe,
                    pvp_disabled: true,
                    unk2: 0,
                    unk3: 0,
                },
            },
            Event::ResponseLoadingScreenControlInfo {
                connection_id: id,
                packet: SLoadingScreenControlInfo {
                    custom_screen_enabled: false,
                },
            },
        ]
    );
    Ok(())
}

#[test]
fn test_post_init_login_then_check_version() -> Result<(), Error> {
    let mut manager = ConnectionManager::new();
    let id = register(&mut manager, 1);

    let evs = manager.handle_request_login_arbiter(Some(id), &login_packet())?;
    assert_eq!(evs.len(), 1);

    let evs = manager.handle_request_check_version(Some(id), &two_entry_version())?;
    assert_eq!(
        evs,
        vec![
            Event::ResponseCheckVersion {
                connection_id: id,
                packet: SCheckVersion { ok: true },
            },
            Event::ResponseLoadingScreenControlInfo {
                connection_id: id,
                packet: SLoadingScreenControlInfo {
                    custom_screen_enabled: false,
                },
            },
        ]
    );
    assert_eq!(
        manager.connection_state(id),
        Some(Connection {
            verified: true,
            version_checked: true,
        })
    );
    Ok(())
}

#[test]
fn test_version_array_length_guard() -> Result<(), Error> {
    let mut manager = ConnectionManager::new();
    let id = register(&mut manager, 1);

    let one_entry = CCheckVersion {
        version: vec![CCheckVersionEntry {
            index: 0,
            value: 363_037,
        }],
    };
    let evs = manager.handle_request_check_version(Some(id), &one_entry)?;
    assert_eq!(
        evs,
        vec![Event::ResponseCheckVersion {
            connection_id: id,
            packet: SCheckVersion { ok: false },
        }]
    );
    assert_eq!(
        manager.connection_state(id),
        Some(Connection {
            verified: false,
            version_checked: false,
        })
    );
    Ok(())
}

#[test]
fn test_missing_entity_is_an_error() {
    let mut manager = ConnectionManager::new();
    assert_eq!(
        manager.handle_request_check_version(None, &two_entry_version()),
        Err(Error::EntityNotSet)
    );
}

#[test]
fn test_invalid_ticket_is_an_error() {
    let mut manager = ConnectionManager::new();
    let id = register(&mut manager, 1);
    let mut packet = login_packet();
    packet.ticket = vec![0xff, 0xfe, 0xff];
    assert_eq!(
        manager.handle_request_login_arbiter(Some(id), &packet),
        Err(Error::InvalidTicket)
    );
}

#[test]
fn test_unknown_connection_is_rejected() -> Result<(), Error> {
    let mut manager = ConnectionManager::new();
    let evs = manager.handle_request_check_version(Some(99), &two_entry_version())?;
    assert_eq!(
        evs,
        vec![Event::ResponseCheckVersion {
            connection_id: 99,
            packet: SCheckVersion { ok: false },
        }]
    );
    Ok(())
}

#[test]
fn test_route_packet_message() {
    let mut manager = ConnectionManager::new();
    let id = register(&mut manager, 42);
    let message = Event::ResponseCheckVersion {
        connection_id: id,
        packet: SCheckVersion { ok: true },
    };
    assert_eq!(
        send_packet_message(&manager, &message),
        RouteOutcome::Deliver(42)
    );

    let unknown = Event::ResponseCheckVersion {
        connection_id: id + 1,
        packet: SCheckVersion { ok: true },
    };
    assert_eq!(
        send_packet_message(&manager, &unknown),
        RouteOutcome::UnknownConnection
    );

    let no_id = Event::RequestRegisterConnection {
        response_channel: 0,
    };
    assert_eq!(
        send_packet_message(&manager, &no_id),
        RouteOutcome::MissingConnectionId
    );
}

#[test]
fn test_slow_consumer_drop() {
    let mut manager = ConnectionManager::new();
    let id = register(&mut manager, 42);

    // The runtime delivered fine: nothing changes.
    assert_eq!(manager.after_response_send(id, true), None);
    assert_eq!(manager.resolve_channel(id), Some(42));

    // The bounded channel was full: the connection is dropped and the
    // registry entry removed.
    assert_eq!(
        manager.after_response_send(id, false),
        Some(Event::ResponseDropConnection { connection_id: id })
    );
    assert_eq!(manager.resolve_channel(id), None);
    assert_eq!(manager.connection_state(id), None);
}

#[test]
fn test_handle_event_dispatch() {
    let mut manager = ConnectionManager::new();
    let id = register(&mut manager, 1);

    let evs = manager.handle_event(&Event::RequestCheckVersion {
        connection_id: id,
        packet: two_entry_version(),
    });
    assert_eq!(evs.len(), 1);

    // Events this system does not handle are ignored.
    let evs = manager.handle_event(&Event::ResponseDropConnection { connection_id: id });
    assert!(evs.is_empty());
}

//! The connection-manager system of the global world: registration, the
//! version check, the login arbiter, and the post-initialization push that
//! follows once both handshake flags are set.
//!
//! The surrounding runtime drains each world's inbound queue every tick and
//! calls `handle_event` for each request; the events returned are dispatched
//! to their targets at end of tick.
use vstd::prelude::*;

use crate::error::Error;
use crate::event::{ChannelId, EntityId, Event};
use crate::packet::{CCheckVersion, CLoginArbiter, Region, SCheckVersion, SLoadingScreenControlInfo,
    SLoginArbiter};
use crate::text::{bytes_are_utf8, is_utf8};
use vstd::pervasive::VecAdditionalExecFns;

verus! {

/// The handshake state of one connection entity.
#[derive(Clone, Copy, Debug, PartialEq, Eq, Structural)]
pub struct Connection {
    pub verified: bool,
    pub version_checked: bool,
}

/// The global world's connection state: one slot per entity id, holding the
/// connection component and the registry's response-channel entry. A `None`
/// slot is a destroyed entity.
pub struct ConnectionManager {
    connections: Vec<Option<Connection>>,
    channels: Vec<Option<ChannelId>>,
}

/// The mathematical image of the manager: components and registry side by
/// side, indexed by entity id.
pub struct ManagerView {
    pub connections: Seq<Option<Connection>>,
    pub channels: Seq<Option<ChannelId>>,
}

impl View for ConnectionManager {
    type V = ManagerView;

    closed spec fn view(&self) -> ManagerView {
        ManagerView { connections: self.connections@, channels: self.channels@ }
    }
}

/// Components and registry cover the same entities.
pub open spec fn manager_wf(m: ManagerView) -> bool {
    m.connections.len() == m.channels.len()
}

/// The response channel the registry resolves an entity id to, if any.
pub open spec fn spec_resolve(m: ManagerView, id: EntityId) -> Option<ChannelId> {
    if (id as int) < m.channels.len() {
        m.channels[id as int]
    } else {
        None
    }
}

/// The connection component of an entity id, if any.
pub open spec fn spec_component(m: ManagerView, id: EntityId) -> Option<Connection> {
    if (id as int) < m.connections.len() {
        m.connections[id as int]
    } else {
        None
    }
}

/// Registration: a fresh entity with both flags clear, its channel in the
/// registry, and the response that hands the session its id.
pub open spec fn spec_register(m: ManagerView, ch: ChannelId) -> (ManagerView, Event) {
    (
        ManagerView {
            connections: m.connections.push(
                Some(Connection { verified: false, version_checked: false }),
            ),
            channels: m.channels.push(Some(ch)),
        },
        Event::ResponseRegisterConnection { connection_id: m.connections.len() as u64 },
    )
}

/// Teardown: the entity's component and registry entry are removed.
pub open spec fn spec_drop_connection(m: ManagerView, id: EntityId) -> ManagerView {
    if (id as int) < m.channels.len() && (id as int) < m.connections.len() {
        ManagerView {
            connections: m.connections.update(id as int, None),
            channels: m.channels.update(id as int, None),
        }
    } else {
        m
    }
}

pub open spec fn accept_check_version_event(c: EntityId) -> Event {
    Event::ResponseCheckVersion { connection_id: c, packet: SCheckVersion { ok: true } }
}

pub open spec fn reject_check_version_event(c: EntityId) -> Event {
    Event::ResponseCheckVersion { connection_id: c, packet: SCheckVersion { ok: false } }
}

pub open spec fn loading_screen_event(c: EntityId) -> Event {
    Event::ResponseLoadingScreenControlInfo {
        connection_id: c,
        packet: SLoadingScreenControlInfo { custom_screen_enabled: false },
    }
}

pub open spec fn accept_login_arbiter_event(c: EntityId, region: Region) -> Event {
    Event::ResponseLoginArbiter {
        connection_id: c,
        packet: SLoginArbiter {
            success: true,
            login_queue: false,
            status: 1,
            unk1: 0,
            region,
            pvp_disabled: true,
            unk2: 0,
            unk3: 0,
        },
    }
}

pub open spec fn reject_login_arbiter_event(c: EntityId, region: Region) -> Event {
    Event::ResponseLoginArbiter {
        connection_id: c,
        packet: SLoginArbiter {
            success: false,
            login_queue: false,
            status: 0,
            unk1: 0,
            region,
            pvp_disabled: false,
            unk2: 0,
            unk3: 0,
        },
    }
}

/// The version check: a version array of any length other than two is
/// rejected without touching the flags; otherwise the flag is set, the
/// check is acknowledged, and post-initialization follows if the login
/// arbiter already passed.
pub open spec fn spec_check_version(m: ManagerView, c: EntityId, version_len: int) -> (
    ManagerView,
    Seq<Event>,
) {
    if version_len != 2 {
        (m, seq![reject_check_version_event(c)])
    } else {
        match spec_component(m, c) {
            Some(conn) => {
                let m2 = ManagerView {
                    connections: m.connections.update(
                        c as int,
                        Some(Connection { verified: conn.verified, version_checked: true }),
                    ),
                    channels: m.channels,
                };
                if conn.verified {
                    (m2, seq![accept_check_version_event(c), loading_screen_event(c)])
                } else {
                    (m2, seq![accept_check_version_event(c)])
                }
            },
            None => (m, seq![reject_check_version_event(c)]),
        }
    }
}

/// The login arbiter: the ticket was already found to be UTF-8; the
/// connection is marked verified, the arbiter acknowledges, and
/// post-initialization follows if the version check already passed.
pub open spec fn spec_login_arbiter(m: ManagerView, c: EntityId, region: Region) -> (
    ManagerView,
    Seq<Event>,
) {
    match spec_component(m, c) {
        Some(conn) => {
            let m2 = ManagerView {
                connections: m.connections.update(
                    c as int,
                    Some(Connection { verified: true, version_checked: conn.version_checked }),
                ),
                channels: m.channels,
            };
            if conn.version_checked {
                (m2, seq![accept_login_arbiter_event(c, region), loading_screen_event(c)])
            } else {
                (m2, seq![accept_login_arbiter_event(c, region)])
            }
        },
        None => (m, seq![reject_login_arbiter_event(c, region)]),
    }
}

pub fn accept_connection_registration(connection: EntityId) -> (ev: Event)
    ensures
        ev == (Event::ResponseRegisterConnection { connection_id: connection }),
{
    Event::ResponseRegisterConnection { connection_id: connection }
}

pub fn accept_check_version(connection: EntityId) -> (ev: Event)
    ensures
        ev == accept_check_version_event(connection),
{
    Event::ResponseCheckVersion { connection_id: connection, packet: SCheckVersion { ok: true } }
}

pub fn reject_check_version(connection: EntityId) -> (ev: Event)
    ensures
        ev == reject_check_version_event(connection),
{
    Event::ResponseCheckVersion { connection_id: connection, packet: SCheckVersion { ok: false } }
}

pub fn accept_login_arbiter(connection: EntityId, packet: &CLoginArbiter) -> (ev: Event)
    ensures
        ev == accept_login_arbiter_event(connection, packet.region),
{
    Event::ResponseLoginArbiter {
        connection_id: connection,
        packet: SLoginArbiter {
            success: true,
            login_queue: false,
            status: 1,
            unk1: 0,
            region: packet.region,
            pvp_disabled: true,
            unk2: 0,
            unk3: 0,
        },
    }
}

pub fn reject_login_arbiter(connection: EntityId, packet: &CLoginArbiter) -> (ev: Event)
    ensures
        ev == reject_login_arbiter_event(connection, packet.region),
{
    Event::ResponseLoginArbiter {
        connection_id: connection,
        packet: SLoginArbiter {
            success: false,
            login_queue: false,
            status: 0,
            unk1: 0,
            region: packet.region,
            pvp_disabled: false,
            unk2: 0,
            unk3: 0,
        },
    }
}

/// The loading-screen push of post-initialization.
pub fn assemble_loading_screen_info(connection: EntityId) -> (ev: Event)
    ensures
        ev == loading_screen_event(connection),
{
    Event::ResponseLoadingScreenControlInfo {
        connection_id: connection,
        packet: SLoadingScreenControlInfo { custom_screen_enabled: false },
    }
}

/// The events of post-initialization, sent once both flags are set.
pub fn handle_post_initialization(connection: EntityId) -> (evs: Vec<Event>)
    ensures
        evs@ == seq![loading_screen_event(connection)],
{
    let mut evs: Vec<Event> = Vec::new();
    evs.push(assemble_loading_screen_info(connection));
    proof {
        assert(evs@ =~= seq![loading_screen_event(connection)]);
    }
    evs
}

impl ConnectionManager {
    pub fn new() -> (m: ConnectionManager)
        ensures
            manager_wf(m@),
            m@.connections.len() == 0,
    {
        ConnectionManager { connections: Vec::new(), channels: Vec::new() }
    }

    /// How many entity slots exist (live or destroyed).
    pub fn entity_count(&self) -> (n: usize)
        ensures
            n == self@.connections.len(),
    {
        self.connections.len()
    }

    /// Registration: creates the entity, inserts its channel into the
    /// registry, and acknowledges with the new id — in that order, so the
    /// registry resolves the id before the session ever learns it.
    pub fn handle_connection_registration(&mut self, response_channel: ChannelId) -> (ev: Event)
        requires
            manager_wf(old(self)@),
        ensures
            manager_wf(final(self)@),
            final(self)@ == spec_register(old(self)@, response_channel).0,
            ev == spec_register(old(self)@, response_channel).1,
            spec_resolve(final(self)@, old(self)@.connections.len() as u64) == Some(
                response_channel,
            ),
    {
        let id = self.connections.len() as u64;
        self.connections.push(Some(Connection { verified: false, version_checked: false }));
        self.channels.push(Some(response_channel));
        accept_connection_registration(id)
    }

    /// The version-check handler.
    pub fn handle_request_check_version(
        &mut self,
        connection: Option<EntityId>,
        packet: &CCheckVersion,
    ) -> (r: Result<Vec<Event>, Error>)
        requires
            manager_wf(old(self)@),
        ensures
            manager_wf(final(self)@),
            match r {
                Ok(evs) => connection matches Some(c) && final(self)@ == spec_check_version(
                    old(self)@,
                    c,
                    packet.version@.len() as int,
                ).0 && evs@ == spec_check_version(
                    old(self)@,
                    c,
                    packet.version@.len() as int,
                ).1,
                Err(e) => connection is None && e == Error::EntityNotSet && final(self)@ == old(
                    self,
                )@,
            },
    {
        let c = match connection {
            Some(c) => c,
            None => {
                return Err(Error::EntityNotSet);
            },
        };
        if packet.version.len() != 2 {
            let mut evs: Vec<Event> = Vec::new();
            evs.push(reject_check_version(c));
            proof {
                assert(evs@ =~= seq![reject_check_version_event(c)]);
            }
            return Ok(evs);
        }
        if c < self.connections.len() as u64 {
            let slot = self.connections[c as usize];
            match slot {
                Some(conn) => {
                    self.connections.set(
                        c as usize,
                        Some(Connection { verified: conn.verified, version_checked: true }),
                    );
                    let mut evs: Vec<Event> = Vec::new();
                    evs.push(accept_check_version(c));
                    if conn.verified {
                        evs.push(assemble_loading_screen_info(c));
                        proof {
                            assert(evs@ =~= seq![
                                accept_check_version_event(c),
                                loading_screen_event(c),
                            ]);
                        }
                    } else {
                        proof {
                            assert(evs@ =~= seq![accept_check_version_event(c)]);
                        }
                    }
                    Ok(evs)
                },
                None => {
                    let mut evs: Vec<Event> = Vec::new();
                    evs.push(reject_check_version(c));
                    proof {
                        assert(evs@ =~= seq![reject_check_version_event(c)]);
                    }
                    Ok(evs)
                },
            }
        } else {
            let mut evs: Vec<Event> = Vec::new();
            evs.push(reject_check_version(c));
            proof {
                assert(evs@ =~= seq![reject_check_version_event(c)]);
            }
            Ok(evs)
        }
    }

    /// The login-arbiter handler. The ticket must decode as UTF-8; the
    /// verdict on its content is left to the account backend and is
    /// unconditionally accepting for now.
    pub fn handle_request_login_arbiter(
        &mut self,
        connection: Option<EntityId>,
        packet: &CLoginArbiter,
    ) -> (r: Result<Vec<Event>, Error>)
        requires
            manager_wf(old(self)@),
        ensures
            manager_wf(final(self)@),
            match r {
                Ok(evs) => connection matches Some(c) && is_utf8(packet.ticket@)
                    && final(self)@ == spec_login_arbiter(old(self)@, c, packet.region).0
                    && evs@ == spec_login_arbiter(old(self)@, c, packet.region).1,
                Err(e) => final(self)@ == old(self)@ && (if connection is None {
                    e == Error::EntityNotSet
                } else {
                    !is_utf8(packet.ticket@) && e == Error::InvalidTicket
                }),
            },
    {
        let c = match connection {
            Some(c) => c,
            None => {
                return Err(Error::EntityNotSet);
            },
        };
        if !bytes_are_utf8(&packet.ticket) {
            return Err(Error::InvalidTicket);
        }
        if c < self.connections.len() as u64 {
            let slot = self.connections[c as usize];
            match slot {
                Some(conn) => {
                    self.connections.set(
                        c as usize,
                        Some(Connection { verified: true, version_checked: conn.version_checked }),
                    );
                    let mut evs: Vec<Event> = Vec::new();
                    evs.push(accept_login_arbiter(c, packet));
                    if conn.version_checked {
                        evs.push(assemble_loading_screen_info(c));
                        proof {
                            assert(evs@ =~= seq![
                                accept_login_arbiter_event(c, packet.region),
                                loading_screen_event(c),
                            ]);
                        }
                    } else {
                        proof {
                            assert(evs@ =~= seq![accept_login_arbiter_event(c, packet.region)]);
                        }
                    }
                    Ok(evs)
                },
                None => {
                    let mut evs: Vec<Event> = Vec::new();
                    evs.push(reject_login_arbiter(c, packet));
                    proof {
                        assert(evs@ =~= seq![reject_login_arbiter_event(c, packet.region)]);
                    }
                    Ok(evs)
                },
            }
        } else {
            let mut evs: Vec<Event> = Vec::new();
            evs.push(reject_login_arbiter(c, packet));
            proof {
                assert(evs@ =~= seq![reject_login_arbiter_event(c, packet.region)]);
            }
            Ok(evs)
        }
    }

    /// One tick's worth of this system for one event: requests it handles
    /// produce responses, all other events are ignored. A handler error is
    /// swallowed after logging in the runtime, as the original policy says:
    /// the event is discarded.
    pub fn handle_event(&mut self, event: &Event) -> (evs: Vec<Event>)
        requires
            manager_wf(old(self)@),
        ensures
            manager_wf(final(self)@),
            match *event {
                Event::RequestRegisterConnection { response_channel } => final(self)@
                    == spec_register(old(self)@, response_channel).0 && evs@ == seq![
                    spec_register(old(self)@, response_channel).1,
                ],
                Event::RequestCheckVersion { connection_id, packet } => final(self)@
                    == spec_check_version(
                    old(self)@,
                    connection_id,
                    packet.version@.len() as int,
                ).0 && evs@ == spec_check_version(
                    old(self)@,
                    connection_id,
                    packet.version@.len() as int,
                ).1,
                Event::RequestLoginArbiter { connection_id, packet } => if is_utf8(
                    packet.ticket@,
                ) {
                    final(self)@ == spec_login_arbiter(old(self)@, connection_id, packet.region).0
                        && evs@ == spec_login_arbiter(old(self)@, connection_id, packet.region).1
                } else {
                    final(self)@ == old(self)@ && evs@ == Seq::<Event>::empty()
                },
                _ => final(self)@ == old(self)@ && evs@ == Seq::<Event>::empty(),
            },
    {
        match event {
            Event::RequestRegisterConnection { response_channel } => {
                let ev = self.handle_connection_registration(*response_channel);
                let mut evs: Vec<Event> = Vec::new();
                let ghost ev0 = ev;
                evs.push(ev);
                proof {
                    assert(evs@ =~= seq![ev0]);
                }
                evs
            },
            Event::RequestCheckVersion { connection_id, packet } => match self
                .handle_request_check_version(Some(*connection_id), packet) {
                Ok(evs) => evs,
                Err(_) => Vec::new(),
            },
            Event::RequestLoginArbiter { connection_id, packet } => match self
                .handle_request_login_arbiter(Some(*connection_id), packet) {
                Ok(evs) => evs,
                Err(_) => Vec::new(),
            },
            _ => Vec::new(),
        }
    }
}

impl ConnectionManager {
    /// The handshake flags of a connection entity, if it exists.
    pub fn connection_state(&self, id: EntityId) -> (r: Option<Connection>)
        ensures
            r == spec_component(self@, id),
    {
        if id < self.connections.len() as u64 {
            self.connections[id as usize]
        } else {
            None
        }
    }

    /// The registry lookup: the response channel of a connection entity.
    pub fn resolve_channel(&self, id: EntityId) -> (r: Option<ChannelId>)
        ensures
            r == spec_resolve(self@, id),
    {
        if id < self.channels.len() as u64 {
            self.channels[id as usize]
        } else {
            None
        }
    }

    /// Teardown of one connection: the component and the registry entry are
    /// removed, each exactly once; afterwards the id no longer resolves.
    pub fn drop_connection(&mut self, id: EntityId) -> (ev: Event)
        requires
            manager_wf(old(self)@),
        ensures
            manager_wf(final(self)@),
            final(self)@ == spec_drop_connection(old(self)@, id),
            spec_resolve(final(self)@, id) is None,
            ev == (Event::ResponseDropConnection { connection_id: id }),
    {
        if id < self.channels.len() as u64 {
            self.connections.set(id as usize, None);
            self.channels.set(id as usize, None);
        }
        Event::ResponseDropConnection { connection_id: id }
    }

    /// The slow-consumer policy: the runtime reports whether the session's
    /// response channel accepted the message. If it did not, the connection
    /// is torn down and a drop notice is synthesized for the session.
    pub fn after_response_send(&mut self, id: EntityId, delivered: bool) -> (r: Option<Event>)
        requires
            manager_wf(old(self)@),
        ensures
            manager_wf(final(self)@),
            delivered ==> final(self)@ == old(self)@ && r is None,
            !delivered ==> final(self)@ == spec_drop_connection(old(self)@, id) && spec_resolve(
                final(self)@,
                id,
            ) is None && r == Some(Event::ResponseDropConnection { connection_id: id }),
    {
        if delivered {
            None
        } else {
            Some(self.drop_connection(id))
        }
    }
}

/// Post-initialization fires exactly once however the two handshake steps
/// are ordered: from a fresh registration, running the version check (with
/// a two-entry array) and the login arbiter in either order yields the
/// loading-screen push at the end of the second step and not at the first.
pub proof fn lemma_post_init_either_order(m: ManagerView, c: EntityId, len2: int, region: Region)
    requires
        manager_wf(m),
        spec_component(m, c) == Some(Connection { verified: false, version_checked: false }),
        len2 == 2,
    ensures
        ({
            let (m1, evs1) = spec_check_version(m, c, len2);
            let (m2, evs2) = spec_login_arbiter(m1, c, region);
            &&& evs1 == seq![accept_check_version_event(c)]
            &&& evs2 == seq![accept_login_arbiter_event(c, region), loading_screen_event(c)]
            &&& spec_component(m2, c) == Some(
                Connection { verified: true, version_checked: true },
            )
        }),
        ({
            let (m1, evs1) = spec_login_arbiter(m, c, region);
            let (m2, evs2) = spec_check_version(m1, c, len2);
            &&& evs1 == seq![accept_login_arbiter_event(c, region)]
            &&& evs2 == seq![accept_check_version_event(c), loading_screen_event(c)]
            &&& spec_component(m2, c) == Some(
                Connection { verified: true, version_checked: true },
            )
        }),
{
}

} // verus!

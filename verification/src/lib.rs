//! Core of a game server for a legacy MMORPG client: the schema-driven wire
//! codec for the client's length-prefixed binary packet protocol, the opcode
//! table, the typed event model, and the connection-manager logic of the
//! global world.
pub mod bytes;
pub mod event;
pub mod opcode;
pub mod packet;
pub mod ser;
pub mod session;
pub mod connection_manager;
pub mod de;
pub mod dispatch;
pub mod error;
pub mod text;

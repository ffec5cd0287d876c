//! A single-entry clipboard broker for desktop sessions.
//!
//! A daemon holds one clipboard value, encrypted in memory, and serves it to
//! local clients; while a graphical session is up it mirrors the value with
//! the compositor's clipboard through a bridge process. This crate is the
//! daemon's logic, free of I/O:
//!
//! * [`message`]: the requests and responses;
//! * [`codec`], [`frame`], [`endian`], [`text`]: their encoding as bytes and
//!   as length-prefixed frames;
//! * [`key`], [`paths`]: what the daemon is configured with;
//! * [`cipher`], [`store`]: the encrypted store;
//! * [`server`]: what one request does to the store, what is answered, and
//!   what is passed on to the compositor;
//! * [`watcher`]: the state machine that ties the bridge process to the
//!   presence of the compositor's socket;
//! * [`client`]: what a client makes of an answer.
//!
//! Contracts are stated over mathematical views of the data, and every
//! function is verified against its contract. The calls into other crates
//! (the cipher, the random source, the memory scrubber, UTF-8 decoding) are
//! believed, not proved; each says so where it stands.

pub mod cipher;
pub mod client;
pub mod codec;
pub mod endian;
pub mod frame;
pub mod key;
pub mod message;
pub mod paths;
pub mod server;
pub mod store;
pub mod text;
pub mod watcher;

pub use client::{copy_outcome, paste_outcome, ClientError};
pub use frame::{read_frame, write_frame, ProtocolError};
pub use key::ConfigError;
pub use message::{CopySource, Request, Response};
pub use paths::socket_path;
pub use server::{handle_request, handle_request_drawn, serve, Reply, Served};
pub use store::{EncryptedBuffer, State, StoreError};
pub use watcher::{BridgeAction, SocketEvent, WatcherEvent, WatcherState};

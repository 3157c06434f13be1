//! A development-time coordinator for hot reloading: it decides, for every
//! change in a watched source tree, whether connected clients get a template
//! update or the application has to be rebuilt.
//!
//! The coordinator is a set of small machines that do no outside work
//! themselves. Each is told what happened and answers what is to be done;
//! the sockets, the file watcher, the Diff Engine and the threads belong to
//! the host.
//!
//! - [`filter`] says which changed paths are worth a look, with [`path`]
//!   for the paths and [`rules`] for the ignore file of the project.
//! - [`debounce`] lets one batch of changes through per second.
//! - [`watcher`] routes a batch: template updates for what can be applied
//!   to a running client, a rebuild for what cannot. [`routing`] holds what
//!   it guarantees.
//! - [`registry`] keeps the connected clients; [`delivery`] holds what it
//!   guarantees of replay and broadcast.
//! - [`wire`] frames the messages, [`client`] reads them on the other side.
//! - [`config`] and [`session`] set a session up and end it.

pub mod bytes;
pub mod client;
pub mod config;
pub mod debounce;
pub mod delivery;
pub mod filter;
pub mod path;
pub mod registry;
pub mod routing;
pub mod rules;
pub mod session;
pub mod watcher;
pub mod wire;

pub use client::connect;
pub use config::{init, Config};
pub use wire::HotReloadMsg;

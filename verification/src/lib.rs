//! The logic of a backup daemon for a user's workstation: it watches the
//! source directories of configured backup sets, waits until changes have
//! settled, has an external engine back the sets up, enforces retention,
//! and serves clients over a local socket.
//!
//! This library holds every decision of that daemon and leaves the doing
//! to its caller: the state machine of a set's job (`job`), the manager of
//! all jobs (`manager`), the tracking of mounts (`mount`), the adapter of
//! the engine (`executor`), the watcher's table (`watcher`), the handling
//! of requests (`server`) and the daemon's own lifecycle (`daemon`). The
//! caller owns the clock, the processes, the sockets and the files, and
//! hands the library what it observed.

pub mod client;
pub mod config;
pub mod daemon;
pub mod display;
pub mod executor;
pub mod glob;
pub mod ipc;
pub mod job;
pub mod job_laws;
pub mod json;
pub mod manager;
pub mod mount;
pub mod paths;
pub mod server;
pub mod text;
pub mod types;
pub mod watcher;

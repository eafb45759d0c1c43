//! Status-bar state synchronization library.
//!
//! The core of this crate is a set of reducers that normalize the wire data
//! of external system services (a Wayland compositor's IPC sockets, an audio
//! server, a device-management bus) into consistent in-memory state models.
//! Every state transition is a pure, verified function; the surrounding I/O
//! loops hand plain values in and take plain values back.

pub mod args;
pub mod components;
pub mod config;
pub mod data;
pub mod hex;
pub mod icons;
pub mod keyed;
pub mod reducers;
pub mod util;

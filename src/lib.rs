//! Instance lifecycle core of a game-server control plane: the instance
//! registry, port bookkeeping, permission checks, progress events and the
//! sandboxed path gateway, each with a verified contract.

pub mod error;
pub mod events;
pub mod identity;
pub mod instance;
pub mod instance_fs;
pub mod path;
pub mod permission;
pub mod ports;
pub mod registry;

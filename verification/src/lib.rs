//! Remote-control client core for Android devices.
//!
//! The heart of the crate is the device command channel: a session state
//! machine that deploys a helper executable to a device through the bridge
//! tool, owns the spawned bridge subprocess's input pipe, and relays encoded
//! key-event command lines to it while reporting `Connected` /
//! `Disconnected` / `Error` lifecycle transitions back to the UI.
//!
//! All process, file and timer work lives in the application shell; this
//! crate holds the decision logic, data model and command encoding, each
//! function with a verified contract.

pub mod channel;
pub mod decimal;
pub mod device;
pub mod file_version;
pub mod host;
pub mod key_command;
pub mod preferences;
pub mod preferences_repository;
pub mod sendevent;
pub mod slot;
pub mod theme;


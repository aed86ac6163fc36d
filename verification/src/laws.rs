//! What holds of the control plane as a whole.

pub mod basics;
pub mod browser;
pub mod calls;
pub mod commands;
pub mod connection;
pub mod consistency;
pub mod decisions;
pub mod files;
pub mod happenings;
pub mod inspection;
pub mod keeping;
pub mod limits;
pub mod lookup;
pub mod news;
pub mod order;
pub mod permissions;
pub mod positions;
pub mod probes;
pub mod rebinding;
pub mod ring;
pub mod scripts;
pub mod source;
pub mod steps;
pub mod stores;
pub mod tables;
pub mod tools;

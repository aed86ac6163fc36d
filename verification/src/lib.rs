//! Control plane of a browser automation daemon: a debugger of compiled
//! JavaScript, tools that pages offer, and saved browser states.
//!
//! What talks to the browser or to the file system is written as a machine: it
//! says what to do next, and takes what came of it. Every table, rule and
//! machine has a mathematical model, and every function is proved against it.
//! What holds of them together is proved in [`laws`].

pub mod activation;
pub mod autosave;
pub mod breakpoint;
pub mod collections;
pub mod controller;
pub mod crypto;
pub mod dispatch;
pub mod events;
pub mod inspect;
pub mod interop;
pub mod json;
pub mod laws;
pub mod lifecycle;
pub mod logpoint;
pub mod operation;
pub mod paths;
pub mod policy;
pub mod probe_remove;
pub mod probe_request;
pub mod probe_set;
pub mod queries;
pub mod reconcile;
pub mod records;
pub mod reports;
pub mod save;
pub mod search;
pub mod source;
pub mod state_files;
pub mod state_read;
pub mod storage;
pub mod storage_visit;
pub mod text;
pub mod tool_call;
pub mod webmcp;

//! The module lifecycle engine of a WebAssembly execution service for
//! many tenants, with machine-checked contracts.
//!
//! Modules are resolved from URLs (`url`, `webload`, `json`), named
//! (`names`), kept in a registry (`registry`, `table`) and reached
//! through aliases (`aliases`). The service (`service`) decides what
//! loading, unloading and running do; a guest meets the host through the
//! functions of `runtime` and `assemblyscript` on the engine of `engine`.
//! The front-ends read their input with `repl` and `irc`. `text` holds
//! what the parsers share, `error` the errors, `debug` a look at shared
//! pointers.
//!
//! The library does no I/O and waits for nothing. Where an operation
//! needs the outside world, it comes in steps: the caller does the
//! outside work between the steps and hands its outcome to the next one.

pub mod aliases;
pub mod assemblyscript;
pub mod debug;
pub mod engine;
pub mod error;
pub mod irc;
pub mod json;
pub mod names;
pub mod registry;
pub mod repl;
pub mod runtime;
pub mod service;
pub mod table;
pub mod text;
pub mod url;
pub mod webload;

//! Engine of a small terminal multiplexer for a fixed catalogue of named
//! tasks: bounded output history, escape-sequence scanners, the instance
//! table, the session registry's bookkeeping and the attach protocol's
//! decisions, with the list, form and log logic of its interface.
//!
//! The functions state what they do in contracts that Verus proves. The
//! library opens no file, socket or terminal: callers do that and hand in
//! plain values. The few calls that are taken on trust (the clock, UTF-8
//! decoding, lower-casing, `String::push` and `pop`, and the `uuid` crate)
//! stand in small private functions whose comments say what is assumed of
//! them.

pub mod ring;
pub mod text;
pub mod order;
pub mod ansi;
pub mod osc;
pub mod clock;
pub mod models;
pub mod instance;
pub mod table;
pub mod ids;
pub mod session;
pub mod attach;
pub mod launch;
pub mod template;
pub mod config;
pub mod host;
pub mod selection;
pub mod forms;
pub mod logview;
pub mod ui;

//! A personal task tracker: the task, its record in the store, and the rules
//! by which tasks are added, listed, advanced, edited and retired.
//!
//! The library reads and writes no file and asks the user nothing. A store is
//! handled as the bytes that it holds, and a command answers with the
//! [`store::StoreUpdate`] that the caller carries out on the file. The host's
//! clock, time zone and colour settings come in through `chrono` and
//! `colored`, regular expressions through `regex`; what these compute is
//! named or left open in the contracts, never restated.
//!
//! - [`task`] and [`record`]: the task and its encoding; [`stream`] and
//!   [`wire`] below them.
//! - [`store`]: a store as a sequence of records, and the updates to its file.
//! - [`engine`] and [`order`]: the rules of a list of tasks.
//! - [`commands`]: the five commands, from bytes to update; [`laws`] states
//!   what holds over them.
//! - [`cli`], [`prompts`], [`progress`], [`duration`], [`decimal`]: what the
//!   user writes.
//! - [`display`], [`format`] and [`paint`]: what the user is shown.

pub mod cli;
pub mod clock;
pub mod commands;
pub mod decimal;
pub mod display;
pub mod duration;
pub mod engine;
pub mod error;
pub mod format;
pub mod laws;
pub mod order;
pub mod paint;
pub mod pattern;
pub mod progress;
pub mod prompts;
pub mod record;
pub mod store;
pub mod stream;
pub mod task;
pub mod text;
pub mod wire;

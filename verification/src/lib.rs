//! slack-deputy: the verified core of a personal Slack agent.
//!
//! A daemon receives what happens on Slack, stores what concerns its human, and serves the
//! queue to a consumer; a CLI drives the daemon over HTTP. This library decides what is
//! stored and how, what each verb does to the queue, what an ask to the human looks like and
//! what comes of its answer, and what the CLI sends and prints. Reading and writing (Slack,
//! SQLite, HTTP, the environment, the clock) is left to the program around it, which hands
//! in plain values.
//!
//! - [`db`]: the store, and the queue over it.
//! - [`inbound`]: which events are captured, and which are echoes of our own.
//! - [`confirm`]: asks, and the answers to them.
//! - [`outbound`]: the verbs of the HTTP API.
//! - [`cli`]: the commands, and the lines of `tail`.
//! - [`config`]: the environment and the config file.
//! - [`state`]: the state that the daemon's parts share.
//! - [`slack`]: Slack's events and messages, as far as they are read.
//! - [`json`], [`text`]: values and strings.
//! - [`laws`]: what holds across these.

pub mod cli;
pub mod config;
pub mod confirm;
pub mod db;
pub mod inbound;
pub mod json;
pub mod laws;
pub mod outbound;
pub mod slack;
pub mod state;
pub mod text;

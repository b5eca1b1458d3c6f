//! Group-chat moderation core: a per-key state store, a rate-limit filter and
//! the decisions that turn a classifier verdict or an operator action into
//! concrete moderation steps.

pub mod config;
pub mod state;
pub mod pre;
pub mod text;
pub mod detect;
pub mod action;
pub mod post;
pub mod command;

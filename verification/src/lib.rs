//! A chain-notification bridge: it reads committed block ranges, picks out the
//! counter contract's events, and plans the state-root calls and height
//! acknowledgements that follow from them.

pub mod chain;
pub mod config;
pub mod engine_args;
pub mod event;
pub mod exex;
pub mod extract;
pub mod hex;
pub mod notifier;
pub mod primitives;

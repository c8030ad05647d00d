//! The core of a trade-alert service for a cryptocurrency exchange: the
//! dynamic streaming-feed lifecycle manager and trade-notification
//! coordinator. Per-symbol feeds are opened on demand and torn down lazily on
//! the first trade that finds no subscriber; reconnects back off
//! exponentially with jitter; trades are filtered by exact fixed-point
//! notional value and fanned out, one notification per subscriber. The
//! surrounding process (transport, store, chat) feeds events in and carries
//! the decided actions out.
pub mod backoff;
pub mod config;
pub mod connection;
pub mod coordinator;
pub mod decimal;
pub mod market;
pub mod registry;
pub mod symbol;
pub mod telegram;
pub mod wire;

//! Static configuration. Loading and deserialising the configuration file
//! happens outside; these are the plain values the library works with. Dollar
//! amounts are fixed-point integers in units of 10^-8 dollars.
use vstd::prelude::*;

verus! {

/// Telegram bot access.
#[derive(Clone, Debug)]
pub struct TelegramConfig {
    pub bot_token: String,
}

/// Exchange endpoints.
#[derive(Clone, Debug)]
pub struct HyperliquidConfig {
    pub websocket_url: String,
    pub rest_api_url: String,
}

/// Subscription store access.
#[derive(Clone, Debug)]
pub struct DatabaseConfig {
    pub url: String,
    pub api_key: String,
}

/// Defaults: the symbol every new user is subscribed to, and the minimum
/// notional value (in units of 10^-8 dollars) a trade must reach to be
/// announced.
#[derive(Clone, Debug)]
pub struct DefaultsConfig {
    pub default_symbol: String,
    pub min_trade_value_usd_e8: u64,
}

/// Reconnect policy for a streaming connection.
#[derive(Clone, Copy, Debug)]
pub struct RetryConfig {
    pub max_attempts: u32,
    pub base_delay_ms: u64,
    pub max_delay_ms: u64,
}

impl RetryConfig {
    /// The maximum delay leaves room for +10% jitter within the machine word.
    pub open spec fn delay_cap_ok(&self) -> bool {
        self.max_delay_ms + self.max_delay_ms / 10 <= u64::MAX
    }
}

/// The chat command names.
#[derive(Clone, Debug)]
pub struct CommandsConfig {
    pub subscribe_command: String,
    pub unsubscribe_command: String,
    pub list_command: String,
    pub help_command: String,
}

/// The whole configuration.
#[derive(Clone, Debug)]
pub struct Config {
    pub telegram: TelegramConfig,
    pub hyperliquid: HyperliquidConfig,
    pub database: DatabaseConfig,
    pub defaults: DefaultsConfig,
    pub retry: RetryConfig,
    pub commands: CommandsConfig,
}

} // verus!

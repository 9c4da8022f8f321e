//! Configuration, loaded once at startup and shared read-only afterwards.
use std::sync::Arc;
use vstd::prelude::*;

verus! {

#[derive(Debug, Clone)]
pub struct AppConfig {
    pub request_config: Arc<RequestConfig>,
    pub telegram_config: Arc<TelegramConfig>,
    pub ping_config: Arc<PingConfig>,
}

#[derive(Debug, Clone)]
pub struct RequestConfig {
    pub addresses: Vec<AddressConfig>,
    pub timeout_secs: i64,
    pub retry: i64,
}

/// Settings of the probing monitors.
#[derive(Debug, Clone)]
pub struct PingConfig {
    pub addresses: Arc<Vec<AddressConfig>>,
    /// Seconds between two probes of one target.
    pub timeout_secs: i64,
    /// Consecutive failed probes that make an alert.
    pub retry: i64,
    /// Extra pause of a target's monitor after it sent an alert.
    pub sleep_after_alert_secs: i64,
}

#[derive(Debug, Clone)]
pub struct TelegramConfig {
    pub telegram_api_token: String,
    /// The recipients of every alert.
    pub telegram_chat_ids: Vec<i64>,
}

/// A monitored target: an IP literal or a host name, and a label for people.
#[derive(Debug, Clone)]
pub struct AddressConfig {
    pub address: String,
    pub description: String,
}

} // verus!

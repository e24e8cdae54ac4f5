//! The bot's stores: cooldowns, cached ship states and cached scans and surveys.
pub mod cooldown_store;
pub mod ship_state_store;
pub mod survey_cache;

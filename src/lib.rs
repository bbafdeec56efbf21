//! Device-state aggregation and event fan-out for Bluetooth Low Energy centrals.
//!
//! `advertisement` decodes raw advertisement sections, `peripheral` merges
//! reports into one device's state and caches its characteristics, and
//! `adapter_manager` keeps the address-keyed registry and delivers events.
pub mod adapter_manager;
pub mod advertisement;
pub mod external;
pub mod peripheral;

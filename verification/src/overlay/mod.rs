//! The overlay windows: when they show, and what.
pub mod alert;
pub mod alert_laws;
pub mod meter;
pub mod meter_laws;

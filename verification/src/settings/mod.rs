//! The settings window: what its buttons do, what its fields mean, and where
//! its controls stand.
pub mod color;
pub mod command;
pub mod form;
pub mod form_laws;
pub mod icons;
pub mod layout;
pub mod panels;
pub mod register;
pub mod sounds;
pub mod triggers;

pub mod chat;
pub mod client;
pub mod clock;
pub mod config;
pub mod config_laws;
pub mod event;
pub mod maps;
pub mod number;
pub mod overlay;
pub mod server;
pub mod settings;
pub mod single;
pub mod text;
pub mod text_laws;

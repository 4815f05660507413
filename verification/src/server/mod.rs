//! The stream server: what it stores, whom it lets in, what it answers.
pub mod access;
pub mod access_laws;
pub mod admin;
pub mod admin_laws;
pub mod admin_page;
pub mod ingest;
pub mod ingest_laws;
pub mod journal;
pub mod journal_laws;
pub mod streams;
pub mod viewer;
pub mod viewer_laws;

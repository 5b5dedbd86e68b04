//! What a node decides.

pub mod answers;
pub mod boot;
pub mod commit;
pub mod config;
pub mod effective;
pub mod fees;
pub mod given;
pub mod history;
pub mod journal;
pub mod keys;
pub mod lines;
pub mod names;
pub mod notes;
pub mod policy;
pub mod ring;
pub mod schema;
pub mod settings;
pub mod template;
pub mod toml;
pub mod views;

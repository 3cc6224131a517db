//! Structured document model, operation engine and renderers.

pub mod attrs;
pub mod text;
pub mod id;
pub mod node;
pub mod model;
pub mod provenance;
pub mod store;
pub mod order;
pub mod conflict;
pub mod patch;
pub mod engine;
pub mod check;
pub mod handler;
pub mod apply;
pub mod preview;
pub mod history;
pub mod branching;
pub mod tree;
pub mod render;
pub mod export;
pub mod package;
pub mod import;
pub mod laws;
pub mod commands;
pub mod templates;
pub mod editor;
pub mod demo;

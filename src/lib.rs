//! Core of an editor-integration server that turns syntax-tree anchored
//! context into text edits: coordinate translation, document model,
//! declarative triggers and contexts, placement and reindentation, and the
//! dispatch of action handlers.

pub mod text;
pub mod coords;
pub mod grammar;
pub mod document;
pub mod config;
pub mod placement;
pub mod prompt;
pub mod provider;
pub mod llm;
pub mod configuration;
pub mod lua;
pub mod dispatch;
pub mod python;

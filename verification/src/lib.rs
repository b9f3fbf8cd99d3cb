//! Reconciles a language model's free-form reply with the file it was asked to edit.

pub mod diff;
pub mod document;
pub mod extract;
pub mod json;
pub mod language;
pub mod lines;
pub mod models;
pub mod numeral;
pub mod provider;
pub mod review;
pub mod text;

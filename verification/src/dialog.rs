//! Scripted dialogs: steps that wait for a text and answer it, with
//! variables substituted into what is waited for and what is sent.
pub mod common;
pub mod definition;
pub mod executor;

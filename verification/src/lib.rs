//! A chat client for language models behind an OpenAI-compatible endpoint: everything that it
//! decides and computes, as functions from plain values to plain values.
pub mod benchmark;
pub mod command;
pub mod config;
pub mod digest;
pub mod highlight;
pub mod json;
pub mod markdown;
pub mod models;
pub mod order;
pub mod output;
pub mod paint;
pub mod prompt;
pub mod repl;
pub mod reply;
pub mod report;
pub mod session;
pub mod system_metrics;
pub mod terminal;
pub mod text;

//! Core of a background media downloader: argument building for the
//! downloader tool, classification of its output lines into typed events,
//! and the per-job status machine.

pub mod client;
pub mod command;
pub mod job;
pub mod numeric;
pub mod options;
pub mod progress;
pub mod run;
pub mod settings;
pub mod status;
pub mod text;
pub mod worker;

//! Polling and rendering engine for captured webhook requests.

pub mod cli;
pub mod client;
pub mod clock;
pub mod color_control;
pub mod commands;
pub mod config;
pub mod display;
pub mod filter;
pub mod form;
pub mod json;
pub mod model;
pub mod monitor;
pub mod output;
pub mod text;

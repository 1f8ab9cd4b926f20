//! The terminal interface: what is shown, and what keys do.

pub mod app;
pub mod blocks;
pub mod conversation;
pub mod input;
pub mod markdown;
pub mod status_bar;
pub mod style;
pub mod types;

//! Verified core of two small desktop tools: a mood journal with daily
//! rollups, chart windows and export layout, and a weather lookup with
//! geocoding selection, daily-value extraction, source fallback and a
//! line-oriented result log.
pub mod text;
pub mod states;
pub mod geocode;
pub mod weather;
pub mod weatherlog;
pub mod mood;
pub mod chart;
pub mod export;
pub mod panel;

//! A weather-station metrics exporter core: fetch classification, a
//! schema-driven decoder for the station's current-conditions XML document,
//! a last-value gauge registry, and a text exposition encoder.

pub mod config;
pub mod encode;
pub mod handler;
pub mod observation;
pub mod registry;
pub mod text;
pub mod xml;

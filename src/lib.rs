//! Packet parsing and threat detection for a network monitoring service.
//!
//! The library turns raw IP packets into structured records, keeps the
//! per-class detector state (address bindings, name resolutions, traffic
//! baseline) and decides which observations raise alerts.

pub mod models;
pub mod text;
pub mod packet_capture;
pub mod threat_detection;
pub mod notifications;
pub mod daemon;
pub mod utils;
pub mod threat_database;

//! Tunnel and SSO-session management for a terminal dashboard.

pub mod text;
pub mod strmap;
pub mod tunnel;
pub mod json;
pub mod aws;
pub mod config;
pub mod ports;
pub mod app;
pub mod event;
pub mod layout;
pub mod ui;
pub mod laws;

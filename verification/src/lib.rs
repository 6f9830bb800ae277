//! Session-isolated kubeconfig switching: the verified core.
pub mod app_config;
pub mod commands;
pub mod error;
pub mod kubeconfig;
pub mod modes;
pub mod pattern;
pub mod previous;
pub mod search;
pub mod text;

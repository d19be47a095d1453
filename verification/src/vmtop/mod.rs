//! The terminal dashboard: what it shows of the VMs of a host, and what keys
//! do. The program draws it and polls the host.

pub mod app;
pub mod format;
pub mod laws;
pub mod listing;
pub mod model;
pub mod shown;
pub mod ui;
pub mod view;

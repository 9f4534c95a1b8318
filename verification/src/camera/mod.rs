//! Cameras as the gateway knows them: one client per camera, and the
//! registry that holds the clients.

pub mod client;
pub mod manager;

pub use crate::config::CameraConfig;
pub use client::CameraClient;
pub use manager::CameraManager;

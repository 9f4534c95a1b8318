//! ONVIF protocol pieces: envelope codec, authentication, services.

pub mod auth;
pub mod device;
pub mod events;
pub mod media;
pub mod namespaces;
pub mod soap;
pub mod types;
pub mod xml;

//! Protocol-translating ONVIF gateway core: SOAP envelopes, WS-Security
//! headers, emulated pull-point subscriptions and response repair rules.

pub mod camera;
pub mod clock;
pub mod config;
pub mod onvif;
pub mod random;
pub mod server;
pub mod text;
pub mod translator;

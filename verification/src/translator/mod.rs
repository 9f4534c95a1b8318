//! Response translation: per-model repair rules for camera responses.

pub mod reolink;
pub mod response;
pub mod rules;

pub use reolink::ReolinkEventTranslator;
pub use response::ResponseTranslator;

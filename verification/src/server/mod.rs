//! What the HTTP surface decides: which operation a request asks for, and
//! what is answered.

pub mod routes;

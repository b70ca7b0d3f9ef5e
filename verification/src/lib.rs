//! Client-side core of a long-polling bot messaging API.
//!
//! The crate covers the protocol logic of such a client: building the
//! per-method request URL from an authenticated base endpoint, encoding
//! parameter sets, classifying the uniform JSON response envelope into a
//! typed payload or one of four error kinds, and driving the update
//! poll-loop's offset cursor so that no update is handed to a handler
//! twice within one run.  The HTTP transport itself stays outside.

pub mod digits;
pub mod params;
pub mod endpoint;
pub mod json;
pub mod proto;
pub mod bot;

//! An SMTP server library: the SMTP grammar, the session state machine,
//! the line and mail data framing and the reply serialization.

pub mod codec;
pub mod grammar;
pub mod model;
pub mod protocol;
pub mod server;

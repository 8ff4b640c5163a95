//! The control channel of a classic file-transfer protocol: the command and
//! reply grammar with an incremental parser and a serializer, a bounded
//! framing driver that decodes messages from a live byte stream, the client's
//! connect and login state machine, and the steps of a reframing relay.
//!
//! Every parser is proved equal to the grammar written as functions on byte
//! sequences (`grammar`), and every encoder to the wire form written the same
//! way (`encoding`). `laws` proves that the two are inverse and that prefixes
//! of a message are never rejected.

pub mod bytes;
pub mod model;
pub mod grammar;
pub mod parser;
pub mod encoding;
pub mod serializer;
pub mod framing;
pub mod client;
pub mod proxy;
pub mod laws;

//! Framing, integrity checking and dispatch for a FIX counterparty simulator.
//!
//! A FIX message is a run of `tag=value` fields, each closed by the SOH byte.
//! There is no length prefix: a message is complete once its text holds a
//! checksum field (tag `10`, exactly three decimal digits, and the SOH that
//! closes the field).  The modules here cut a
//! byte stream into such messages, check the trailing checksum, read the
//! message type (tag `35`) and decide what a session sends back.

pub mod checksum;
pub mod classify;
pub mod fields;
pub mod frame;
pub mod matcher;
pub mod session;
pub mod text;
pub mod wire;

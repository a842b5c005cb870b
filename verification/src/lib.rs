//! Discovery of ONVIF network video devices over WS-Discovery: the decisions
//! of a probe session and the extraction of device records from probe-match
//! replies, each with a contract that Verus proves.

pub mod broadcast;
pub mod collect;
pub mod device;
pub mod error;
pub mod extract;
pub mod listen;
pub mod plan;
pub mod probe_match;
pub mod text;
pub mod xml;

//! Verified core of OpenEdifier: framing, decoding and the decision logic of
//! the local control protocol spoken by EDIFIER speakers.

pub mod aaec;
pub mod bridge;
pub mod cli;
pub mod device;
pub mod discovery;
pub mod facade;
pub mod text;
pub mod s260;

//! Verified core of an OpenVPN 3 status applet: the data it shows, the parser
//! for the session listing, the decisions its clients take between service
//! calls, and the applet itself as a state machine.

pub mod applet;
pub mod client;
pub mod error;
pub mod metadata;
pub mod sessions;
pub mod status;
pub mod text;
pub mod types;

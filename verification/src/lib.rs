//! A SIP bridge between a TETRA base station and an Asterisk server.
pub mod calls;
pub mod config;
pub mod dialog;
pub mod digest;
pub mod entity;
pub mod events;
pub mod fields;
pub mod ident;
pub mod laws;
pub mod media;
pub mod model;
pub mod net;
pub mod request;
pub mod setup;
pub mod signal;
pub mod sip;
pub mod station;
pub mod tables;
pub mod text;
pub mod wire;

//! The configuration of the bridge.
use vstd::prelude::*;

verus! {

/// The settings of the Asterisk link.
pub struct CfgAsterisk {
    pub enabled: bool,
    /// Whether to register with the server.
    pub register: bool,
    pub bind_addr: String,
    pub bind_port: u16,
    pub remote_host: String,
    pub remote_port: u16,
    /// The host that the bridge names in Via, Contact and SDP.
    pub contact_host: String,
    pub local_user: String,
    pub from_domain: String,
    pub auth_user: String,
    pub password: String,
    /// The realm to authenticate in when the server names none.
    pub realm: String,
    pub codec: String,
    pub ptime_ms: u32,
    pub rtp_port_min: u16,
    pub rtp_port_max: u16,
    /// What callers put before the number of a radio.
    pub inbound_prefix: String,
    /// Further hosts that may speak SIP to the bridge.
    pub allow_from: Vec<String>,
    /// The number of INVITEs that one source may send within a minute; zero for no limit.
    pub max_invites_per_minute: u32,
    pub max_pending_dialogs: usize,
    pub options_interval_secs: u64,
    pub dl_jitter_ms: u32,
}

} // verus!

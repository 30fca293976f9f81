use asterisk_bridge::config::CfgAsterisk;
use asterisk_bridge::entity::AsteriskEntity;
use asterisk_bridge::media::TdmaTime;
use asterisk_bridge::net::{IpAddr, SocketAddr};
use asterisk_bridge::setup::Arrival;
use asterisk_bridge::signal::{
    downlink_block, Action, CallControl, CallTimeout, NetworkCircuitCall, Outbox, Sap, SapMsg,
    SapMsgInner, TetraEntity,
};
use asterisk_bridge::sip::SipMessage;

const SECOND: u64 = 1_000_000_000;

fn config(register: bool) -> CfgAsterisk {
    CfgAsterisk {
        enabled: true,
        register,
        bind_addr: "0.0.0.0".to_string(),
        bind_port: 5062,
        remote_host: "pbx.local".to_string(),
        remote_port: 5060,
        contact_host: "10.0.0.2".to_string(),
        local_user: "flowstation".to_string(),
        from_domain: "pbx.local".to_string(),
        auth_user: "bridge".to_string(),
        password: "pw".to_string(),
        realm: "r".to_string(),
        codec: "PCMU".to_string(),
        ptime_ms: 20,
        rtp_port_min: 30000,
        rtp_port_max: 30003,
        inbound_prefix: "".to_string(),
        allow_from: Vec::new(),
        max_invites_per_minute: 0,
        max_pending_dialogs: 9,
        options_interval_secs: 2,
        dl_jitter_ms: 120,
    }
}

fn server() -> SocketAddr {
    SocketAddr::new(IpAddr::V4(1), 5060)
}

fn entity(register: bool) -> AsteriskEntity {
    AsteriskEntity::with_register_id(config(register), server(), Vec::new(), 0)
}

fn sent(a: &Action) -> (&str, SocketAddr, &str) {
    match a {
        Action::SendSip { payload, dest, summary } => (payload, *dest, summary),
        other => panic!("not a datagram: {:?}", other),
    }
}

fn receive(e: &mut AsteriskEntity, text: &str, now: u64) -> Vec<Action> {
    let mut out = Outbox::new();
    let at = Arrival { addr: server(), addr_text: "1.2.3.4:5060".to_string(), sdp_ip: None, now };
    let msg = SipMessage::parse(text.as_bytes()).unwrap();
    assert!(e.receive(&msg, &at, &mut out).is_none());
    out.actions
}

#[test]
fn the_bridge_starts_unregistered() {
    let e = entity(true);
    assert_eq!(e.register_call_id, "flow-reg-00000000-0000-0000-0000-000000000000@10.0.0.2");
    assert_eq!(e.entity(), TetraEntity::Asterisk);
    let s = e.refresh_status();
    assert!(s.configured && s.enabled);
    assert_eq!(s.register_status, "not registered");
    assert_eq!(s.sip_listen, "0.0.0.0:5062");
    assert_eq!(s.remote, "pbx.local:5060");
    assert_eq!(s.rtp_port_range, "30000-30003");
    assert_eq!(s.codec, "PCMU");
    assert_eq!(s.active_dialogs, 0);
    assert_eq!((s.last_rx, s.last_tx, s.last_error), (None, None, None));
}

#[test]
fn each_bridge_registers_under_its_own_call_id() {
    let a = AsteriskEntity::new(config(true), server(), Vec::new());
    let b = AsteriskEntity::new(config(true), server(), Vec::new());
    assert_ne!(a.register_call_id, b.register_call_id);
    let id = a.register_call_id.strip_prefix("flow-reg-").unwrap().strip_suffix("@10.0.0.2").unwrap();
    assert_eq!(uuid::Uuid::parse_str(id).unwrap().get_version_num(), 4);
}

#[test]
fn a_registration_is_sent() {
    let mut e = entity(true);
    let mut out = Outbox::new();
    e.send_register(5, "c", &mut out);
    let (payload, dest, summary) = sent(&out.actions[0]);
    assert_eq!(
        payload,
        "REGISTER sip:pbx.local SIP/2.0\r\n\
         Via: SIP/2.0/UDP 10.0.0.2:5062;branch=z9hG4bKflow00000001;rport\r\n\
         Max-Forwards: 70\r\n\
         From: <sip:flowstation@pbx.local>;tag=flowreg\r\n\
         To: <sip:flowstation@pbx.local>\r\n\
         Call-ID: flow-reg-00000000-0000-0000-0000-000000000000@10.0.0.2\r\n\
         CSeq: 1 REGISTER\r\n\
         Contact: <sip:flowstation@10.0.0.2:5062>\r\n\
         Expires: 120\r\n\
         User-Agent: FlowStation\r\n\
         Content-Length: 0\r\n\r\n"
    );
    assert_eq!((dest, summary), (server(), "REGISTER"));
    assert_eq!(e.register_status, "registering");
    assert_eq!(e.register_cseq, 2);
    assert_eq!(e.last_register, Some(5));
}

#[test]
fn sequence_numbers_stop_at_the_greatest() {
    let mut e = entity(true);
    e.register_cseq = u32::MAX;
    let mut out = Outbox::new();
    e.send_register(0, "", &mut out);
    assert!(sent(&out.actions[0]).0.contains("\r\nCSeq: 4294967295 REGISTER\r\n"));
    assert_eq!(e.register_cseq, u32::MAX);
}

#[test]
fn a_challenged_registration_is_repeated() {
    let mut e = entity(true);
    let mut out = Outbox::new();
    e.send_register(0, "", &mut out);
    let text = "SIP/2.0 401 U\r\nCSeq: 1 REGISTER\r\nWWW-Authenticate: Digest realm=\"a\", nonce=\"n\"\r\n\r\n";
    let actions = receive(&mut e, text, 9);
    assert_eq!(actions.len(), 1);
    let payload = sent(&actions[0]).0;
    assert!(payload.contains("\r\nCSeq: 2 REGISTER\r\n"), "{}", payload);
    let hex = |s: String| format!("{:x}", md5::compute(s));
    let response = hex(format!(
        "{}:n:{}",
        hex("bridge:a:pw".to_string()),
        hex("REGISTER:sip:pbx.local".to_string())
    ));
    assert!(
        payload.contains(&format!(
            "\r\nExpires: 120\r\nAuthorization: Digest username=\"bridge\", realm=\"a\", nonce=\"n\", \
             uri=\"sip:pbx.local\", response=\"{}\"\r\nUser-Agent: FlowStation\r\n",
            response
        )),
        "{}",
        payload
    );
    assert_eq!(e.register_status, "registering");
    assert_eq!(e.last_register, Some(9));
    assert!(receive(&mut e, "SIP/2.0 200 OK\r\nCSeq: 2 REGISTER\r\n\r\n", 10).is_empty());
    assert_eq!(e.register_status, "registered");
    // A challenge without a nonce cannot be answered.
    assert!(receive(&mut e, "SIP/2.0 407 P\r\nCSeq: 2 REGISTER\r\n\r\n", 10).is_empty());
    assert_eq!(e.register_status, "registered");
}

#[test]
fn a_failed_registration_is_noted() {
    let mut e = entity(true);
    assert!(receive(&mut e, "SIP/2.0 403 Forbidden\r\nCSeq: 1 REGISTER\r\n\r\n", 0).is_empty());
    assert_eq!(e.register_status, "failed 403");
    assert_eq!(e.last_error.as_deref(), Some("REGISTER failed with SIP 403"));
}

#[test]
fn a_bridge_that_does_not_register_says_so() {
    let mut e = entity(false);
    let mut out = Outbox::new();
    e.send_register(0, "", &mut out);
    assert!(out.actions.is_empty());
    assert_eq!(e.register_status, "disabled");
    assert_eq!(e.last_register, None);
}

#[test]
fn the_server_is_probed() {
    let mut e = entity(true);
    let mut out = Outbox::new();
    e.send_options(3, 0x10, &mut out);
    let (payload, dest, summary) = sent(&out.actions[0]);
    assert_eq!(
        payload,
        "OPTIONS sip:pbx.local SIP/2.0\r\n\
         Via: SIP/2.0/UDP 10.0.0.2:5062;branch=z9hG4bKflow00000001;rport\r\n\
         Max-Forwards: 70\r\n\
         From: <sip:flowstation@pbx.local>;tag=flowopt\r\n\
         To: <sip:pbx.local>\r\n\
         Call-ID: flow-options-00000000-0000-0000-0000-000000000010@10.0.0.2\r\n\
         CSeq: 1 OPTIONS\r\n\
         Contact: <sip:flowstation@10.0.0.2:5062>\r\n\
         Accept: application/sdp\r\n\
         Content-Length: 0\r\n\r\n"
    );
    assert_eq!((dest, summary), (server(), "OPTIONS"));
    assert_eq!(e.last_options, Some(3));
    receive(&mut e, "SIP/2.0 204 OK\r\nCSeq: 1 OPTIONS\r\n\r\n", 4);
    assert_eq!(e.last_rx.as_deref(), Some("OPTIONS 204 from 1.2.3.4:5060"));
    receive(&mut e, "SIP/2.0 500 X\r\nCSeq: 1 OPTIONS\r\n\r\n", 4);
    assert_eq!(e.last_rx.as_deref(), Some("SIP/2.0 500 X from 1.2.3.4:5060"));
}

fn periodic(e: &mut AsteriskEntity, now: u64) -> Vec<String> {
    let mut out = Outbox::new();
    e.maybe_periodic_sip(now, &mut out);
    out.actions.iter().map(|a| sent(a).2.to_string()).collect()
}

#[test]
fn registrations_and_probes_are_repeated() {
    let mut e = entity(true);
    assert_eq!(periodic(&mut e, 0), ["REGISTER", "OPTIONS"]);
    assert!(periodic(&mut e, 5 * SECOND - 1).is_empty());
    // The configured two seconds are raised to five.
    assert_eq!(periodic(&mut e, 5 * SECOND), ["OPTIONS"]);
    assert_eq!(periodic(&mut e, 60 * SECOND - 1), ["OPTIONS"]);
    assert_eq!(periodic(&mut e, 60 * SECOND), ["REGISTER"]);
    let mut quiet = entity(false);
    assert_eq!(periodic(&mut quiet, 0), ["OPTIONS"]);
    assert_eq!(quiet.register_status, "not registered");
}

#[test]
fn probes_have_call_ids_of_their_own() {
    let mut e = entity(false);
    let mut out = Outbox::new();
    e.maybe_periodic_sip(0, &mut out);
    e.maybe_periodic_sip(5 * SECOND, &mut out);
    let id = |a: &Action| {
        SipMessage::parse(sent(a).0.as_bytes()).unwrap().call_id().unwrap().to_string()
    };
    assert_ne!(id(&out.actions[0]), id(&out.actions[1]));
}

#[test]
fn branches_count_up_in_hexadecimal() {
    let mut e = entity(true);
    assert_eq!(e.next_branch(), "z9hG4bKflow00000001");
    e.branch_counter = 0xabcdef;
    assert_eq!(e.next_branch(), "z9hG4bKflow00abcdef");
    e.branch_counter = u64::MAX;
    assert_eq!(e.next_branch(), "z9hG4bKflowffffffffffffffff");
    assert_eq!(e.next_branch(), "z9hG4bKflow00000000");
}

#[test]
fn errors_are_noted() {
    let mut e = entity(true);
    e.note_sent("INVITE".to_string());
    assert_eq!(e.last_tx.as_deref(), Some("INVITE"));
    e.set_error("x".to_string());
    assert_eq!(e.refresh_status().last_error.as_deref(), Some("x"));
    e.sip_send_failed("a");
    assert_eq!(e.last_error.as_deref(), Some("SIP send failed: a"));
    e.sip_receive_failed("b");
    assert_eq!(e.last_error.as_deref(), Some("SIP receive failed: b"));
    e.rtp_send_failed(1, 2, "c");
    assert_eq!(
        e.last_error.as_deref(),
        Some("RTP send failed uuid=00000000-0000-0000-0000-000000000001 ts=2: c")
    );
    e.rtp_receive_failed(1, "d");
    assert_eq!(
        e.last_error.as_deref(),
        Some("RTP receive failed uuid=00000000-0000-0000-0000-000000000001: d")
    );
    e.voice_dropped(1, 3, 35);
    assert_eq!(
        e.last_error.as_deref(),
        Some("AsteriskEntity: dropping unsupported TETRA audio block uuid=00000000-0000-0000-0000-000000000001 ts=3 len=35")
    );
}

fn call() -> NetworkCircuitCall {
    NetworkCircuitCall {
        source_issi: 1,
        destination: 0,
        number: "1".to_string(),
        priority: 0,
        service: 0,
        mode: 0,
        duplex: 1,
        method: 0,
        communication: 0,
        grant: 0,
        permission: 0,
        timeout: CallTimeout::Infinite,
        ownership: 0,
        queued: 0,
    }
}

/// A bridge with a call from a radio that rings, with its audio at port 4000 of host 8.
fn ringing() -> AsteriskEntity {
    let mut e = entity(false);
    let mut out = Outbox::new();
    e.place_outbound_call(7, call(), "1".to_string(), Ok(30000), true, &mut out);
    let text = "SIP/2.0 183 P\r\nCSeq: 1 INVITE\r\n\
                Call-ID: flow-00000000-0000-0000-0000-000000000007@10.0.0.2\r\n\r\n\
                c=IN IP4 8.8.8.8\r\nm=audio 4000 RTP/AVP 0\r\n";
    let at = Arrival {
        addr: server(),
        addr_text: String::new(),
        sdp_ip: Some(IpAddr::V4(8)),
        now: 0,
    };
    let msg = SipMessage::parse(text.as_bytes()).unwrap();
    assert!(e.receive(&msg, &at, &mut out).is_none());
    e
}

#[test]
fn only_the_negotiated_host_is_heard() {
    let mut e = ringing();
    let peer = SocketAddr::new(IpAddr::V4(8), 4000);
    let moved = SocketAddr::new(IpAddr::V4(8), 4002);
    let stranger = SocketAddr::new(IpAddr::V4(9), 4000);
    assert!(e.accept_audio(7, 0, peer));
    assert!(!e.accept_audio(7, 8, moved));
    assert!(!e.accept_audio(7, 0, stranger));
    assert!(!e.accept_audio(6, 0, peer));
    assert_eq!(e.dialogs.get(7).unwrap().rtp.remote, Some(peer));
    assert!(e.accept_audio(7, 0, moved));
    assert_eq!(e.dialogs.get(7).unwrap().rtp.remote, Some(moved));
}

#[test]
fn talkspurts_begin_after_silence() {
    let mut e = ringing();
    assert!(e.voice_goes_out(7, 1000));
    assert!(!e.voice_goes_out(7, 1000 + SECOND / 10));
    assert!(e.voice_goes_out(7, 1001 + SECOND / 10 + SECOND / 10));
    assert!(!e.voice_goes_out(6, 0));
}

#[test]
fn audio_is_dropped_until_the_circuit_is_up() {
    let mut e = ringing();
    let tasks = e.poll_rtp(TdmaTime { t: 2, f: 1 });
    assert_eq!(tasks.len(), 1);
    assert_eq!((tasks[0].uuid, tasks[0].circuit, tasks[0].take_block), (7, None, false));
    let mut out = Outbox::new();
    e.mark_media_ready(7, 1, 5, 2, &mut out);
    let tasks = e.poll_rtp(TdmaTime { t: 2, f: 1 });
    assert_eq!((tasks[0].circuit, tasks[0].take_block), (Some((5, 2)), true));
    assert!(!e.poll_rtp(TdmaTime { t: 2, f: 18 })[0].take_block);
    assert!(!e.poll_rtp(TdmaTime { t: 1, f: 1 })[0].take_block);
}

#[test]
fn blocks_of_voice_go_to_umac() {
    match downlink_block(5, 2, vec![1, 2, 3]) {
        SapMsg {
            sap: Sap::TmdSap,
            src: TetraEntity::Asterisk,
            dest: TetraEntity::Umac,
            msg: SapMsgInner::TmdCircuitDataReq(req),
        } => assert_eq!((req.carrier_num, req.ts, req.data), (5, 2, vec![1, 2, 3])),
        other => panic!("{:?}", other),
    }
}

#[test]
fn control_goes_to_cmce() {
    let mut out = Outbox::new();
    AsteriskEntity::reject_setup(1, 2, &mut out);
    AsteriskEntity::send_setup_accept(1, &mut out);
    AsteriskEntity::send_alert(1, &mut out);
    AsteriskEntity::send_release_to_cmce(1, 3, &mut out);
    let controls: Vec<&CallControl> = out
        .actions
        .iter()
        .map(|a| match a {
            Action::Enqueue(SapMsg { msg: SapMsgInner::CmceCallControl(c), .. }) => c,
            other => panic!("{:?}", other),
        })
        .collect();
    assert!(matches!(controls[0], CallControl::NetworkCircuitSetupReject { brew_uuid: 1, cause: 2 }));
    assert!(matches!(controls[1], CallControl::NetworkCircuitSetupAccept { brew_uuid: 1 }));
    assert!(matches!(controls[2], CallControl::NetworkCircuitAlert { brew_uuid: 1 }));
    assert!(matches!(controls[3], CallControl::NetworkCircuitRelease { brew_uuid: 1, cause: 3 }));
}

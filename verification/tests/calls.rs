use asterisk_bridge::config::CfgAsterisk;
use asterisk_bridge::dialog::DialogState;
use asterisk_bridge::entity::AsteriskEntity;
use asterisk_bridge::net::{IpAddr, SocketAddr};
use asterisk_bridge::setup::{Arrival, InboundOffer};
use asterisk_bridge::signal::{
    Action, CallControl, CallTimeout, NetworkCircuitCall, Outbox, Sap, SapMsg, SapMsgInner,
    TetraEntity, TmdCircuitDataInd,
};
use asterisk_bridge::sip::SipMessage;
use asterisk_bridge::station::FollowUp;

const SECOND: u64 = 1_000_000_000;
const CALL: u128 = 0x12345678_9abc_4def_8123_456789abcdef;
const CALL_TEXT: &str = "12345678-9abc-4def-8123-456789abcdef";

fn config() -> CfgAsterisk {
    CfgAsterisk {
        enabled: true,
        register: true,
        bind_addr: "0.0.0.0".to_string(),
        bind_port: 5062,
        remote_host: "pbx.local".to_string(),
        remote_port: 5060,
        contact_host: "10.0.0.2".to_string(),
        local_user: "flowstation".to_string(),
        from_domain: "pbx.local".to_string(),
        auth_user: "bridge".to_string(),
        password: "pw".to_string(),
        realm: "r".to_string(),
        codec: "PCMU".to_string(),
        ptime_ms: 20,
        rtp_port_min: 30000,
        rtp_port_max: 30001,
        inbound_prefix: "".to_string(),
        allow_from: Vec::new(),
        max_invites_per_minute: 2,
        max_pending_dialogs: 2,
        options_interval_secs: 30,
        dl_jitter_ms: 120,
    }
}

fn ip(n: u32) -> IpAddr {
    IpAddr::V4(n)
}

fn server() -> SocketAddr {
    SocketAddr::new(ip(1), 5060)
}

fn elsewhere() -> SocketAddr {
    SocketAddr::new(ip(9), 7000)
}

fn entity_with(config: CfgAsterisk) -> AsteriskEntity {
    AsteriskEntity::with_register_id(config, server(), vec![ip(9)], 0)
}

fn entity() -> AsteriskEntity {
    entity_with(config())
}

fn message(text: &str) -> SipMessage {
    SipMessage::parse(text.as_bytes()).unwrap()
}

fn at(addr: SocketAddr, now: u64) -> Arrival {
    Arrival { addr, addr_text: "somewhere".to_string(), sdp_ip: Some(ip(77)), now }
}

fn circuit(number: &str) -> NetworkCircuitCall {
    NetworkCircuitCall {
        source_issi: 4711,
        destination: 0,
        number: number.to_string(),
        priority: 1,
        service: 2,
        mode: 3,
        duplex: 1,
        method: 4,
        communication: 5,
        grant: 6,
        permission: 7,
        timeout: CallTimeout::Coded(8),
        ownership: 9,
        queued: 10,
    }
}

fn from_cmce(control: CallControl) -> SapMsg {
    SapMsg {
        sap: Sap::Control,
        src: TetraEntity::Cmce,
        dest: TetraEntity::Asterisk,
        msg: SapMsgInner::CmceCallControl(control),
    }
}

/// Sends control from CMCE and returns what the bridge asks for.
fn control(e: &mut AsteriskEntity, c: CallControl, now: u64) -> Vec<Action> {
    let mut out = Outbox::new();
    assert!(matches!(e.rx_prim(from_cmce(c), now, &mut out), FollowUp::Done));
    out.actions
}

/// Hands a SIP message to the bridge and returns what it asks for.
fn receive(e: &mut AsteriskEntity, text: &str, addr: SocketAddr) -> (Vec<Action>, Option<InboundOffer>) {
    receive_at(e, text, addr, 0)
}

fn receive_at(
    e: &mut AsteriskEntity,
    text: &str,
    addr: SocketAddr,
    now: u64,
) -> (Vec<Action>, Option<InboundOffer>) {
    let mut out = Outbox::new();
    let offer = e.receive(&message(text), &at(addr, now), &mut out);
    (out.actions, offer)
}

fn sent(a: &Action) -> (&str, SocketAddr, &str) {
    match a {
        Action::SendSip { payload, dest, summary } => (payload, *dest, summary),
        other => panic!("not a datagram: {:?}", other),
    }
}

fn told(a: &Action) -> &CallControl {
    match a {
        Action::Enqueue(SapMsg {
            sap: Sap::Control,
            src: TetraEntity::Asterisk,
            dest: TetraEntity::Cmce,
            msg: SapMsgInner::CmceCallControl(c),
        }) => c,
        other => panic!("not call control: {:?}", other),
    }
}

/// A bridge with one call from a radio, whose INVITE has gone out.
fn calling() -> (AsteriskEntity, Vec<Action>) {
    let mut e = entity();
    let mut out = Outbox::new();
    let message = from_cmce(CallControl::NetworkCircuitSetupRequest {
        brew_uuid: CALL,
        call: circuit(" 1001 "),
    });
    match e.rx_prim(message, 0, &mut out) {
        FollowUp::Place { uuid, call, number } => {
            assert_eq!(uuid, CALL);
            assert_eq!(number, "1001");
            e.place_outbound_call(uuid, call, number, Ok(30000), true, &mut out);
        }
        _ => panic!("the call is not placed"),
    }
    (e, out.actions)
}

fn response(code: u16, cseq: &str, more: &str) -> String {
    format!(
        "SIP/2.0 {} X\r\nVia: v\r\nFrom: f\r\nTo: <sip:1001@pbx.local>;tag=as1\r\n\
         Call-ID: FLOW-{}@10.0.0.2\r\nCSeq: {}\r\n{}",
        code, CALL_TEXT, cseq, more
    )
}

const ANSWER: &str = "Contact: <sip:1001@10.0.0.9:5060>\r\n\r\nc=IN IP4 10.0.0.9\r\nm=audio 4000 RTP/AVP 0\r\n";

#[test]
fn a_radio_call_is_invited() {
    let (e, actions) = calling();
    assert_eq!(actions.len(), 2);
    assert!(matches!(told(&actions[0]), CallControl::NetworkCircuitSetupAccept { brew_uuid: CALL }));
    let (payload, dest, summary) = sent(&actions[1]);
    assert_eq!(dest, server());
    assert_eq!(summary, format!("INVITE {}", CALL_TEXT));
    let body = e.build_sdp(30000);
    assert_eq!(
        payload,
        format!(
            "INVITE sip:1001@pbx.local SIP/2.0\r\n\
             Via: SIP/2.0/UDP 10.0.0.2:5062;branch=z9hG4bKflow00000001;rport\r\n\
             Max-Forwards: 70\r\n\
             From: \"4711\" <sip:flowstation@pbx.local>;tag=flow12345678\r\n\
             To: <sip:1001@pbx.local>\r\n\
             Call-ID: flow-{}@10.0.0.2\r\n\
             CSeq: 1 INVITE\r\n\
             Contact: <sip:flowstation@10.0.0.2:5062>\r\n\
             Allow: INVITE, ACK, CANCEL, OPTIONS, BYE, INFO\r\n\
             Supported: replaces\r\n\
             P-Asserted-Identity: \"4711\" <sip:4711@pbx.local>\r\n\
             Remote-Party-ID: \"4711\" <sip:4711@pbx.local>;party=calling;screen=yes;privacy=off\r\n\
             Content-Type: application/sdp\r\n\
             Content-Length: {}\r\n\r\n{}",
            CALL_TEXT,
            body.len(),
            body
        )
    );
    let d = e.dialogs.get(CALL).unwrap();
    assert_eq!(d.state, DialogState::Inviting);
    assert_eq!(d.invite_branch, "z9hG4bKflow00000001");
    assert_eq!(d.rtp.local_port, 30000);
    assert_eq!(e.next_rtp_port, 30001);
    assert_eq!(e.pending_dialogs(), 1);
}

#[test]
fn a_caller_without_a_number_is_shown_as_the_bridge() {
    let mut e = entity();
    let mut out = Outbox::new();
    let mut call = circuit("1001");
    call.source_issi = 0;
    e.place_outbound_call(CALL, call, "1001".to_string(), Ok(30001), true, &mut out);
    let (payload, _, _) = sent(&out.actions[1]);
    assert!(payload.contains("From: \"flowstation\" <sip:flowstation@pbx.local>;tag="), "{}", payload);
    assert!(payload.contains("P-Asserted-Identity: \"flowstation\" <sip:flowstation@pbx.local>\r\n"), "{}", payload);
    // The greatest port of the range was taken, so the search begins again at the least.
    assert_eq!(e.next_rtp_port, 30000);
}

#[test]
fn a_radio_call_without_a_number_is_rejected() {
    let mut e = entity();
    let actions = control(
        &mut e,
        CallControl::NetworkCircuitSetupRequest { brew_uuid: CALL, call: circuit("  ") },
        0,
    );
    assert_eq!(actions.len(), 2);
    match &actions[0] {
        Action::Report(msg) => assert_eq!(msg, &format!("empty Asterisk destination for uuid={}", CALL_TEXT)),
        other => panic!("{:?}", other),
    }
    assert!(matches!(
        told(&actions[1]),
        CallControl::NetworkCircuitSetupReject { brew_uuid: CALL, cause: 34 }
    ));
}

#[test]
fn a_radio_call_without_port_or_codec_is_rejected() {
    let mut e = entity();
    let mut out = Outbox::new();
    let none = Err("no RTP port available".to_string());
    e.place_outbound_call(CALL, circuit("1"), "1".to_string(), none, true, &mut out);
    e.place_outbound_call(CALL, circuit("1"), "1".to_string(), Ok(30000), false, &mut out);
    assert_eq!(out.actions.len(), 4);
    assert!(matches!(&out.actions[0], Action::Report(m)
        if m == &format!("RTP allocation failed for uuid={}: no RTP port available", CALL_TEXT)));
    assert!(matches!(told(&out.actions[1]), CallControl::NetworkCircuitSetupReject { cause: 34, .. }));
    assert!(matches!(&out.actions[2], Action::Report(m)
        if m == &format!("TETRA codec allocation failed for uuid={}", CALL_TEXT)));
    assert!(matches!(told(&out.actions[3]), CallControl::NetworkCircuitSetupReject { cause: 34, .. }));
    assert!(e.dialogs.get(CALL).is_none());
    assert_eq!(e.next_rtp_port, 30001);
}

#[test]
fn trying_changes_nothing() {
    let (mut e, _) = calling();
    let (actions, offer) = receive(&mut e, &response(100, "1 INVITE", "\r\n"), server());
    assert!(actions.is_empty());
    assert!(offer.is_none());
    assert_eq!(e.last_rx.as_deref(), Some("SIP/2.0 100 X from somewhere"));
    assert_eq!(e.dialogs.get(CALL).unwrap().state, DialogState::Inviting);
}

#[test]
fn ringing_is_passed_on() {
    let (mut e, _) = calling();
    let (actions, _) = receive(&mut e, &response(183, "1 INVITE", ANSWER), server());
    assert_eq!(actions.len(), 1);
    assert!(matches!(told(&actions[0]), CallControl::NetworkCircuitAlert { brew_uuid: CALL }));
    let d = e.dialogs.get(CALL).unwrap();
    assert_eq!(d.state, DialogState::Ringing);
    assert_eq!(d.remote_tag.as_deref(), Some("as1"));
    assert_eq!(d.rtp.remote, Some(SocketAddr::new(ip(77), 4000)));
    // Without a session description the peer of the audio stays.
    receive(&mut e, &response(180, "1 INVITE", "\r\n"), server());
    assert_eq!(e.dialogs.get(CALL).unwrap().rtp.remote, Some(SocketAddr::new(ip(77), 4000)));
}

#[test]
fn an_answer_is_acknowledged_and_connected() {
    let (mut e, _) = calling();
    let (actions, _) = receive(&mut e, &response(200, "1 INVITE", ANSWER), server());
    assert_eq!(actions.len(), 2);
    let (payload, dest, summary) = sent(&actions[0]);
    assert_eq!(dest, server());
    assert_eq!(summary, format!("ACK {}", CALL_TEXT));
    assert_eq!(
        payload,
        format!(
            "ACK sip:1001@10.0.0.9:5060 SIP/2.0\r\n\
             Via: SIP/2.0/UDP 10.0.0.2:5062;branch=z9hG4bKflow00000002;rport\r\n\
             Max-Forwards: 70\r\n\
             From: <sip:flowstation@pbx.local>;tag=flow12345678\r\n\
             To: <sip:1001@pbx.local>;tag=as1\r\n\
             Call-ID: flow-{}@10.0.0.2\r\n\
             CSeq: 1 ACK\r\n\
             Contact: <sip:flowstation@10.0.0.2:5062>\r\n\
             Content-Length: 0\r\n\r\n",
            CALL_TEXT
        )
    );
    match told(&actions[1]) {
        CallControl::NetworkCircuitConnectRequest { brew_uuid, call } => {
            assert_eq!(*brew_uuid, CALL);
            assert_eq!((call.grant, call.permission), (0, 0));
            assert_eq!((call.source_issi, call.priority, call.queued), (4711, 1, 10));
            assert_eq!(call.timeout, CallTimeout::Coded(8));
        }
        other => panic!("{:?}", other),
    }
    assert_eq!(e.dialogs.get(CALL).unwrap().state, DialogState::Established);
    assert_eq!(e.pending_dialogs(), 0);
    assert_eq!(e.refresh_status().active_dialogs, 1);

    // The station hangs up: a BYE to the remote target, with the next sequence number.
    let actions = control(&mut e, CallControl::NetworkCircuitRelease { brew_uuid: CALL, cause: 0 }, 5);
    assert_eq!(actions.len(), 2);
    let (payload, dest, summary) = sent(&actions[0]);
    assert!(payload.starts_with("BYE sip:1001@10.0.0.9:5060 SIP/2.0\r\n"), "{}", payload);
    assert!(payload.contains(";branch=z9hG4bKflow00000003;"), "{}", payload);
    assert!(payload.contains("\r\nCSeq: 2 BYE\r\n"), "{}", payload);
    assert_eq!(dest, server());
    assert_eq!(summary, format!("BYE {}", CALL_TEXT));
    assert!(matches!(actions[1], Action::CloseMedia(CALL)));
    assert!(e.dialogs.get(CALL).is_none());
}

fn cancelled() -> AsteriskEntity {
    let (mut e, actions) = calling();
    let invite = message(sent(&actions[1]).0);
    control(
        &mut e,
        CallControl::NetworkCircuitMediaReady { brew_uuid: CALL, call_id: 1, carrier_num: 2, ts: 3 },
        0,
    );
    let actions = control(
        &mut e,
        CallControl::NetworkCircuitRelease { brew_uuid: CALL, cause: 0 },
        7 * SECOND,
    );
    assert_eq!(actions.len(), 1);
    let cancel = message(sent(&actions[0]).0);
    assert_eq!(cancel.method(), Some("CANCEL"));
    assert_eq!(cancel.request_uri(), invite.request_uri());
    for header in ["Via", "From", "To", "Call-ID"] {
        assert_eq!(cancel.header(header), invite.header(header));
    }
    assert_eq!(cancel.header("From"), Some("\"4711\" <sip:flowstation@pbx.local>;tag=flow12345678"));
    assert_eq!(cancel.header("CSeq"), Some("1 CANCEL"));
    assert_eq!(invite.header("CSeq"), Some("1 INVITE"));
    let d = e.dialogs.get(CALL).unwrap();
    assert_eq!(d.state, DialogState::Cancelling);
    assert_eq!(d.released_at, Some(7 * SECOND));
    assert_eq!(e.rtp_by_ts.get(2, 3), None);
    assert_eq!(e.refresh_status().active_dialogs, 0);
    e
}

#[test]
fn a_cancelled_call_waits_for_its_final_response() {
    let mut e = cancelled();
    for code in [100, 180, 183, 199] {
        assert!(receive(&mut e, &response(code, "1 INVITE", ANSWER), server()).0.is_empty());
        assert_eq!(e.dialogs.get(CALL).unwrap().state, DialogState::Cancelling);
    }
    let (actions, _) = receive(&mut e, &response(487, "1 INVITE", "\r\n"), server());
    assert_eq!(actions.len(), 2);
    let (payload, _, summary) = sent(&actions[0]);
    assert!(payload.starts_with("ACK "), "{}", payload);
    assert!(payload.contains(";branch=z9hG4bKflow00000001;"), "{}", payload);
    assert!(payload.contains("\r\nCSeq: 1 ACK\r\n"), "{}", payload);
    assert_eq!(summary, format!("ACK failure {}", CALL_TEXT));
    assert!(matches!(actions[1], Action::CloseMedia(CALL)));
    assert!(e.dialogs.get(CALL).is_none());
}

#[test]
fn an_answer_that_raced_the_cancel_is_hung_up() {
    let mut e = cancelled();
    let (actions, _) = receive(&mut e, &response(200, "1 INVITE", ANSWER), server());
    assert_eq!(actions.len(), 3);
    assert!(sent(&actions[0]).0.starts_with("ACK sip:1001@10.0.0.9:5060 "));
    let bye = sent(&actions[1]).0;
    assert!(bye.starts_with("BYE sip:1001@10.0.0.9:5060 "), "{}", bye);
    assert!(bye.contains("\r\nTo: <sip:1001@pbx.local>;tag=as1\r\n"), "{}", bye);
    assert!(matches!(actions[2], Action::CloseMedia(CALL)));
    assert!(e.dialogs.get(CALL).is_none());
}

#[test]
fn a_challenge_to_a_cancelled_call_ends_it() {
    let mut e = cancelled();
    let (actions, _) = receive(&mut e, &response(401, "1 INVITE", "WWW-Authenticate: nonce=1\r\n"), server());
    assert_eq!(actions.len(), 2);
    assert_eq!(sent(&actions[0]).2, format!("ACK auth {}", CALL_TEXT));
    assert!(matches!(actions[1], Action::CloseMedia(CALL)));
}

#[test]
fn a_hangup_of_a_cancelled_call_is_not_told_again() {
    let mut e = cancelled();
    let bye = format!(
        "BYE sip:x SIP/2.0\r\nVia: v\r\nFrom: f\r\nTo: t\r\nCall-ID: flow-{}@10.0.0.2\r\nCSeq: 2 BYE\r\n\r\n",
        CALL_TEXT
    );
    let (actions, _) = receive(&mut e, &bye, server());
    assert_eq!(actions.len(), 2);
    assert_eq!(sent(&actions[0]).2, "200 OK");
    assert!(matches!(actions[1], Action::CloseMedia(CALL)));
}

#[test]
fn a_cancelled_call_is_reaped_in_the_end() {
    let mut e = cancelled();
    let mut out = Outbox::new();
    e.maybe_periodic_sip(39 * SECOND - 1, &mut out);
    assert!(e.dialogs.get(CALL).is_some());
    let mut out = Outbox::new();
    e.maybe_periodic_sip(39 * SECOND, &mut out);
    assert!(e.dialogs.get(CALL).is_none());
    assert!(matches!(out.actions[0], Action::CloseMedia(CALL)));
}

#[test]
fn a_challenge_is_answered_once() {
    let (mut e, _) = calling();
    let challenge = "Proxy-Authenticate: Digest realm=\"a\", nonce=\"n\", qop=\"auth\"\r\n\r\n";
    let (actions, _) = receive(&mut e, &response(407, "1 INVITE", challenge), server());
    assert_eq!(actions.len(), 2);
    let (ack, _, summary) = sent(&actions[0]);
    assert_eq!(summary, format!("ACK auth {}", CALL_TEXT));
    assert!(ack.contains(";branch=z9hG4bKflow00000001;"), "{}", ack);
    assert!(ack.contains("\r\nCSeq: 1 ACK\r\n"), "{}", ack);
    assert!(ack.contains("\r\nTo: <sip:1001@pbx.local>;tag=as1\r\n"), "{}", ack);
    let (invite, _, summary) = sent(&actions[1]);
    assert_eq!(summary, format!("INVITE {}", CALL_TEXT));
    assert!(invite.contains(";branch=z9hG4bKflow00000002;"), "{}", invite);
    assert!(invite.contains("\r\nCSeq: 2 INVITE\r\n"), "{}", invite);
    assert!(invite.contains("\r\nProxy-Authorization: Digest username=\"bridge\", realm=\"a\", nonce=\"n\", uri=\"sip:1001@pbx.local\", response=\""), "{}", invite);

    let (actions, _) = receive(&mut e, &response(407, "2 INVITE", challenge), server());
    assert_eq!(actions.len(), 1);
    let (ack, _, _) = sent(&actions[0]);
    assert!(ack.contains(";branch=z9hG4bKflow00000002;"), "{}", ack);
    assert!(ack.contains("\r\nCSeq: 2 ACK\r\n"), "{}", ack);
    assert_eq!(e.dialogs.get(CALL).unwrap().cseq, 2);
}

#[test]
fn a_challenge_without_nonce_is_only_acknowledged() {
    let (mut e, _) = calling();
    let (actions, _) = receive(&mut e, &response(401, "1 INVITE", "\r\n"), server());
    assert_eq!(actions.len(), 1);
    assert!(!e.dialogs.get(CALL).unwrap().auth_retry_sent);
}

#[test]
fn a_failed_call_is_released() {
    let (mut e, _) = calling();
    let (actions, _) = receive(&mut e, &response(603, "1 INVITE", "\r\n"), server());
    assert_eq!(actions.len(), 4);
    assert_eq!(sent(&actions[0]).2, format!("ACK failure {}", CALL_TEXT));
    assert!(matches!(&actions[1], Action::Report(m)
        if m == &format!("INVITE uuid={} failed with SIP 603", CALL_TEXT)));
    assert!(matches!(
        told(&actions[2]),
        CallControl::NetworkCircuitRelease { brew_uuid: CALL, cause: 34 }
    ));
    assert!(matches!(actions[3], Action::CloseMedia(CALL)));
    assert!(e.dialogs.get(CALL).is_none());
}

#[test]
fn codes_beyond_the_known_ones_are_ignored() {
    let (mut e, _) = calling();
    for code in [0, 101, 181, 199, 700, 65535] {
        assert!(receive(&mut e, &response(code, "1 INVITE", "\r\n"), server()).0.is_empty());
    }
    for cseq in ["1 BYE", "1 CANCEL", "1 INFO", "1"] {
        assert!(receive(&mut e, &response(486, cseq, "\r\n"), server()).0.is_empty());
    }
    assert!(e.dialogs.get(CALL).is_some());
}

#[test]
fn responses_without_a_known_call_are_ignored() {
    let (mut e, _) = calling();
    let other = response(200, "1 INVITE", ANSWER).replace("FLOW-", "OTHER-");
    assert!(receive(&mut e, &other, server()).0.is_empty());
    assert!(receive(&mut e, "SIP/2.0 200 OK\r\nCSeq: 1 INVITE\r\n\r\n", server()).0.is_empty());
    assert!(receive(&mut e, "SIP/2.0 x\r\nCSeq: 1 INVITE\r\n\r\n", server()).0.is_empty());
}

fn invite(call_id: &str, user: &str, body: &str) -> String {
    format!(
        "INVITE sip:{}@10.0.0.2 SIP/2.0\r\nVia: v1\r\nFrom: \"X\" <sip:55@pbx.local>;tag=ft\r\n\
         To: <sip:{}@10.0.0.2>\r\nCall-ID: {}\r\nCSeq: 3 INVITE\r\n\
         Contact: <sip:55@10.0.0.8>\r\n\r\n{}",
        user, user, call_id, body
    )
}

const OFFER: &str = "c=IN IP4 10.0.0.8\r\nm=audio 5000 RTP/AVP 0\r\n";

/// A bridge with one call from the network.
fn called() -> (AsteriskEntity, Vec<Action>) {
    let mut e = entity();
    let (actions, offer) = receive(&mut e, &invite("c1", "4711", OFFER), elsewhere());
    assert!(actions.is_empty());
    let mut out = Outbox::new();
    e.accept_inbound_call_as(offer.unwrap(), Ok(30000), true, CALL, &mut out);
    (e, out.actions)
}

#[test]
fn a_network_call_is_announced() {
    let (e, actions) = called();
    assert_eq!(actions.len(), 2);
    let (payload, dest, summary) = sent(&actions[0]);
    assert_eq!(
        payload,
        "SIP/2.0 100 Trying\r\nVia: v1\r\nFrom: \"X\" <sip:55@pbx.local>;tag=ft\r\n\
         To: <sip:4711@10.0.0.2>\r\nCall-ID: c1\r\nCSeq: 3 INVITE\r\nContent-Length: 0\r\n\r\n"
    );
    assert_eq!(dest, elsewhere());
    assert_eq!(summary, format!("100 Trying {}", CALL_TEXT));
    match told(&actions[1]) {
        CallControl::NetworkCircuitSetupRequest { brew_uuid, call } => {
            assert_eq!(*brew_uuid, CALL);
            assert_eq!((call.source_issi, call.destination), (0, 4711));
            assert_eq!(call.number, "55");
            assert_eq!((call.duplex, call.priority, call.grant), (1, 0, 0));
            assert_eq!(call.timeout, CallTimeout::Infinite);
        }
        other => panic!("{:?}", other),
    }
    let d = e.dialogs.get(CALL).unwrap();
    assert!(d.inbound);
    assert_eq!(d.rtp.remote, Some(SocketAddr::new(ip(77), 5000)));
    assert_eq!(d.remote_tag.as_deref(), Some("ft"));
    assert_eq!(d.remote_target.as_deref(), Some("sip:55@10.0.0.8"));
    assert_eq!(d.local_tag, "flow12345678");
    assert_eq!(d.call_id_header, "c1");
}

#[test]
fn a_network_call_gets_a_fresh_uuid() {
    let mut e = entity();
    let (_, offer) = receive(&mut e, &invite("c1", "4711", OFFER), elsewhere());
    let mut out = Outbox::new();
    let uuid = e.accept_inbound_call(offer.unwrap(), Ok(30000), true, &mut out).unwrap();
    assert_eq!(uuid::Uuid::from_u128(uuid).get_version_num(), 4);
    assert!(e.dialogs.get(uuid).is_some());
    let mut other = entity();
    let (_, offer) = receive(&mut other, &invite("c1", "4711", OFFER), elsewhere());
    let mut out = Outbox::new();
    assert_eq!(other.accept_inbound_call(offer.unwrap(), Ok(30000), false, &mut out), None);
}

#[test]
fn a_network_call_rings_and_is_answered() {
    let (mut e, _) = called();
    assert!(control(&mut e, CallControl::NetworkCircuitSetupAccept { brew_uuid: CALL }, 0).is_empty());
    let actions = control(&mut e, CallControl::NetworkCircuitAlert { brew_uuid: CALL }, 0);
    assert_eq!(actions.len(), 1);
    let (payload, dest, summary) = sent(&actions[0]);
    assert!(payload.starts_with("SIP/2.0 180 Ringing\r\n"), "{}", payload);
    assert!(payload.contains("\r\nTo: <sip:4711@10.0.0.2>;tag=flow12345678\r\n"), "{}", payload);
    assert_eq!(dest, elsewhere());
    assert_eq!(summary, format!("180 Ringing {}", CALL_TEXT));
    assert_eq!(e.dialogs.get(CALL).unwrap().state, DialogState::Ringing);

    let actions = control(
        &mut e,
        CallControl::NetworkCircuitConnectRequest { brew_uuid: CALL, call: circuit("2") },
        0,
    );
    assert_eq!(actions.len(), 2);
    let (payload, _, summary) = sent(&actions[0]);
    assert!(payload.starts_with("SIP/2.0 200 OK\r\n"), "{}", payload);
    assert!(payload.contains("\r\nContent-Type: application/sdp\r\n"), "{}", payload);
    assert!(payload.ends_with(&e.build_sdp(30000)), "{}", payload);
    assert_eq!(summary, format!("200 OK {}", CALL_TEXT));
    assert!(matches!(
        told(&actions[1]),
        CallControl::NetworkCircuitConnectConfirm { brew_uuid: CALL, grant: 0, permission: 0 }
    ));
    let d = e.dialogs.get(CALL).unwrap();
    assert_eq!(d.state, DialogState::Established);
    assert_eq!(d.call.number, "2");

    // The station hangs up: a BYE to where the INVITE came from.
    let actions = control(&mut e, CallControl::NetworkCircuitRelease { brew_uuid: CALL, cause: 0 }, 0);
    let (payload, dest, _) = sent(&actions[0]);
    assert!(payload.starts_with("BYE sip:55@10.0.0.8 SIP/2.0\r\n"), "{}", payload);
    assert!(payload.contains("\r\nTo: <sip:55@pbx.local>;tag=ft\r\n"), "{}", payload);
    assert_eq!(dest, elsewhere());
}

#[test]
fn a_network_call_that_the_station_ends_early_is_refused() {
    let (mut e, _) = called();
    let actions = control(&mut e, CallControl::NetworkCircuitRelease { brew_uuid: CALL, cause: 0 }, 0);
    assert_eq!(actions.len(), 2);
    let (payload, dest, summary) = sent(&actions[0]);
    assert!(payload.starts_with("SIP/2.0 480 Temporarily Unavailable\r\n"), "{}", payload);
    assert_eq!(dest, elsewhere());
    assert_eq!(summary, format!("480 Temporarily Unavailable {}", CALL_TEXT));
    assert!(matches!(actions[1], Action::CloseMedia(CALL)));
    assert!(e.dialogs.get(CALL).is_none());
}

#[test]
fn causes_of_rejection_become_statuses() {
    for (cause, status) in [
        (2, "486 Busy Here"),
        (3, "404 Not Found"),
        (5, "503 Service Unavailable"),
        (0, "480 Temporarily Unavailable"),
        (255, "480 Temporarily Unavailable"),
    ] {
        let (mut e, _) = called();
        let actions = control(&mut e, CallControl::NetworkCircuitSetupReject { brew_uuid: CALL, cause }, 0);
        assert_eq!(actions.len(), 2);
        assert!(sent(&actions[0]).0.starts_with(&format!("SIP/2.0 {}\r\n", status)));
        assert_eq!(sent(&actions[0]).2, format!("{} {}", status, CALL_TEXT));
        assert!(e.dialogs.get(CALL).is_none());
    }
}

#[test]
fn what_is_meant_for_network_calls_leaves_radio_calls_alone() {
    let (mut e, _) = calling();
    for c in [
        CallControl::NetworkCircuitSetupReject { brew_uuid: CALL, cause: 2 },
        CallControl::NetworkCircuitAlert { brew_uuid: CALL },
        CallControl::NetworkCircuitConnectRequest { brew_uuid: CALL, call: circuit("2") },
        CallControl::NetworkCircuitConnectConfirm { brew_uuid: CALL, grant: 1, permission: 1 },
        CallControl::NetworkCircuitDtmf { brew_uuid: CALL, data: vec![1] },
        CallControl::NetworkCircuitRelease { brew_uuid: 1, cause: 0 },
        CallControl::NetworkCircuitMediaReady { brew_uuid: 1, call_id: 1, carrier_num: 1, ts: 1 },
    ] {
        assert!(control(&mut e, c, 0).is_empty());
    }
    assert_eq!(e.dialogs.get(CALL).unwrap().state, DialogState::Inviting);
    assert!(!e.handle_inbound_setup_accept(CALL));
}

#[test]
fn invites_are_refused_for_what_they_lack() {
    let mut c = config();
    c.max_invites_per_minute = 0;
    let mut e = entity_with(c);
    let (actions, offer) = receive(&mut e, &invite("c1", "nobody", OFFER), elsewhere());
    assert!(offer.is_none());
    assert_eq!(actions.len(), 1);
    let (payload, dest, summary) = sent(&actions[0]);
    assert_eq!(
        payload,
        "SIP/2.0 404 Not Found\r\nVia: v1\r\nFrom: \"X\" <sip:55@pbx.local>;tag=ft\r\n\
         To: <sip:nobody@10.0.0.2>;tag=flowstation\r\nCall-ID: c1\r\nCSeq: 3 INVITE\r\n\
         Contact: <sip:flowstation@10.0.0.2:5062>\r\n\
         Allow: INVITE, ACK, CANCEL, OPTIONS, BYE, INFO\r\nContent-Length: 0\r\n\r\n"
    );
    assert_eq!(dest, elsewhere());
    assert_eq!(summary, "404 Not Found");
    let (actions, offer) = receive(&mut e, &invite("c1", "4711", ""), elsewhere());
    assert!(offer.is_none());
    assert_eq!(sent(&actions[0]).2, "488 Not Acceptable Here");
    // Without the headers that a response repeats there is no response.
    let (actions, offer) = receive(&mut e, "INVITE sip:4711@h SIP/2.0\r\nVia: v\r\n\r\n", elsewhere());
    assert!(offer.is_none());
    assert!(actions.is_empty());
}

#[test]
fn a_duplicate_invite_is_refused() {
    let (mut e, _) = called();
    let (actions, offer) = receive(&mut e, &invite("C1", "4712", OFFER), elsewhere());
    assert!(offer.is_none());
    assert_eq!(sent(&actions[0]).2, "486 Busy Here");
}

#[test]
fn too_many_pending_calls_are_refused() {
    let mut c = config();
    c.max_pending_dialogs = 1;
    c.max_invites_per_minute = 0;
    let mut e = entity_with(c);
    let (_, offer) = receive(&mut e, &invite("c1", "4711", OFFER), elsewhere());
    let mut out = Outbox::new();
    e.accept_inbound_call_as(offer.unwrap(), Ok(30000), true, CALL, &mut out);
    let (actions, offer) = receive(&mut e, &invite("c2", "4712", OFFER), elsewhere());
    assert!(offer.is_none());
    assert_eq!(sent(&actions[0]).2, "486 Busy Here");
    control(&mut e, CallControl::NetworkCircuitConnectRequest { brew_uuid: CALL, call: circuit("") }, 0);
    assert!(receive(&mut e, &invite("c2", "4712", OFFER), elsewhere()).1.is_some());
}

#[test]
fn invites_are_limited_by_the_minute() {
    let mut e = entity();
    for n in 0..2 {
        assert!(receive_at(&mut e, &invite("c", "4711", OFFER), elsewhere(), n).1.is_some());
    }
    let (actions, offer) = receive_at(&mut e, &invite("c", "4711", OFFER), elsewhere(), 60 * SECOND - 1);
    assert!(offer.is_none());
    assert_eq!(sent(&actions[0]).2, "503 Service Unavailable");
    // Another source has a count of its own, and a minute later the first begins again.
    assert!(receive_at(&mut e, &invite("c", "4711", OFFER), server(), 60 * SECOND - 1).1.is_some());
    assert!(receive_at(&mut e, &invite("c", "4711", OFFER), elsewhere(), 60 * SECOND).1.is_some());
}

#[test]
fn an_offer_without_port_or_codec_is_refused() {
    let mut e = entity();
    let (_, offer) = receive(&mut e, &invite("c1", "4711", OFFER), elsewhere());
    let mut out = Outbox::new();
    e.accept_inbound_call_as(offer.unwrap(), Err("no RTP port available".to_string()), true, CALL, &mut out);
    assert_eq!(out.actions.len(), 2);
    assert!(matches!(&out.actions[0], Action::Report(m)
        if m == "RTP allocation failed for inbound INVITE to 4711: no RTP port available"));
    assert_eq!(sent(&out.actions[1]).2, "503 Service Unavailable");
    assert_eq!(e.next_rtp_port, 30000);
    let (_, offer) = receive(&mut e, &invite("c1", "4711", OFFER), elsewhere());
    let mut out = Outbox::new();
    e.accept_inbound_call_as(offer.unwrap(), Ok(30000), false, CALL, &mut out);
    assert!(matches!(&out.actions[0], Action::Report(m)
        if m == "TETRA codec allocation failed for inbound Asterisk call"));
    assert_eq!(sent(&out.actions[1]).2, "503 Service Unavailable");
    assert_eq!(e.next_rtp_port, 30001);
    assert!(e.dialogs.get(CALL).is_none());
}

fn request(method: &str, call_id: &str) -> String {
    format!(
        "{} sip:x SIP/2.0\r\nVia: v\r\nFrom: f\r\nTo: t\r\nCall-ID: {}\r\nCSeq: 9 {}\r\n\r\n",
        method, call_id, method
    )
}

#[test]
fn the_peer_hangs_up() {
    for method in ["BYE", "CANCEL"] {
        let (mut e, _) = called();
        let (actions, _) = receive(&mut e, &request(method, "c1"), elsewhere());
        assert_eq!(actions.len(), 3);
        assert_eq!(sent(&actions[0]).2, "200 OK");
        assert!(matches!(
            told(&actions[1]),
            CallControl::NetworkCircuitRelease { brew_uuid: CALL, cause: 16 }
        ));
        assert!(matches!(actions[2], Action::CloseMedia(CALL)));
        assert!(e.dialogs.get(CALL).is_none());
    }
    let mut e = entity();
    let (actions, _) = receive(&mut e, &request("BYE", "unknown"), elsewhere());
    assert_eq!(actions.len(), 1);
    assert_eq!(sent(&actions[0]).2, "200 OK");
}

#[test]
fn other_requests_are_answered() {
    let mut e = entity();
    assert!(receive(&mut e, &request("ACK", "c1"), server()).0.is_empty());
    let (actions, _) = receive(&mut e, &request("OPTIONS", "c1"), server());
    assert_eq!(sent(&actions[0]).2, "200 OK");
    let (actions, _) = receive(&mut e, &request("INFO", "c1"), server());
    assert_eq!(sent(&actions[0]).2, "501 Not Implemented");
    assert!(sent(&actions[0]).0.contains("\r\nTo: t;tag=flowstation\r\n"));
}

#[test]
fn only_known_hosts_may_speak() {
    let e = entity();
    let bytes = b"OPTIONS sip:x SIP/2.0\r\n\r\n";
    assert!(e.screen_datagram(bytes, SocketAddr::new(ip(1), 9999)).is_some());
    assert!(e.screen_datagram(bytes, elsewhere()).is_some());
    assert!(e.screen_datagram(bytes, SocketAddr::new(ip(2), 5060)).is_none());
    assert!(e.screen_datagram(b"", server()).is_none());
}

#[test]
fn voice_is_routed_by_timeslot() {
    let (mut e, _) = called();
    let voice = |ts: u8| SapMsg {
        sap: Sap::TmdSap,
        src: TetraEntity::Umac,
        dest: TetraEntity::Asterisk,
        msg: SapMsgInner::TmdCircuitDataInd(TmdCircuitDataInd { carrier_num: 5, ts, data: vec![1, 2] }),
    };
    let mut out = Outbox::new();
    assert!(matches!(e.rx_prim(voice(2), 0, &mut out), FollowUp::Done));
    let actions = control(
        &mut e,
        CallControl::NetworkCircuitMediaReady { brew_uuid: CALL, call_id: 1, carrier_num: 5, ts: 2 },
        0,
    );
    assert!(matches!(actions[..], [Action::ResetDownlink(CALL)]));
    match e.rx_prim(voice(2), 0, &mut out) {
        FollowUp::Voice { uuid, remote, ts, data } => {
            assert_eq!((uuid, remote, ts), (CALL, SocketAddr::new(ip(77), 5000), 2));
            assert_eq!(data, vec![1, 2]);
        }
        _ => panic!("the voice goes nowhere"),
    }
    assert!(matches!(e.rx_prim(voice(3), 0, &mut out), FollowUp::Done));
    assert!(out.actions.is_empty());
    control(&mut e, CallControl::NetworkCircuitRelease { brew_uuid: CALL, cause: 0 }, 0);
    assert!(matches!(e.rx_prim(voice(2), 0, &mut out), FollowUp::Done));
}

#[test]
fn calls_do_not_disturb_each_other() {
    let (mut e, _) = calling();
    let mut out = Outbox::new();
    e.place_outbound_call(2, circuit("1002"), "1002".to_string(), Ok(30001), true, &mut out);
    let ids: Vec<String> = [CALL, 2]
        .iter()
        .map(|u| e.dialogs.get(*u).unwrap().call_id_header.clone())
        .collect();
    assert_ne!(ids[0].to_lowercase(), ids[1].to_lowercase());
    assert_eq!(e.find_dialog_by_call_id(Some(&ids[0].to_uppercase())), Some(CALL));
    assert_eq!(e.find_dialog_by_call_id(Some(&ids[1])), Some(2));
    assert_eq!(e.find_dialog_by_call_id(Some("flow")), None);
    assert_eq!(e.find_dialog_by_call_id(None), None);
    receive(&mut e, &response(200, "1 INVITE", ANSWER), server());
    assert_eq!(e.dialogs.get(CALL).unwrap().state, DialogState::Established);
    let other = e.dialogs.get(2).unwrap();
    assert_eq!(other.state, DialogState::Inviting);
    assert_eq!(other.invite_branch, "z9hG4bKflow00000002");
    assert_eq!(other.rtp.remote, None);
    receive(&mut e, &response(486, "1 INVITE", "\r\n"), server());
    assert!(e.dialogs.get(CALL).is_none());
    assert!(e.dialogs.get(2).is_some());
}

#[test]
fn several_cancelled_calls_are_reaped_together() {
    let mut e = entity();
    let mut out = Outbox::new();
    for uuid in 1..=3u128 {
        e.place_outbound_call(uuid, circuit("1"), "1".to_string(), Ok(30000), true, &mut out);
        e.mark_media_ready(uuid, 1, 9, uuid as u8, &mut out);
        e.release_dialog(uuid, true, 0, &mut out);
        e.mark_media_ready(uuid, 1, 9, uuid as u8, &mut out);
    }
    e.place_outbound_call(4, circuit("1"), "1".to_string(), Ok(30000), true, &mut out);
    e.mark_media_ready(4, 1, 9, 4, &mut out);
    let mut out = Outbox::new();
    e.run_periodic_sip(32 * SECOND, "", 0, &mut out);
    let mut closed: Vec<u128> = out
        .actions
        .iter()
        .filter_map(|a| match a {
            Action::CloseMedia(uuid) => Some(*uuid),
            _ => None,
        })
        .collect();
    closed.sort();
    assert_eq!(closed, vec![1, 2, 3]);
    for ts in 1..=3 {
        assert_eq!(e.rtp_by_ts.get(9, ts), None);
    }
    assert_eq!(e.rtp_by_ts.get(9, 4), Some(4));
    assert!(e.dialogs.get(4).is_some());
}

#[test]
fn an_invite_is_read_back_with_its_offer() {
    let (e, actions) = calling();
    let invite = message(sent(&actions[1]).0);
    assert_eq!(invite.method(), Some("INVITE"));
    assert_eq!(invite.request_uri(), Some("sip:1001@pbx.local"));
    assert_eq!(invite.header("Contact"), Some("<sip:flowstation@10.0.0.2:5062>"));
    assert_eq!(AsteriskEntity::inbound_caller_number(&invite), "4711");
    assert_eq!(e.inbound_destination_issi(&invite), Some(1001));
    assert_eq!(asterisk_bridge::media::sdp_connection_host(&invite.body).as_deref(), Some("10.0.0.2"));
    assert_eq!(e.parse_sdp_remote(&invite.body, None), Some(SocketAddr::new(ip(1), 30000)));
    let raw = e.build_sdp(30000);
    assert_eq!(e.parse_sdp_remote(&raw, Some(ip(3))), Some(SocketAddr::new(ip(3), 30000)));
}

#[test]
fn a_bye_is_read_back() {
    let (mut e, _) = calling();
    receive(&mut e, &response(200, "1 INVITE", ANSWER), server());
    let actions = control(&mut e, CallControl::NetworkCircuitRelease { brew_uuid: CALL, cause: 0 }, 0);
    let bye = message(sent(&actions[0]).0);
    assert_eq!(bye.method(), Some("BYE"));
    assert_eq!(bye.request_uri(), Some("sip:1001@10.0.0.9:5060"));
    assert_eq!(bye.header("CSeq"), Some("2 BYE"));
    assert_eq!(bye.header("To"), Some("<sip:1001@pbx.local>;tag=as1"));
    assert_eq!(bye.call_id().unwrap(), format!("flow-{}@10.0.0.2", CALL_TEXT));
}

#[test]
fn an_answer_without_contact_is_acknowledged_where_the_invite_went() {
    let (mut e, _) = calling();
    let (actions, _) = receive(&mut e, &response(200, "1 INVITE", "\r\n"), server());
    assert!(sent(&actions[0]).0.starts_with("ACK sip:1001@pbx.local SIP/2.0\r\n"));
}

#[test]
fn a_cancel_after_ringing_still_has_the_from_of_its_invite() {
    let (mut e, actions) = calling();
    let invite = message(sent(&actions[1]).0);
    receive(&mut e, &response(180, "1 INVITE", ANSWER), server());
    let actions = control(&mut e, CallControl::NetworkCircuitRelease { brew_uuid: CALL, cause: 0 }, 0);
    let cancel = message(sent(&actions[0]).0);
    assert_eq!(cancel.method(), Some("CANCEL"));
    assert_eq!(cancel.header("From"), invite.header("From"));
    assert_eq!(cancel.header("To"), Some("<sip:1001@pbx.local>"));
}

#[test]
fn an_accepted_invite_leaves_the_other_calls_alone() {
    let (mut e, _) = calling();
    let (_, offer) = receive(&mut e, &invite("c1", "4711", OFFER), elsewhere());
    let mut out = Outbox::new();
    e.accept_inbound_call_as(offer.unwrap(), Ok(30001), true, 5, &mut out);
    assert_eq!(e.pending_dialogs(), 2);
    let d = e.dialogs.get(CALL).unwrap();
    assert_eq!(d.invite_branch, "z9hG4bKflow00000001");
    assert_eq!(d.state, DialogState::Inviting);
    assert_ne!(d.call_id_header.to_lowercase(), e.dialogs.get(5).unwrap().call_id_header.to_lowercase());
    // Two calls are pending, which is the limit: a third is not offered.
    assert!(receive(&mut e, &invite("c2", "4711", OFFER), server()).1.is_none());
    assert_eq!(e.pending_dialogs(), 2);
}

#[test]
fn sources_are_counted_apart_in_both_families() {
    let mut e = entity();
    let v6 = SocketAddr::new(IpAddr::V6(9), 7000);
    for _ in 0..2 {
        assert!(e.invite_rate_ok(elsewhere(), 0));
        assert!(e.invite_rate_ok(v6, 30 * SECOND));
    }
    assert!(!e.invite_rate_ok(elsewhere(), 1));
    assert!(!e.invite_rate_ok(v6, 31 * SECOND));
    // Two minutes after it began, the count of the one is forgotten and that of the other is not.
    e.invite_rate.prune(120 * SECOND);
    assert!(e.invite_rate_ok(elsewhere(), 1));
    assert!(!e.invite_rate_ok(v6, 31 * SECOND));
}

#[test]
fn an_invite_under_the_number_of_a_call_changes_no_other() {
    let (mut e, _) = calling();
    e.config.max_pending_dialogs = 3;
    let mut out = Outbox::new();
    for (id, uuid) in [("c1", 5), ("c2", 5)] {
        let (_, offer) = receive(&mut e, &invite(id, "4711", OFFER), elsewhere());
        e.accept_inbound_call_as(offer.unwrap(), Ok(30001), true, uuid, &mut out);
        assert_eq!(e.pending_dialogs(), 2);
        assert_eq!(e.dialogs.get(uuid).unwrap().call_id_header, id);
        assert_eq!(e.dialogs.get(CALL).unwrap().invite_branch, "z9hG4bKflow00000001");
    }
}

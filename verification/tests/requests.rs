use asterisk_bridge::config::CfgAsterisk;
use asterisk_bridge::digest::{authorize, DigestChallenge};
use asterisk_bridge::entity::AsteriskEntity;
use asterisk_bridge::fields::SipRequestContext;
use asterisk_bridge::net::{IpAddr, SocketAddr};
use asterisk_bridge::request::{build_teardown_request, TeardownParams};
use asterisk_bridge::sip::SipMessage;

fn config() -> CfgAsterisk {
    CfgAsterisk {
        enabled: true,
        register: true,
        bind_addr: "0.0.0.0".to_string(),
        bind_port: 5062,
        remote_host: "pbx.local".to_string(),
        remote_port: 5060,
        contact_host: "10.0.0.2".to_string(),
        local_user: "flowstation".to_string(),
        from_domain: "pbx.local".to_string(),
        auth_user: "Mufasa".to_string(),
        password: "Circle Of Life".to_string(),
        realm: "fallback".to_string(),
        codec: "PCMU".to_string(),
        ptime_ms: 20,
        rtp_port_min: 30000,
        rtp_port_max: 30010,
        inbound_prefix: "7".to_string(),
        allow_from: Vec::new(),
        max_invites_per_minute: 0,
        max_pending_dialogs: 4,
        options_interval_secs: 30,
        dl_jitter_ms: 120,
    }
}

fn server() -> SocketAddr {
    SocketAddr::new(IpAddr::V4(0x0a000001), 5060)
}

fn entity() -> AsteriskEntity {
    AsteriskEntity::with_register_id(config(), server(), Vec::new(), 0)
}

fn params(cancel: bool) -> TeardownParams<'static> {
    TeardownParams {
        cancel,
        invite_uri: "sip:1001@pbx.local",
        remote_target: Some("sip:1001@10.0.0.9:5060"),
        via_host: "10.0.0.2",
        via_port: 5062,
        invite_branch: "z9hG4bKflow00000001",
        fresh_branch: "z9hG4bKflow00000009",
        from_uri: "sip:flowstation@pbx.local",
        local_tag: "flowabcd",
        remote_tag: Some("as1234"),
        call_id: "flow-uuid@10.0.0.2",
        invite_cseq: 2,
        contact: "sip:flowstation@10.0.0.2:5062",
    }
}

#[test]
fn cancel_stays_inside_the_invite_transaction() {
    let request = build_teardown_request(&params(true));
    assert!(request.starts_with("CANCEL sip:1001@pbx.local SIP/2.0\r\n"), "{}", request);
    assert!(request.contains("branch=z9hG4bKflow00000001;"), "{}", request);
    assert!(request.contains("\r\nCSeq: 2 CANCEL\r\n"), "{}", request);
    // RFC 3261 section 9.1: To is copied from the INVITE, which went out untagged.
    assert!(request.contains("\r\nTo: <sip:1001@pbx.local>\r\n"), "{}", request);
    assert!(!request.contains("Contact:"), "{}", request);
}

#[test]
fn bye_opens_a_new_transaction_towards_the_remote_target() {
    let request = build_teardown_request(&params(false));
    assert!(request.starts_with("BYE sip:1001@10.0.0.9:5060 SIP/2.0\r\n"), "{}", request);
    assert!(request.contains("branch=z9hG4bKflow00000009;"), "{}", request);
    assert!(request.contains("\r\nCSeq: 3 BYE\r\n"), "{}", request);
    assert!(request.contains("\r\nFrom: <sip:flowstation@pbx.local>;tag=flowabcd\r\n"), "{}", request);
    assert!(request.contains("\r\nTo: <sip:1001@pbx.local>;tag=as1234\r\n"), "{}", request);
}

#[test]
fn contact_uri_is_unwrapped_from_angle_brackets() {
    assert_eq!(
        AsteriskEntity::parse_contact_uri(Some("<sip:1001@10.0.0.9:5060>;expires=60")).as_deref(),
        Some("sip:1001@10.0.0.9:5060")
    );
    assert_eq!(
        AsteriskEntity::parse_contact_uri(Some("sip:1001@10.0.0.9;transport=udp")).as_deref(),
        Some("sip:1001@10.0.0.9")
    );
    assert_eq!(AsteriskEntity::parse_contact_uri(Some("*")), None);
}

#[test]
fn whole_cancel_and_bye() {
    assert_eq!(
        build_teardown_request(&params(true)),
        "CANCEL sip:1001@pbx.local SIP/2.0\r\n\
         Via: SIP/2.0/UDP 10.0.0.2:5062;branch=z9hG4bKflow00000001;rport\r\n\
         Max-Forwards: 70\r\n\
         From: <sip:flowstation@pbx.local>;tag=flowabcd\r\n\
         To: <sip:1001@pbx.local>\r\n\
         Call-ID: flow-uuid@10.0.0.2\r\n\
         CSeq: 2 CANCEL\r\n\
         Content-Length: 0\r\n\r\n"
    );
    let mut p = params(false);
    p.remote_target = None;
    p.remote_tag = None;
    p.invite_cseq = u32::MAX;
    assert_eq!(
        build_teardown_request(&p),
        "BYE sip:1001@pbx.local SIP/2.0\r\n\
         Via: SIP/2.0/UDP 10.0.0.2:5062;branch=z9hG4bKflow00000009;rport\r\n\
         Max-Forwards: 70\r\n\
         From: <sip:flowstation@pbx.local>;tag=flowabcd\r\n\
         To: <sip:1001@pbx.local>\r\n\
         Call-ID: flow-uuid@10.0.0.2\r\n\
         CSeq: 4294967295 BYE\r\n\
         Contact: <sip:flowstation@10.0.0.2:5062>\r\n\
         Content-Length: 0\r\n\r\n"
    );
}

#[test]
fn addresses_of_the_bridge() {
    let e = entity();
    assert_eq!(e.sip_listen(), "0.0.0.0:5062");
    assert_eq!(e.remote_display(), "pbx.local:5060");
    assert_eq!(e.rtp_range(), "30000-30010");
    assert_eq!(e.local_uri(), "sip:flowstation@pbx.local");
    assert_eq!(e.uri_for_user("4711"), "sip:4711@pbx.local");
    assert_eq!(e.contact_uri(), "sip:flowstation@10.0.0.2:5062");
    assert_eq!(e.request_uri("1001"), "sip:1001@pbx.local");
    assert_eq!(
        e.asserted_identity_headers("sip:4711@pbx.local", "4711"),
        "P-Asserted-Identity: \"4711\" <sip:4711@pbx.local>\r\n\
         Remote-Party-ID: \"4711\" <sip:4711@pbx.local>;party=calling;screen=yes;privacy=off\r\n"
    );
    assert_eq!(e.asserted_identity_headers("sip:4711@pbx.local", ""), "");
}

#[test]
fn session_description_of_a_port() {
    assert_eq!(
        entity().build_sdp(30004),
        "v=0\r\no=flowstation 0 0 IN IP4 10.0.0.2\r\ns=FlowStation\r\nc=IN IP4 10.0.0.2\r\nt=0 0\r\n\
         m=audio 30004 RTP/AVP 0\r\na=rtpmap:0 PCMU/8000\r\na=ptime:20\r\na=maxptime:20\r\n\
         a=sendrecv\r\n"
    );
}

fn context() -> SipRequestContext {
    SipRequestContext {
        via: "SIP/2.0/UDP 10.0.0.1:5060;branch=z9hG4bKx".to_string(),
        from: "<sip:9@pbx.local>;tag=f".to_string(),
        to: "<sip:74711@10.0.0.2>".to_string(),
        call_id: "c1".to_string(),
        cseq: "7 INVITE".to_string(),
        addr: server(),
    }
}

#[test]
fn responses_with_and_without_body() {
    let e = entity();
    assert_eq!(
        e.build_response(&context(), 100, "Trying", None, None),
        "SIP/2.0 100 Trying\r\nVia: SIP/2.0/UDP 10.0.0.1:5060;branch=z9hG4bKx\r\n\
         From: <sip:9@pbx.local>;tag=f\r\nTo: <sip:74711@10.0.0.2>\r\nCall-ID: c1\r\n\
         CSeq: 7 INVITE\r\nContent-Length: 0\r\n\r\n"
    );
    assert_eq!(
        e.build_response(&context(), 200, "OK", Some("t"), Some(("text/plain", "gr\u{fc}n"))),
        "SIP/2.0 200 OK\r\nVia: SIP/2.0/UDP 10.0.0.1:5060;branch=z9hG4bKx\r\n\
         From: <sip:9@pbx.local>;tag=f\r\nTo: <sip:74711@10.0.0.2>;tag=t\r\nCall-ID: c1\r\n\
         CSeq: 7 INVITE\r\nContact: <sip:flowstation@10.0.0.2:5062>\r\n\
         Allow: INVITE, ACK, CANCEL, OPTIONS, BYE, INFO\r\nContent-Type: text/plain\r\n\
         Content-Length: 5\r\n\r\ngr\u{fc}n"
    );
}

#[test]
fn a_response_is_read_back() {
    let text = entity().build_response(&context(), 480, "Temporarily Unavailable", Some("t"), None);
    let m = SipMessage::parse(text.as_bytes()).unwrap();
    assert_eq!(m.status_code(), Some(480));
    assert_eq!(m.method(), None);
    assert_eq!(m.request_uri(), None);
    assert_eq!(m.header("via"), Some("SIP/2.0/UDP 10.0.0.1:5060;branch=z9hG4bKx"));
    assert_eq!(m.header("TO"), Some("<sip:74711@10.0.0.2>;tag=t"));
    assert_eq!(m.cseq_method(), Some("INVITE"));
    assert_eq!(m.call_id(), Some("c1"));
    assert_eq!(m.body, "");
}

#[test]
fn tags_are_added_once() {
    assert_eq!(AsteriskEntity::tagged_to("<sip:a>", Some("x")), "<sip:a>;tag=x");
    assert_eq!(AsteriskEntity::tagged_to("<sip:a>;TAG=y", Some("x")), "<sip:a>;TAG=y");
    assert_eq!(AsteriskEntity::tagged_to("<sip:a>", None), "<sip:a>");
}

#[test]
fn tags_are_found() {
    assert_eq!(AsteriskEntity::parse_to_tag(None), None);
    assert_eq!(AsteriskEntity::parse_to_tag(Some("<sip:a>")), None);
    assert_eq!(AsteriskEntity::parse_to_tag(Some("<sip:a> ; tag=\"q\" ;tag=r")).as_deref(), Some("q"));
}

#[test]
fn contact_uris_that_are_none() {
    assert_eq!(AsteriskEntity::parse_contact_uri(None), None);
    assert_eq!(AsteriskEntity::parse_contact_uri(Some("<sip:a")), None);
    assert_eq!(AsteriskEntity::parse_contact_uri(Some("<>")), None);
    assert_eq!(AsteriskEntity::parse_contact_uri(Some("<tel:+49>")), None);
    assert_eq!(AsteriskEntity::parse_contact_uri(Some("\"A\" <SIPS:a@b>")).as_deref(), Some("SIPS:a@b"));
}

#[test]
fn users_of_addresses() {
    assert_eq!(AsteriskEntity::sip_uri_user("\"N\" <sip:100@h>;tag=1").as_deref(), Some("100"));
    assert_eq!(AsteriskEntity::sip_uri_user(" SIP:200;x=y").as_deref(), Some("200"));
    assert_eq!(AsteriskEntity::sip_uri_user("300?a=b").as_deref(), Some("300"));
    assert_eq!(AsteriskEntity::sip_uri_user("sip:\"400\"@h").as_deref(), Some("400"));
    assert_eq!(AsteriskEntity::sip_uri_user("sip:@h"), None);
    assert_eq!(AsteriskEntity::sip_uri_user(""), None);
}

fn message(text: &str) -> SipMessage {
    SipMessage::parse(text.as_bytes()).unwrap()
}

#[test]
fn caller_numbers() {
    let all = "INVITE sip:1 SIP/2.0\nFrom: <sip:3@h>\nRemote-Party-ID: <sip:2@h>\nP-Asserted-Identity: <sip:1@h>\n";
    assert_eq!(AsteriskEntity::inbound_caller_number(&message(all)), "1");
    let two = "INVITE sip:1 SIP/2.0\nFrom: <sip:3@h>\nRemote-Party-ID: <sip:2@h>\nP-Asserted-Identity: <sip:@h>\n";
    assert_eq!(AsteriskEntity::inbound_caller_number(&message(two)), "2");
    let one = "INVITE sip:1 SIP/2.0\nFrom: <sip:3@h>\n";
    assert_eq!(AsteriskEntity::inbound_caller_number(&message(one)), "3");
    assert_eq!(AsteriskEntity::inbound_caller_number(&message("INVITE sip:1 SIP/2.0\n")), "0");
}

#[test]
fn radios_that_are_called() {
    let e = entity();
    let to = |uri: &str, to: &str| {
        e.inbound_destination_issi(&message(&format!("INVITE {} SIP/2.0\r\nTo: {}\r\n\r\n", uri, to)))
    };
    assert_eq!(to("sip:74711@h", "<sip:9@h>"), Some(4711));
    assert_eq!(to("sip:4711@h", "<sip:9@h>"), Some(4711));
    assert_eq!(to("sip:abc@h", "<sip:79@h>"), Some(9));
    assert_eq!(to("sip:4294967296@h", "<sip:x@h>"), None);
    assert_eq!(to("sip:74294967295@h", ""), Some(4294967295));
    assert_eq!(to("sip:7@h", "sip:y"), None);
}

#[test]
fn challenges_are_read() {
    let m = message(
        "SIP/2.0 401 Unauthorized\r\nWWW-Authenticate: Digest realm=\"asterisk\", NONCE=\"n\", \
         qop=\"auth,auth-int\", opaque=\"o\", algorithm=MD5\r\n\r\n",
    );
    let c = AsteriskEntity::parse_challenge(&m).unwrap();
    assert_eq!(c.realm, "asterisk");
    assert_eq!(c.nonce, "n");
    // The list of qop values is cut at its comma.
    assert_eq!(c.qop.as_deref(), Some("auth"));
    assert_eq!(c.opaque.as_deref(), Some("o"));
    assert_eq!(c.algorithm.as_deref(), Some("MD5"));
    assert!(!c.proxy);
    let p = message("SIP/2.0 407 P\r\nProxy-Authenticate: nonce=1,nonce=2\r\n\r\n");
    let c = AsteriskEntity::parse_challenge(&p).unwrap();
    assert_eq!(c.realm, "");
    assert_eq!(c.nonce, "2");
    assert_eq!(c.qop, None);
    assert!(c.proxy);
    let none = message("SIP/2.0 401 U\r\nWWW-Authenticate: Digest realm=\"r\"\r\nProxy-Authenticate: nonce=1\r\n\r\n");
    assert!(AsteriskEntity::parse_challenge(&none).is_none());
    assert!(AsteriskEntity::parse_challenge(&message("SIP/2.0 401 U\r\n\r\n")).is_none());
}

fn challenge(qop: Option<&str>) -> DigestChallenge {
    DigestChallenge {
        realm: "testrealm@host.com".to_string(),
        nonce: "dcd98b7102dd2f0e8b11d0f600bfb0c093".to_string(),
        qop: qop.map(|q| q.to_string()),
        opaque: Some("5ccc069c403ebaf9f0171e9517f40e41".to_string()),
        algorithm: None,
        proxy: false,
    }
}

#[test]
fn challenges_are_answered() {
    // The example of RFC 2617, section 3.5.
    assert_eq!(
        authorize(&config(), "GET", "/dir/index.html", &challenge(Some("auth,auth-int")), "0a4f113b"),
        "Authorization: Digest username=\"Mufasa\", realm=\"testrealm@host.com\", \
         nonce=\"dcd98b7102dd2f0e8b11d0f600bfb0c093\", uri=\"/dir/index.html\", \
         response=\"6629fae49393a05397450978507c4ef1\", qop=auth, nc=00000001, \
         cnonce=\"0a4f113b\", opaque=\"5ccc069c403ebaf9f0171e9517f40e41\""
    );
}

#[test]
fn challenges_without_qop_are_answered() {
    let mut c = challenge(None);
    c.proxy = true;
    c.opaque = None;
    c.algorithm = Some("MD5".to_string());
    let hex = |s: String| format!("{:x}", md5::compute(s));
    let ha1 = hex("Mufasa:testrealm@host.com:Circle Of Life".to_string());
    let ha2 = hex("INVITE:sip:1@h".to_string());
    let response = hex(format!("{}:dcd98b7102dd2f0e8b11d0f600bfb0c093:{}", ha1, ha2));
    assert_eq!(
        authorize(&config(), "INVITE", "sip:1@h", &c, "unused"),
        format!(
            "Proxy-Authorization: Digest username=\"Mufasa\", realm=\"testrealm@host.com\", \
             nonce=\"dcd98b7102dd2f0e8b11d0f600bfb0c093\", uri=\"sip:1@h\", response=\"{}\", \
             algorithm=MD5",
            response
        )
    );
    c.realm = String::new();
    assert!(authorize(&config(), "INVITE", "sip:1@h", &c, "unused").contains("realm=\"fallback\""));
}

#[test]
fn other_qop_values_are_kept() {
    let line = authorize(&config(), "GET", "/", &challenge(Some("auth-int")), "c");
    assert!(line.contains(", qop=auth-int, nc=00000001, cnonce=\"c\""), "{}", line);
}

#[test]
fn a_fresh_nonce_is_drawn_each_time() {
    let e = entity();
    let a = e.authorization_header("GET", "/", &challenge(Some("auth")));
    let b = e.authorization_header("GET", "/", &challenge(Some("auth")));
    assert_ne!(a, b);
    assert!(a.starts_with("Authorization: Digest username=\"Mufasa\", "), "{}", a);
    let nonce = a.split("cnonce=\"").nth(1).unwrap().split('"').next().unwrap();
    assert_eq!(nonce.len(), 32);
    assert_eq!(authorize(&config(), "GET", "/", &challenge(Some("auth")), nonce), a);
}

#[test]
fn untidy_teardowns_are_read_back() {
    for cancel in [true, false] {
        let mut p = params(cancel);
        p.invite_uri = " a b ";
        p.remote_target = Some("");
        p.local_tag = "tag \u{3000}";
        p.via_host = ":";
        p.call_id = "";
        let m = SipMessage::parse(build_teardown_request(&p).as_bytes()).unwrap();
        let method = if cancel { "CANCEL" } else { "BYE" };
        assert_eq!(m.method(), Some(method));
        assert_eq!(m.cseq_method(), Some(method));
        assert_eq!(m.call_id(), Some(""));
        assert_eq!(m.headers.len(), if cancel { 7 } else { 8 });
        assert_eq!(m.body, "");
        assert_eq!(m.header("Content-Length"), Some("0"));
        assert_eq!(m.header("Contact").is_none(), cancel);
        assert_eq!(m.header("From"), Some("<sip:flowstation@pbx.local>;tag=tag"));
    }
}

#[test]
fn untidy_responses_are_read_back() {
    let mut ctx = context();
    ctx.via = " SIP/2.0/UDP a \t".to_string();
    ctx.call_id = "".to_string();
    ctx.cseq = "\u{3000}7 INVITE ".to_string();
    for reason in ["", "  ", " OK ", "Not\tFound"] {
        let text = entity().build_response(&ctx, 404, reason, None, Some(("text/plain", "a\r\nb")));
        let m = SipMessage::parse(text.as_bytes()).unwrap();
        assert_eq!(m.status_code(), Some(404));
        assert_eq!(m.header("Via"), Some("SIP/2.0/UDP a"));
        assert_eq!(m.header("From"), Some(ctx.from.as_str()));
        assert_eq!(m.header("To"), Some(ctx.to.as_str()));
        assert_eq!(m.call_id(), Some(""));
        assert_eq!(m.header("CSeq"), Some("7 INVITE"));
        assert_eq!(m.body, "a\nb");
    }
}

#[test]
fn statuses_are_read_back_whatever_the_request_was() {
    let mut ctx = context();
    ctx.via = "\r\n\r\nSIP/2.0 200 OK".to_string();
    ctx.from = "\n".to_string();
    for (code, reason) in [(0, ""), (100, "Trying"), (486, "Busy Here "), (65535, "?")] {
        let text = entity().build_response(&ctx, code, reason, Some("t"), None);
        assert_eq!(SipMessage::parse(text.as_bytes()).unwrap().status_code(), Some(code));
    }
}

use asterisk_bridge::sip::SipMessage;
use asterisk_bridge::text;

fn chars(s: &str) -> Vec<char> {
    s.chars().collect()
}

fn string(v: &[char]) -> String {
    v.iter().collect()
}

const SAMPLES: [&str; 12] = [
    "",
    " ",
    "a",
    "  a b  ",
    "\u{a0}x\u{2003}y\u{3000}",
    "\u{85}\u{200b}z\u{1680}",
    "a\r\nb\n\nc\r",
    "\n",
    "a\r\r\nb",
    "k=v=w",
    "One, two,,three ,",
    "\u{205f}\u{2028}q\u{2029}\u{202f}",
];

#[test]
fn trimming_is_that_of_the_standard_library() {
    for s in SAMPLES {
        assert_eq!(string(text::trim(&chars(s))), s.trim(), "{:?}", s);
    }
}

#[test]
fn white_space_is_that_of_the_standard_library() {
    for n in 0..0x110000u32 {
        if let Some(c) = char::from_u32(n) {
            assert_eq!(text::white(c), c.is_whitespace(), "{:x}", n);
        }
    }
}

#[test]
fn quotes_are_trimmed() {
    for s in ["\"a\"", "\"\"a", "a\"b", "\"", ""] {
        assert_eq!(string(text::unquote(&chars(s))), s.trim_matches('"'));
    }
}

#[test]
fn lines_are_those_of_the_standard_library() {
    for s in SAMPLES {
        let v = chars(s);
        let mine: Vec<String> = text::lines(&v).iter().map(|l| string(l)).collect();
        let theirs: Vec<&str> = s.lines().collect();
        assert_eq!(mine, theirs, "{:?}", s);
    }
}

#[test]
fn pieces_are_those_of_the_standard_library() {
    for s in SAMPLES {
        let v = chars(s);
        let mine: Vec<String> = text::split(&v, ',').iter().map(|l| string(l)).collect();
        let theirs: Vec<&str> = s.split(',').collect();
        assert_eq!(mine, theirs, "{:?}", s);
    }
}

#[test]
fn words_are_those_of_the_standard_library() {
    for s in SAMPLES {
        let v = chars(s);
        for n in 0..4 {
            assert_eq!(
                text::word(&v, n).map(|w| string(w)).as_deref(),
                s.split_whitespace().nth(n),
                "{:?}",
                s
            );
        }
    }
}

#[test]
fn halves_are_those_of_the_standard_library() {
    for s in SAMPLES {
        for p in ["=", "\n\n", "a", "b c"] {
            let v = chars(s);
            let mine = text::split_once(&v, &chars(p)).map(|(a, b)| (string(a), string(b)));
            let theirs = s.split_once(p).map(|(a, b)| (a.to_string(), b.to_string()));
            assert_eq!(mine, theirs, "{:?} {:?}", s, p);
            assert_eq!(
                text::strip_prefix(&v, &chars(p)).map(|r| string(r)).as_deref(),
                s.strip_prefix(p)
            );
        }
    }
}

#[test]
fn line_ends_are_normalized() {
    for s in SAMPLES {
        assert_eq!(string(&text::normalize_line_ends(&chars(s))), s.replace("\r\n", "\n"), "{:?}", s);
    }
}

#[test]
fn letter_case_is_that_of_ascii() {
    for s in ["Call-ID", "\u{c4}\u{d6}Z[", "az@"] {
        assert_eq!(string(&text::to_lower(&chars(s))), s.to_ascii_lowercase());
    }
    assert!(text::eq_ignore_case("Call-ID", "cALL-id"));
    assert!(!text::eq_ignore_case("\u{c4}", "\u{e4}"));
    assert!(!text::eq_ignore_case("a", "ab"));
}

#[test]
fn numbers_are_those_of_the_standard_library() {
    for s in ["0", "65535", "65536", "+7", "-7", "", "+", "007", "1a", " 1", "99999999999999999999"] {
        assert_eq!(text::parse_number(&chars(s), 65535), s.parse::<u16>().ok().map(u32::from), "{:?}", s);
        assert_eq!(text::parse_number(&chars(s), u32::MAX), s.parse::<u32>().ok(), "{:?}", s);
    }
    for n in [0, 9, 10, 4711, u64::MAX] {
        assert_eq!(text::decimal_string(n), n.to_string());
    }
}

#[test]
fn a_request_is_parsed() {
    let m = SipMessage::parse(
        b" INVITE sip:1@h SIP/2.0 \r\nVia : a:b \r\nno colon\r\nCall-ID:x\r\ncall-id: y\r\n\r\nbody\r\n\r\nmore",
    )
    .unwrap();
    assert_eq!(m.start_line, "INVITE sip:1@h SIP/2.0");
    assert_eq!(
        m.headers,
        vec![
            ("Via".to_string(), "a:b".to_string()),
            ("Call-ID".to_string(), "x".to_string()),
            ("call-id".to_string(), "y".to_string()),
        ]
    );
    assert_eq!(m.body, "body\n\nmore");
    assert_eq!(m.method(), Some("INVITE"));
    assert_eq!(m.request_uri(), Some("sip:1@h"));
    assert_eq!(m.status_code(), None);
    assert_eq!(m.call_id(), Some("x"));
    assert_eq!(m.header("Missing"), None);
    assert_eq!(m.cseq_method(), None);
}

#[test]
fn a_response_is_parsed() {
    let m = SipMessage::parse(b"SIP/2.0 180 Ringing\nCSeq: 12   INVITE\n").unwrap();
    assert_eq!(m.status_code(), Some(180));
    assert_eq!(m.method(), None);
    assert_eq!(m.request_uri(), None);
    assert_eq!(m.cseq_method(), Some("INVITE"));
    assert_eq!(SipMessage::parse(b"SIP/2.0 99999 Big").unwrap().status_code(), None);
    assert_eq!(SipMessage::parse(b"SIP/2.0 abc").unwrap().status_code(), None);
}

#[test]
fn nothing_is_no_message() {
    assert!(SipMessage::parse(b"").is_none());
    assert!(SipMessage::parse(b"\r\n\r\nbody").is_none());
    assert_eq!(SipMessage::parse(b"\nA: b").unwrap().start_line, "");
    assert_eq!(SipMessage::parse(b"\nA: b").unwrap().method(), None);
}

#[test]
fn what_is_not_utf8_is_replaced() {
    let m = SipMessage::parse(b"OPTIONS \xff\xfe SIP/2.0\r\nA: gr\xc3\xbcn\r\n\r\n\x80").unwrap();
    assert_eq!(m.request_uri(), Some("\u{fffd}\u{fffd}"));
    assert_eq!(m.header("a"), Some("gr\u{fc}n"));
    assert_eq!(m.body, "\u{fffd}");
}

use asterisk_bridge::ident;
use asterisk_bridge::media;
use asterisk_bridge::media::TdmaTime;
use asterisk_bridge::net::{IpAddr, SocketAddr};

#[test]
fn digests_are_those_of_md5() {
    assert_eq!(ident::md5_of_text(""), "d41d8cd98f00b204e9800998ecf8427e");
    assert_eq!(ident::md5_of_text("abc"), "900150983cd24fb0d6963f7d28e17f72");
    assert_eq!(ident::md5_of_text("gr\u{fc}n"), format!("{:x}", md5::compute("gr\u{fc}n")));
}

#[test]
fn nonces_and_sources_are_made_from_uuids() {
    let id = 0x0123_4567_89ab_4def_8123_4567_89ab_cdefu128;
    let digest = md5::compute(uuid::Uuid::from_u128(id).as_bytes());
    assert_eq!(ident::make_cnonce(id), format!("{:x}", digest));
    assert_eq!(
        ident::make_ssrc(id),
        u32::from_be_bytes([digest.0[0], digest.0[1], digest.0[2], digest.0[3]])
    );
    assert_eq!(ident::make_cnonce(0), "4ae71336e44bf9bf79d2752e234818a5");
    assert_eq!(ident::make_ssrc(0), 0x4ae71336);
}

#[test]
fn fresh_values_differ() {
    assert_ne!(ident::fresh_cnonce(), ident::fresh_cnonce());
    assert_ne!(
        (ident::fresh_ssrc(), ident::fresh_ssrc()),
        (ident::fresh_ssrc(), ident::fresh_ssrc())
    );
}

#[test]
fn ports_are_tried_in_turn() {
    assert_eq!(media::rtp_candidates(12, 10, 13), vec![12, 13, 10, 11]);
    assert_eq!(media::rtp_candidates(10, 10, 13), vec![10, 11, 12, 13]);
    assert_eq!(media::rtp_candidates(99, 10, 12), vec![10, 11, 12]);
    assert_eq!(media::rtp_candidates(0, 10, 12), vec![10, 11, 12]);
    assert_eq!(media::rtp_candidates(5, 10, 9), vec![10]);
}

#[test]
fn the_search_does_not_wrap_at_the_greatest_port() {
    assert_eq!(media::rtp_candidates(65534, 65533, 65535), vec![65534, 65535, 65535]);
    assert_eq!(media::rtp_candidates(65533, 65533, 65535), vec![65533, 65534, 65535]);
    let all = media::rtp_candidates(0, 0, 65535);
    assert_eq!(all.len(), 65535);
    assert_eq!(all[65534], 65534);
}

#[test]
fn offers_of_audio_are_read() {
    let fallback = IpAddr::V4(1);
    let given = Some(IpAddr::V4(2));
    let body = "v=0\r\nc=IN IP4 1.2.3.4 x\r\nm=audio 4000 RTP/AVP 0\r\n";
    assert_eq!(media::sdp_connection_host(body).as_deref(), Some("1.2.3.4"));
    assert_eq!(
        media::sdp_audio_remote(body, given, fallback),
        Some(SocketAddr::new(IpAddr::V4(2), 4000))
    );
    assert_eq!(
        media::sdp_audio_remote(body, None, fallback),
        Some(SocketAddr::new(fallback, 4000))
    );
    let twice = "m=audio 1\nm=audio 2\nc=IN IP4 a\n  c=IN IP4 b";
    assert_eq!(media::sdp_connection_host(twice).as_deref(), Some("b"));
    assert_eq!(
        media::sdp_audio_remote(twice, None, fallback),
        Some(SocketAddr::new(fallback, 2))
    );
    assert_eq!(media::sdp_connection_host("c=IN IP6 ::1"), None);
    assert_eq!(media::sdp_connection_host("c=IN IP4  "), None);
    assert_eq!(media::sdp_audio_remote("m=audio 65536", None, fallback), None);
    assert_eq!(media::sdp_audio_remote("m=audio 1\nm=audio x", None, fallback), None);
    assert_eq!(media::sdp_audio_remote("", None, fallback), None);
}

#[test]
fn blocks_are_due_on_traffic_frames() {
    assert!(media::downlink_due(TdmaTime { t: 2, f: 17 }, 2));
    assert!(!media::downlink_due(TdmaTime { t: 2, f: 18 }, 2));
    assert!(!media::downlink_due(TdmaTime { t: 3, f: 1 }, 2));
}

//! What holds of offers of audio: what the bridge offers is understood, and the bridge understands
//! what it is offered.
use vstd::prelude::*;
use crate::config::CfgAsterisk;
use crate::laws::reading;
use crate::media;
use crate::net::{IpAddr, SocketAddr};
use crate::request;
use crate::text;
use crate::text::Text;
use crate::wire;

verus! {

/// Whoever reads the session description of the bridge, with either kind of line end, finds the
/// bridge's host and the RTP port in it.
pub proof fn law_own_offer_is_understood(
    cfg: CfgAsterisk,
    rtp_port: u16,
    ip: Option<IpAddr>,
    fallback: IpAddr,
    unix: bool,
)
    requires
        reading::is_word(cfg.contact_host@),
    ensures
        ({
            let sdp = request::sdp_text(cfg, rtp_port);
            let body = if unix {
                text::unix_lines(sdp)
            } else {
                sdp
            };
            &&& media::sdp_host(body) == Some(cfg.contact_host@)
            &&& media::sdp_remote(body, ip, fallback) == Some(
                SocketAddr::at(
                    match ip {
                        Some(ip) => ip,
                        None => fallback,
                    },
                    rtp_port,
                ),
            )
        }),
{
    broadcast use lemma_last_added;

    let sdp = request::sdp_text(cfg, rtp_port);
    let body = if unix {
        text::unix_lines(sdp)
    } else {
        sdp
    };
    let host = cfg.contact_host@;
    let port = text::decimal(rtp_port as nat);
    let ls = offer_lines(cfg, rtp_port);
    lemma_offer(cfg, rtp_port);
    lemma_offer_lines_are_plain(cfg, rtp_port);
    if unix {
        lemma_unix_ended(ls);
        lemma_lines_of_ended(ls, "\n"@);
    } else {
        lemma_lines_of_ended(ls, "\r\n"@);
    }
    assert(text::lines_of(body) == ls);
    reading::law_numbers_are_read_back(rtp_port as nat, u16::MAX as nat);
    reading::lemma_words(port, "RTP/AVP 0"@);
    reading::lemma_words(host, Seq::empty());
    reveal_strlit("c=IN IP4 ");
    reveal_strlit("m=audio ");
    reveal_strlit(" RTP/AVP 0");
    reveal_strlit("RTP/AVP 0");
    reveal_strlit(" ");
    let c = "c=IN IP4 "@ + host;
    let m = "m=audio "@ + port + " RTP/AVP 0"@;
    assert(" RTP/AVP 0"@ =~= " "@ + "RTP/AVP 0"@);
    assert(m.skip(8) =~= port + " "@ + "RTP/AVP 0"@);
    assert(c.skip(9) =~= host);
    assert("m=audio "@.is_prefix_of(m)) by {
        assert(m.subrange(0, 8) =~= "m=audio "@);
    }
    assert("c=IN IP4 "@.is_prefix_of(c)) by {
        assert(c.subrange(0, 9) =~= "c=IN IP4 "@);
    }
    lemma_other_lines(cfg, rtp_port);
    assert(media::last_after(ls, "m=audio "@) == Some(m.skip(8)));
    assert(media::last_after(ls, "c=IN IP4 "@) == Some(c.skip(9)));
}

/// Whether a session description offers audio of that port at the bridge: in PCMU, in packets of
/// the configured length, both ways.
pub open spec fn offers_audio(body: Text, cfg: CfgAsterisk, rtp_port: u16) -> bool {
    let ls = text::lines_of(body);
    &&& media::sdp_host(body) == Some(cfg.contact_host@)
    &&& media::sdp_port(body) == Some(rtp_port as nat)
    &&& ls.contains("m=audio "@ + text::decimal(rtp_port as nat) + " RTP/AVP 0"@)
    &&& ls.contains("a=rtpmap:0 PCMU/8000"@)
    &&& ls.contains("a=ptime:"@ + text::decimal(cfg.ptime_ms as nat))
    &&& ls.contains("a=sendrecv"@)
}

/// The session description of the bridge offers its audio, with either kind of line end.
pub proof fn law_own_offer_is_complete(cfg: CfgAsterisk, rtp_port: u16)
    requires
        reading::is_word(cfg.contact_host@),
    ensures
        offers_audio(request::sdp_text(cfg, rtp_port), cfg, rtp_port),
        offers_audio(text::unix_lines(request::sdp_text(cfg, rtp_port)), cfg, rtp_port),
{
    let ip = IpAddr::V4(0);
    let ls = offer_lines(cfg, rtp_port);
    law_own_offer_is_understood(cfg, rtp_port, None, ip, false);
    law_own_offer_is_understood(cfg, rtp_port, None, ip, true);
    lemma_offer(cfg, rtp_port);
    lemma_offer_lines_are_plain(cfg, rtp_port);
    lemma_unix_ended(ls);
    lemma_lines_of_ended(ls, "\n"@);
    lemma_lines_of_ended(ls, "\r\n"@);
    let ptime = text::decimal(cfg.ptime_ms as nat);
    assert(ls[5] == "m=audio "@ + text::decimal(rtp_port as nat) + " RTP/AVP 0"@);
    assert(ls[6] == "a=rtpmap:0 PCMU/8000"@);
    assert(ls[7] == "a=ptime:"@ + ptime);
    assert(ls[9] == "a=sendrecv"@);
}

/// The lines of a session description.
spec fn offer_lines(cfg: CfgAsterisk, rtp_port: u16) -> Seq<Text> {
    let host = cfg.contact_host@;
    let ptime = text::decimal(cfg.ptime_ms as nat);
    Seq::empty()
        .push("v=0"@)
        .push("o=flowstation 0 0 IN IP4 "@ + host)
        .push("s=FlowStation"@)
        .push("c=IN IP4 "@ + host)
        .push("t=0 0"@)
        .push("m=audio "@ + text::decimal(rtp_port as nat) + " RTP/AVP 0"@)
        .push("a=rtpmap:0 PCMU/8000"@)
        .push("a=ptime:"@ + ptime)
        .push("a=maxptime:"@ + ptime)
        .push("a=sendrecv"@)
}

/// Lines, each with an end.
pub open spec fn ended(ls: Seq<Text>, end: Text) -> Text
    decreases ls.len(),
{
    if ls.len() == 0 {
        Seq::empty()
    } else {
        ended(ls.drop_last(), end) + ls.last() + end
    }
}

/// Whether each line lies within one line.
pub open spec fn single(ls: Seq<Text>) -> bool {
    forall|i: int| 0 <= i < ls.len() ==> wire::one_line(#[trigger] ls[i])
}

broadcast proof fn lemma_ended_added(ls: Seq<Text>, l: Text, end: Text)
    ensures
        #[trigger] ended(ls.push(l), end) == ended(ls, end) + l + end,
{
    assert(ls.push(l).drop_last() =~= ls);
}

/// The last line is looked at first.
broadcast proof fn lemma_last_added(ls: Seq<Text>, l: Text, prefix: Text)
    ensures
        #[trigger] media::last_after(ls.push(l), prefix) == (match text::after_prefix(
            text::trimmed(l),
            prefix,
        ) {
            Some(rest) => Some(rest),
            None => media::last_after(ls, prefix),
        }),
{
    assert(ls.push(l).drop_last() =~= ls);
}

/// The session description is made of its lines.
proof fn lemma_offer(cfg: CfgAsterisk, rtp_port: u16)
    ensures
        request::sdp_text(cfg, rtp_port) == ended(offer_lines(cfg, rtp_port), "\r\n"@),
{
    broadcast use lemma_ended_added;

    let host = cfg.contact_host@;
    let port = text::decimal(rtp_port as nat);
    let ptime = text::decimal(cfg.ptime_ms as nat);
    let e = "\r\n"@;
    reveal_strlit("\r\n");
    reveal_strlit("v=0");
    reveal_strlit("o=flowstation 0 0 IN IP4 ");
    reveal_strlit("s=FlowStation");
    reveal_strlit("c=IN IP4 ");
    reveal_strlit("t=0 0");
    reveal_strlit("m=audio ");
    reveal_strlit(" RTP/AVP 0");
    reveal_strlit("a=rtpmap:0 PCMU/8000");
    reveal_strlit("a=ptime:");
    reveal_strlit("a=maxptime:");
    reveal_strlit("a=sendrecv");
    reveal_strlit("v=0\r\no=flowstation 0 0 IN IP4 ");
    reveal_strlit("\r\ns=FlowStation\r\nc=IN IP4 ");
    reveal_strlit("\r\nt=0 0\r\nm=audio ");
    reveal_strlit(" RTP/AVP 0\r\na=rtpmap:0 PCMU/8000\r\na=ptime:");
    reveal_strlit("\r\na=maxptime:");
    reveal_strlit("\r\na=sendrecv\r\n");
    let t1 = "v=0\r\no=flowstation 0 0 IN IP4 "@ + host;
    assert(t1 =~= Seq::<char>::empty() + "v=0"@ + e + ("o=flowstation 0 0 IN IP4 "@ + host));
    let t2 = t1 + "\r\ns=FlowStation\r\nc=IN IP4 "@ + host;
    assert(t2 =~= t1 + e + "s=FlowStation"@ + e + ("c=IN IP4 "@ + host));
    let t3 = t2 + "\r\nt=0 0\r\nm=audio "@ + port;
    let m = "m=audio "@ + port + " RTP/AVP 0"@;
    assert(t3 + " RTP/AVP 0"@ =~= t2 + e + "t=0 0"@ + e + m);
    let t4 = t3 + " RTP/AVP 0\r\na=rtpmap:0 PCMU/8000\r\na=ptime:"@ + ptime;
    assert(t4 =~= t3 + " RTP/AVP 0"@ + e + "a=rtpmap:0 PCMU/8000"@ + e + ("a=ptime:"@ + ptime));
    let t5 = t4 + "\r\na=maxptime:"@ + ptime;
    assert(t5 =~= t4 + e + ("a=maxptime:"@ + ptime));
    assert(t5 + "\r\na=sendrecv\r\n"@ =~= t5 + e + "a=sendrecv"@ + e);
    assert(ended(Seq::<Text>::empty(), e) =~= Seq::<char>::empty());
}

/// Every line of a session description lies within one line.
proof fn lemma_offer_lines_are_plain(cfg: CfgAsterisk, rtp_port: u16)
    requires
        reading::is_word(cfg.contact_host@),
    ensures
        single(offer_lines(cfg, rtp_port)),
{
    broadcast use reading::lemma_one_line_added;

    reveal_strlit("v=0");
    reveal_strlit("o=flowstation 0 0 IN IP4 ");
    reveal_strlit("s=FlowStation");
    reveal_strlit("c=IN IP4 ");
    reveal_strlit("t=0 0");
    reveal_strlit("m=audio ");
    reveal_strlit(" RTP/AVP 0");
    reveal_strlit("a=rtpmap:0 PCMU/8000");
    reveal_strlit("a=ptime:");
    reveal_strlit("a=maxptime:");
    reveal_strlit("a=sendrecv");
    assert(wire::one_line("v=0"@));
    assert(wire::one_line("o=flowstation 0 0 IN IP4 "@));
    assert(wire::one_line("s=FlowStation"@));
    assert(wire::one_line("c=IN IP4 "@));
    assert(wire::one_line("t=0 0"@));
    assert(wire::one_line("m=audio "@));
    assert(wire::one_line(" RTP/AVP 0"@));
    assert(wire::one_line("a=rtpmap:0 PCMU/8000"@));
    assert(wire::one_line("a=ptime:"@));
    assert(wire::one_line("a=maxptime:"@));
    assert(wire::one_line("a=sendrecv"@));
    reading::lemma_word_is_tidy(cfg.contact_host@);
    reading::law_numbers_are_read_back(rtp_port as nat, rtp_port as nat);
    reading::lemma_word_is_tidy(text::decimal(rtp_port as nat));
    reading::law_numbers_are_read_back(cfg.ptime_ms as nat, cfg.ptime_ms as nat);
    reading::lemma_word_is_tidy(text::decimal(cfg.ptime_ms as nat));
    let ls = offer_lines(cfg, rtp_port);
    assert(ls.len() == 10);
    assert forall|i: int| 0 <= i < ls.len() implies wire::one_line(#[trigger] ls[i]) by {
        if i == 0 {
        } else if i == 1 {
        } else if i == 2 {
        } else if i == 3 {
        } else if i == 4 {
        } else if i == 5 {
        } else if i == 6 {
        } else if i == 7 {
        } else if i == 8 {
        } else {
            assert(i == 9);
        }
    }
}

/// The lines of a session description after those with the host and the port begin otherwise.
proof fn lemma_other_lines(cfg: CfgAsterisk, rtp_port: u16)
    requires
        reading::is_word(cfg.contact_host@),
    ensures
        ({
            let host = cfg.contact_host@;
            let ptime = text::decimal(cfg.ptime_ms as nat);
            let m = "m=audio "@ + text::decimal(rtp_port as nat) + " RTP/AVP 0"@;
            let c = "c=IN IP4 "@ + host;
            &&& text::trimmed(m) == m
            &&& text::trimmed(c) == c
            &&& forall|l: Text|
                #![trigger text::trimmed(l)]
                l == "t=0 0"@ || l == "a=rtpmap:0 PCMU/8000"@ || l == "a=ptime:"@ + ptime || l
                    == "a=maxptime:"@ + ptime || l == "a=sendrecv"@ ==> text::after_prefix(
                    text::trimmed(l),
                    "m=audio "@,
                ) is None && text::after_prefix(text::trimmed(l), "c=IN IP4 "@) is None
            &&& text::after_prefix(m, "c=IN IP4 "@) is None
        }),
{
    let host = cfg.contact_host@;
    let ptime = text::decimal(cfg.ptime_ms as nat);
    let port = text::decimal(rtp_port as nat);
    let m = "m=audio "@ + port + " RTP/AVP 0"@;
    let c = "c=IN IP4 "@ + host;
    reveal_strlit("c=IN IP4 ");
    reveal_strlit("t=0 0");
    reveal_strlit("m=audio ");
    reveal_strlit(" RTP/AVP 0");
    reveal_strlit("a=rtpmap:0 PCMU/8000");
    reveal_strlit("a=ptime:");
    reveal_strlit("a=maxptime:");
    reveal_strlit("a=sendrecv");
    reading::law_numbers_are_read_back(cfg.ptime_ms as nat, cfg.ptime_ms as nat);
    assert(!text::is_white(ptime[ptime.len() - 1]));
    assert(!text::is_white(host[host.len() - 1]));
    assert(m[0] == 'm' && m.last() == '0');
    reading::lemma_trimmed(m);
    assert(c[0] == 'c' && c.last() == host[host.len() - 1]);
    reading::lemma_trimmed(c);
    lemma_begins_otherwise(m, "c=IN IP4 "@);
    reading::lemma_trimmed("t=0 0"@);
    reading::lemma_trimmed("a=rtpmap:0 PCMU/8000"@);
    let p = "a=ptime:"@ + ptime;
    let x = "a=maxptime:"@ + ptime;
    assert(p[0] == 'a' && p.last() == ptime[ptime.len() - 1]);
    assert(x[0] == 'a' && x.last() == ptime[ptime.len() - 1]);
    reading::lemma_trimmed(p);
    reading::lemma_trimmed(x);
    reading::lemma_trimmed("a=sendrecv"@);
    assert forall|l: Text|
        #![trigger text::trimmed(l)]
        l == "t=0 0"@ || l == "a=rtpmap:0 PCMU/8000"@ || l == p || l == x || l
            == "a=sendrecv"@ implies text::after_prefix(text::trimmed(l), "m=audio "@) is None
        && text::after_prefix(text::trimmed(l), "c=IN IP4 "@) is None by {
        lemma_begins_otherwise(l, "m=audio "@);
        lemma_begins_otherwise(l, "c=IN IP4 "@);
    }
}

/// A text that begins with another character does not begin with a prefix.
proof fn lemma_begins_otherwise(s: Text, prefix: Text)
    requires
        s.len() > 0,
        prefix.len() > 0,
        s[0] != prefix[0],
    ensures
        text::after_prefix(s, prefix) is None,
{
    if prefix.is_prefix_of(s) {
        assert(prefix == s.subrange(0, prefix.len() as int));
        assert(prefix[0] == s[0]);
    }
}

/// Ended lines are read back as those lines.
proof fn lemma_lines_of_ended(ls: Seq<Text>, end: Text)
    requires
        single(ls),
        end == "\r\n"@ || end == "\n"@,
    ensures
        text::lines_of(ended(ls, end)) == ls,
    decreases ls.len(),
{
    reveal_strlit("\r\n");
    reveal_strlit("\n");
    if ls.len() == 0 {
        assert(text::lines_of(ended(ls, end)) =~= ls);
    } else {
        let front = ls.drop_last();
        let l = ls.last();
        assert forall|i: int| 0 <= i < front.len() implies wire::one_line(#[trigger] front[i]) by {
            assert(wire::one_line(ls[i]));
        }
        lemma_lines_of_ended(front, end);
        let a = ended(front, end);
        let b = l + end;
        assert(ended(ls, end) =~= a + b);
        assert(a.len() > 0 ==> a.last() == '\n') by {
            if front.len() > 0 {
                assert(a == ended(front.drop_last(), end) + front.last() + end);
            }
        }
        lemma_lines_of_two(a, b);
        assert(wire::one_line(ls[ls.len() - 1]));
        let feed = seq!['\n'];
        if end == "\n"@ {
            wire::lemma_position_after(l, end, feed);
            assert(feed.is_prefix_of(end)) by {
                assert(end.subrange(0, 1) =~= feed);
            }
            assert(b.take(l.len() as int) =~= l);
            assert(text::without_cr(l) == l) by {
                if l.len() > 0 {
                    assert(l.contains(l.last()));
                }
            }
            assert(b.skip(l.len() + 1int) =~= Seq::empty());
        } else {
            let r = l + seq!['\r'];
            assert(b =~= r + feed);
            assert(!r.contains('\n')) by {
                if r.contains('\n') {
                    let i = choose|i: int| 0 <= i < r.len() && r[i] == '\n';
                    assert(l[i] == '\n');
                }
            }
            wire::lemma_position_after(r, feed, feed);
            assert(feed.is_prefix_of(feed)) by {
                assert(feed.subrange(0, 1) =~= feed);
            }
            assert(b.take(r.len() as int) =~= r);
            assert(r.drop_last() =~= l);
            assert(text::without_cr(r) == l);
            assert(b.skip(r.len() + 1int) =~= Seq::empty());
        }
        assert(text::lines_of(Seq::<char>::empty()) =~= Seq::empty());
        assert(text::lines_of(b) =~= seq![l]);
        assert(front + seq![l] =~= ls);
    }
}

/// The lines of two texts, the first of which ends its last line.
proof fn lemma_lines_of_two(a: Text, b: Text)
    requires
        a.len() > 0 ==> a.last() == '\n',
    ensures
        text::lines_of(a + b) == text::lines_of(a) + text::lines_of(b),
    decreases a.len(),
{
    let feed = seq!['\n'];
    if a.len() == 0 {
        assert(a + b =~= b);
        assert(text::lines_of(a) =~= Seq::empty());
        assert(Seq::<Text>::empty() + text::lines_of(b) =~= text::lines_of(b));
    } else {
        text::lemma_position(a, feed);
        let n = a.len() - 1;
        assert(feed.is_prefix_of(a.skip(n))) by {
            assert(a.skip(n).subrange(0, 1) =~= feed);
        }
        let i = text::position(a, feed)->0;
        lemma_position_kept(a, b, feed);
        let rest = a.skip(i + 1);
        assert((a + b).take(i) =~= a.take(i));
        assert((a + b).skip(i + 1) =~= rest + b);
        if rest.len() > 0 {
            assert(rest.last() == a.last());
        }
        lemma_lines_of_two(rest, b);
        let l = seq![text::without_cr(a.take(i))];
        assert(l + (text::lines_of(rest) + text::lines_of(b)) =~= l + text::lines_of(rest)
            + text::lines_of(b));
    }
}

/// The first occurrence of a character stays where it is when text is added at the end.
pub(crate) proof fn lemma_position_kept(a: Text, b: Text, pattern: Text)
    requires
        pattern.len() == 1,
        text::position(a, pattern) is Some,
    ensures
        text::position(a + b, pattern) == text::position(a, pattern),
    decreases a.len(),
{
    let s = a + b;
    if pattern.is_prefix_of(a) {
        assert(a.len() > 0);
        assert(pattern.is_prefix_of(s)) by {
            assert(s.subrange(0, 1) =~= a.subrange(0, 1));
        }
    } else {
        assert(a.len() > 0);
        assert(!pattern.is_prefix_of(s)) by {
            if pattern.is_prefix_of(s) {
                assert(s.subrange(0, 1) =~= a.subrange(0, 1));
            }
        }
        assert(s.drop_first() =~= a.drop_first() + b);
        lemma_position_kept(a.drop_first(), b, pattern);
    }
}

/// Making line ends alike changes nothing but the ends.
proof fn lemma_unix_ended(ls: Seq<Text>)
    requires
        single(ls),
    ensures
        text::unix_lines(ended(ls, "\r\n"@)) == ended(ls, "\n"@),
    decreases ls.len(),
{
    reveal_strlit("\r\n");
    reveal_strlit("\n");
    if ls.len() > 0 {
        let front = ls.drop_last();
        let l = ls.last();
        assert forall|i: int| 0 <= i < front.len() implies wire::one_line(#[trigger] front[i]) by {
            assert(wire::one_line(ls[i]));
        }
        lemma_unix_ended(front);
        assert(wire::one_line(ls[ls.len() - 1]));
        let a = ended(front, "\r\n"@);
        let tail = "\r\n"@ + Seq::<char>::empty();
        assert(ended(ls, "\r\n"@) =~= a + (l + tail));
        assert(a.len() > 0 ==> a.last() == '\n') by {
            if front.len() > 0 {
                assert(a == ended(front.drop_last(), "\r\n"@) + front.last() + "\r\n"@);
            }
        }
        lemma_unix_two(a, l + tail);
        wire::lemma_unix_plain(l, tail);
        wire::lemma_unix_end(Seq::empty());
        assert(text::unix_lines(Seq::<char>::empty()) =~= Seq::<char>::empty());
        assert("\n"@ =~= seq!['\n'] + Seq::<char>::empty());
        assert(text::unix_lines(a) + (l + "\n"@) =~= text::unix_lines(a) + l + "\n"@);
    }
}

/// Two texts, the first of which does not end in the middle of a line end.
proof fn lemma_unix_two(a: Text, b: Text)
    requires
        a.len() > 0 ==> a.last() == '\n',
    ensures
        text::unix_lines(a + b) == text::unix_lines(a) + text::unix_lines(b),
    decreases a.len(),
{
    if a.len() == 0 {
        assert(a + b =~= b);
        assert(text::unix_lines(a) + text::unix_lines(b) =~= text::unix_lines(b));
    } else {
        let s = a + b;
        assert(s.drop_first() =~= a.drop_first() + b);
        assert(s[0] == a[0]);
        if a.len() >= 2 {
            assert(s[1] == a[1]);
            assert(a.drop_first().last() == a.last());
        }
        lemma_unix_two(a.drop_first(), b);
        assert(seq![a[0]] + (text::unix_lines(a.drop_first()) + text::unix_lines(b))
            =~= seq![a[0]] + text::unix_lines(a.drop_first()) + text::unix_lines(b));
    }
}

// ---------------------------------------------------------------------------------------------
// What the bridge is offered

/// Whether a line begins with `prefix`, after the white space in front of it.
pub open spec fn begins(line: Text, prefix: Text) -> bool {
    text::after_prefix(text::trimmed(line), prefix) is Some
}

/// Whether no line begins with `prefix`.
pub open spec fn none_begins(ls: Seq<Text>, prefix: Text) -> bool {
    forall|i: int| 0 <= i < ls.len() ==> !begins(#[trigger] ls[i], prefix)
}

/// The port and the address of an offer of audio are those of the last lines that give one, in
/// whatever lines they stand and with either kind of line end. Where no line gives a port, there
/// is none, and likewise for the address.
pub proof fn law_offers_are_understood(
    before: Seq<Text>,
    port: u16,
    host: Text,
    rest: Text,
    after: Seq<Text>,
    end: Text,
)
    requires
        single(before),
        single(after),
        wire::one_line(rest),
        rest.len() > 0 ==> text::is_white(rest[0]),
        reading::is_word(host),
        end == "\r\n"@ || end == "\n"@,
    ensures
        none_begins(after, "m=audio "@) ==> media::sdp_port(
            ended(before.push("m=audio "@ + text::decimal(port as nat) + rest) + after, end),
        ) == Some(port as nat),
        none_begins(after, "c=IN IP4 "@) ==> media::sdp_host(
            ended(before.push("c=IN IP4 "@ + host + rest) + after, end),
        ) == Some(host),
        none_begins(after, "m=audio "@) ==> media::sdp_port(ended(after, end)) is None,
        none_begins(after, "c=IN IP4 "@) ==> media::sdp_host(ended(after, end)) is None,
{
    let number = text::decimal(port as nat);
    reading::law_numbers_are_read_back(port as nat, u16::MAX as nat);
    reading::lemma_word_is_tidy(host);
    reading::lemma_word_is_tidy(number);
    reveal_strlit("m=audio ");
    reveal_strlit("c=IN IP4 ");
    assert(wire::one_line("m=audio "@));
    assert(wire::one_line("c=IN IP4 "@));
    lemma_lines_of_ended(after, end);
    if none_begins(after, "m=audio "@) {
        lemma_word_found(before, "m=audio "@, number, rest, after, end);
        lemma_none_found(after, "m=audio "@);
    }
    if none_begins(after, "c=IN IP4 "@) {
        lemma_word_found(before, "c=IN IP4 "@, host, rest, after, end);
        lemma_none_found(after, "c=IN IP4 "@);
    }
}

proof fn lemma_none_found(ls: Seq<Text>, prefix: Text)
    requires
        none_begins(ls, prefix),
    ensures
        media::last_after(ls, prefix) is None,
    decreases ls.len(),
{
    if ls.len() > 0 {
        let most = ls.drop_last();
        assert(!begins(ls[ls.len() - 1], prefix));
        assert forall|i: int| 0 <= i < most.len() implies !begins(#[trigger] most[i], prefix) by {
            assert(!begins(ls[i], prefix));
        }
        lemma_none_found(most, prefix);
    }
}

proof fn lemma_found_before(a: Seq<Text>, b: Seq<Text>, prefix: Text)
    requires
        none_begins(b, prefix),
    ensures
        media::last_after(a + b, prefix) == media::last_after(a, prefix),
    decreases b.len(),
{
    if b.len() == 0 {
        assert(a + b =~= a);
    } else {
        let most = b.drop_last();
        assert(!begins(b[b.len() - 1], prefix));
        assert forall|i: int| 0 <= i < most.len() implies !begins(#[trigger] most[i], prefix) by {
            assert(!begins(b[i], prefix));
        }
        assert((a + b).drop_last() =~= a + most);
        assert((a + b).last() == b.last());
        lemma_found_before(a, most, prefix);
    }
}

proof fn lemma_word_found(
    before: Seq<Text>,
    prefix: Text,
    word: Text,
    rest: Text,
    after: Seq<Text>,
    end: Text,
)
    requires
        single(before),
        single(after),
        wire::one_line(rest),
        rest.len() > 0 ==> text::is_white(rest[0]),
        reading::is_word(word),
        wire::one_line(word),
        wire::one_line(prefix),
        prefix.len() > 0,
        !text::is_white(prefix[0]),
        none_begins(after, prefix),
        end == "\r\n"@ || end == "\n"@,
    ensures
        media::sdp_word(ended(before.push(prefix + word + rest) + after, end), prefix) == Some(
            word,
        ),
{
    broadcast use {lemma_last_added, reading::lemma_one_line_added};

    let line = prefix + word + rest;
    let ls = before.push(line) + after;
    assert forall|i: int| 0 <= i < ls.len() implies wire::one_line(#[trigger] ls[i]) by {
        if i < before.len() {
            assert(wire::one_line(before[i]));
        } else if i > before.len() {
            assert(wire::one_line(after[i - before.len() - 1]));
        }
    }
    lemma_lines_of_ended(ls, end);
    lemma_found_before(before.push(line), after, prefix);
    let head = prefix + word;
    assert(!text::is_white(word[word.len() - 1]));
    assert(head.last() == word[word.len() - 1]);
    assert(head[0] == prefix[0]);
    reading::lemma_trimmed_after(head, rest);
    let tail = text::strip_end(rest, |c: char| text::is_white(c));
    let t = text::trimmed(line);
    assert(line =~= head + rest);
    assert(t == head + tail);
    assert(prefix.is_prefix_of(t)) by {
        assert(t.subrange(0, prefix.len() as int) =~= prefix);
    }
    let words = word + tail;
    assert(t.skip(prefix.len() as int) =~= words);
    reading::lemma_run(word, tail);
    assert(words[0] == word[0]);
    assert(!text::is_white(word[0]));
    assert(words.take(word.len() as int) =~= word);
    assert(text::words_of(words)[0] == word);
}

} // verus!

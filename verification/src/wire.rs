//! What is written is read back: a message put together from a start line, headers and a body
//! is read as that start line, those headers and that body.
use vstd::prelude::*;
use crate::config::CfgAsterisk;
use crate::dialog::SnapshotModel;
use crate::digest;
use crate::digest::ChallengeModel;
use crate::fields;
use crate::fields::ContextModel;
use crate::request;
use crate::request::TeardownModel;
use crate::sip;
use crate::sip::MessageModel;
use crate::text;
use crate::text::Text;

verus! {

/// The lines of some headers.
pub open spec fn header_lines(headers: Seq<(Text, Text)>) -> Text
    decreases headers.len(),
{
    if headers.len() == 0 {
        Seq::empty()
    } else {
        request::line(headers[0].0, headers[0].1) + header_lines(headers.drop_first())
    }
}

/// A message: a start line, headers, an empty line and a body.
pub open spec fn compose(start: Text, headers: Seq<(Text, Text)>, body: Text) -> Text {
    start + "\r\n"@ + header_lines(headers) + "\r\n"@ + body
}

/// Whether a text lies within one line.
pub open spec fn one_line(s: Text) -> bool {
    !s.contains('\r') && !s.contains('\n')
}

/// Whether a text lies within one line and has no white space at its ends.
pub open spec fn tidy(s: Text) -> bool {
    one_line(s) && text::trimmed(s) == s
}

/// Whether a text can be told apart as a header of a message.
pub open spec fn tidy_header(h: (Text, Text)) -> bool {
    tidy(h.0) && !h.0.contains(':') && tidy(h.1)
}

/// Whether the headers of a message can be told apart.
pub open spec fn tidy_headers(headers: Seq<(Text, Text)>) -> bool {
    forall|i: int| 0 <= i < headers.len() ==> tidy_header(#[trigger] headers[i])
}

/// Whether a header can be told apart in a message, with whatever white space at the ends of its
/// value.
pub open spec fn readable_header(h: (Text, Text)) -> bool {
    tidy(h.0) && !h.0.contains(':') && one_line(h.1)
}

/// Whether the headers of a message can be told apart, with whatever white space at the ends of
/// their values.
pub open spec fn readable_headers(headers: Seq<(Text, Text)>) -> bool {
    forall|i: int| 0 <= i < headers.len() ==> readable_header(#[trigger] headers[i])
}

/// Headers without the white space at the ends of their values.
pub open spec fn trimmed_headers(headers: Seq<(Text, Text)>) -> Seq<(Text, Text)> {
    Seq::new(headers.len(), |i: int| (headers[i].0, text::trimmed(headers[i].1)))
}

/// A message whose parts each lie within one line is read back as those parts, without the white
/// space at the ends of its start line and its header values; its body comes back with a line
/// feed in place of each carriage return and line feed.
pub proof fn law_message_is_read_trimmed(start: Text, headers: Seq<(Text, Text)>, body: Text)
    requires
        start.len() > 0,
        one_line(start),
        readable_headers(headers),
    ensures
        sip::message_of(compose(start, headers, body)) == Some(
            MessageModel {
                start_line: text::trimmed(start),
                headers: trimmed_headers(headers),
                body: text::unix_lines(body),
            },
        ),
{
    let ls = seq![start] + plain_lines(headers);
    let b = text::unix_lines(body);
    assert forall|i: int| 0 <= i < ls.len() implies solid(#[trigger] ls[i]) by {
        if i > 0 {
            assert(readable_header(headers[i - 1]));
            lemma_plain_line(headers[i - 1]);
        }
    }
    lemma_unix_compose(start, headers, body);
    let t = text::unix_lines(compose(start, headers, body));
    lemma_gap(ls, b);
    reveal_strlit("\n\n");
    assert(t.take(joined(ls).len() as int) =~= joined(ls));
    assert(t.skip(joined(ls).len() + 2int) =~= b);
    lemma_lines_of_joined(ls);
    assert(ls[0] == start);
    assert(ls.drop_first() =~= plain_lines(headers));
    lemma_headers_read_back(headers, headers.len() as int);
    assert(plain_lines(headers).take(headers.len() as int) =~= plain_lines(headers));
    assert(trimmed_headers(headers).take(headers.len() as int) =~= trimmed_headers(headers));
}

/// Whatever comes after it, a start line that lies within one line is read back, without the white
/// space at its ends.
pub proof fn law_start_line_is_read(start: Text, headers: Seq<(Text, Text)>, body: Text)
    requires
        start.len() > 0,
        one_line(start),
    ensures
        sip::message_of(compose(start, headers, body)) matches Some(m) && m.start_line
            == text::trimmed(start),
{
    reveal_strlit("\n\n");
    let feed = seq!['\n'];
    let gap = "\n\n"@;
    let rest = header_lines(headers) + "\r\n"@ + body;
    let more = feed + text::unix_lines(rest);
    assert(compose(start, headers, body) =~= start + ("\r\n"@ + rest));
    lemma_unix_plain(start, "\r\n"@ + rest);
    lemma_unix_end(rest);
    let t = text::unix_lines(compose(start, headers, body));
    assert(t == start + more);
    lemma_position_after(start, more, gap);
    text::lemma_position(more, gap);
    let (head, tail) = match text::halves(t, gap) {
        Some((h, _)) => (h, more.take(text::position(more, gap)->0)),
        None => (t, more),
    };
    assert(head =~= start + tail);
    lemma_position_after(start, tail, feed);
    if tail.len() == 0 {
        assert(head =~= start);
        assert(!feed.is_prefix_of(tail));
    } else {
        assert(tail[0] == '\n');
        assert(feed.is_prefix_of(tail)) by {
            assert(tail.subrange(0, 1) =~= feed);
        }
        assert(head.take(start.len() as int) =~= start);
        assert(text::without_cr(start) == start) by {
            assert(start.contains(start.last()));
        }
    }
    assert(text::lines_of(head)[0] == start);
}

/// A message that is put together from tidy parts is read back as those parts; its body comes
/// back with a line feed in place of each carriage return and line feed.
pub proof fn law_message_is_read_back(start: Text, headers: Seq<(Text, Text)>, body: Text)
    requires
        start.len() > 0,
        tidy(start),
        tidy_headers(headers),
    ensures
        sip::message_of(compose(start, headers, body)) == Some(
            MessageModel { start_line: start, headers, body: text::unix_lines(body) },
        ),
{
    lemma_tidy_is_readable(headers);
    law_message_is_read_trimmed(start, headers, body);
}

/// Tidy headers are readable, and trimming leaves them as they are.
proof fn lemma_tidy_is_readable(headers: Seq<(Text, Text)>)
    requires
        tidy_headers(headers),
    ensures
        readable_headers(headers),
        trimmed_headers(headers) == headers,
{
    assert forall|i: int| 0 <= i < headers.len() implies readable_header(#[trigger] headers[i])
        && text::trimmed(headers[i].1) == headers[i].1 by {
        assert(tidy_header(headers[i]));
    }
    assert(trimmed_headers(headers) =~= headers);
}

/// The line of a header, without its end.
spec fn plain_line(h: (Text, Text)) -> Text {
    h.0 + ": "@ + h.1
}

/// The lines of some headers, without their ends.
spec fn plain_lines(headers: Seq<(Text, Text)>) -> Seq<Text> {
    Seq::new(headers.len(), |i: int| plain_line(headers[i]))
}

/// Whether a text is a line that is not empty.
spec fn solid(s: Text) -> bool {
    s.len() > 0 && one_line(s)
}

/// Lines with a line feed between them.
spec fn joined(ls: Seq<Text>) -> Text
    decreases ls.len(),
{
    if ls.len() == 0 {
        Seq::empty()
    } else if ls.len() == 1 {
        ls[0]
    } else {
        ls[0] + seq!['\n'] + joined(ls.drop_first())
    }
}

proof fn lemma_plain_line(h: (Text, Text))
    requires
        readable_header(h),
    ensures
        solid(plain_line(h)),
        sip::header_field(plain_line(h)) == Some((h.0, text::trimmed(h.1))),
{
    reveal_strlit(": ");
    reveal_strlit(":");
    let l = plain_line(h);
    assert(!l.contains('\r') && !l.contains('\n')) by {
        if l.contains('\r') {
            let i = choose|i: int| 0 <= i < l.len() && l[i] == '\r';
            lemma_in_plain_line(h, i);
        }
        if l.contains('\n') {
            let i = choose|i: int| 0 <= i < l.len() && l[i] == '\n';
            lemma_in_plain_line(h, i);
        }
    }
    let rest = ": "@ + h.1;
    assert(l =~= h.0 + rest);
    lemma_position_after(h.0, rest, ":"@);
    assert(":"@.is_prefix_of(rest)) by {
        assert(rest.subrange(0, 1) =~= ":"@);
    }
    assert(text::position(rest, ":"@) == Some(0int));
    assert(text::position(l, ":"@) == Some(h.0.len() as int));
    assert(l.take(h.0.len() as int) =~= h.0);
    let value = l.skip(h.0.len() + 1int);
    assert(value =~= seq![' '] + h.1);
    lemma_trim_space(h.1);
}

/// A character of a header's line is one of its name, of its value, or of what is between them.
proof fn lemma_in_plain_line(h: (Text, Text), i: int)
    requires
        0 <= i < plain_line(h).len(),
    ensures
        ({
            let c = plain_line(h)[i];
            h.0.contains(c) || h.1.contains(c) || c == ':' || c == ' '
        }),
{
    reveal_strlit(": ");
    let l = plain_line(h);
    if i < h.0.len() {
        assert(h.0[i] == l[i]);
    } else if i >= h.0.len() + 2 {
        assert(h.1[i - h.0.len() - 2] == l[i]);
    }
}

/// A pattern is not found where its first character is missing.
pub(crate) proof fn lemma_position_after(x: Text, rest: Text, pattern: Text)
    requires
        pattern.len() > 0,
        !x.contains(pattern[0]),
    ensures
        text::position(x + rest, pattern) == (match text::position(rest, pattern) {
            Some(i) => Some(x.len() + i),
            None => None::<int>,
        }),
    decreases x.len(),
{
    let s = x + rest;
    if x.len() == 0 {
        assert(s =~= rest);
    } else {
        assert(s[0] == x[0] && x.contains(x[0]));
        assert(!pattern.is_prefix_of(s)) by {
            if pattern.is_prefix_of(s) {
                assert(pattern == s.subrange(0, pattern.len() as int));
                assert(pattern[0] == s[0]);
            }
        }
        let y = x.drop_first();
        assert(s.drop_first() =~= y + rest);
        assert(!y.contains(pattern[0])) by {
            if y.contains(pattern[0]) {
                let i = choose|i: int| 0 <= i < y.len() && y[i] == pattern[0];
                assert(x[i + 1] == pattern[0]);
            }
        }
        lemma_position_after(y, rest, pattern);
    }
}

/// White space in front is trimmed.
pub(crate) proof fn lemma_trim_space(v: Text)
    ensures
        text::trimmed(seq![' '] + v) == text::trimmed(v),
{
    let p = |c: char| text::is_white(c);
    let s = seq![' '] + v;
    assert(s.drop_first() =~= v);
    assert(p(s[0]));
    assert(text::strip_start(s, p) == text::strip_start(v, p));
}

/// The lines of a message after line ends have been made alike.
proof fn lemma_unix_compose(start: Text, headers: Seq<(Text, Text)>, body: Text)
    requires
        solid(start),
        readable_headers(headers),
    ensures
        text::unix_lines(compose(start, headers, body)) == joined(
            seq![start] + plain_lines(headers),
        ) + "\n\n"@ + text::unix_lines(body),
    decreases headers.len(),
{
    reveal_strlit("\r\n");
    reveal_strlit("\n\n");
    let b = text::unix_lines(body);
    let ls = seq![start] + plain_lines(headers);
    if headers.len() == 0 {
        let gap = "\r\n"@ + ("\r\n"@ + body);
        assert(compose(start, headers, body) =~= start + gap);
        lemma_unix_plain(start, gap);
        lemma_unix_end("\r\n"@ + body);
        lemma_unix_end(body);
        assert(ls =~= seq![start]);
        assert(start + (seq!['\n'] + (seq!['\n'] + b)) =~= start + "\n\n"@ + b);
    } else {
        let next = plain_line(headers[0]);
        let tail = headers.drop_first();
        assert(readable_header(headers[0]));
        lemma_plain_line(headers[0]);
        assert forall|i: int| 0 <= i < tail.len() implies readable_header(#[trigger] tail[i]) by {
            assert(readable_header(headers[i + 1]));
        }
        lemma_unix_compose(next, tail, body);
        let rest = compose(next, tail, body);
        assert(compose(start, headers, body) =~= start + ("\r\n"@ + rest));
        lemma_unix_plain(start, "\r\n"@ + rest);
        lemma_unix_end(rest);
        let more = seq![next] + plain_lines(tail);
        assert(ls.drop_first() =~= more);
        assert(ls[0] == start);
        assert(start + (seq!['\n'] + (joined(more) + "\n\n"@ + b)) =~= start + seq!['\n'] + joined(
            more,
        ) + "\n\n"@ + b);
    }
}

/// A text without carriage returns stays as it is.
pub(crate) proof fn lemma_unix_plain(x: Text, rest: Text)
    requires
        !x.contains('\r'),
    ensures
        text::unix_lines(x + rest) == x + text::unix_lines(rest),
    decreases x.len(),
{
    if x.len() == 0 {
        assert(x + rest =~= rest);
        assert(x + text::unix_lines(rest) =~= text::unix_lines(rest));
    } else {
        let y = x.drop_first();
        assert((x + rest)[0] == x[0] && x.contains(x[0]));
        assert((x + rest).drop_first() =~= y + rest);
        assert(!y.contains('\r')) by {
            if y.contains('\r') {
                let i = choose|i: int| 0 <= i < y.len() && y[i] == '\r';
                assert(x[i + 1] == '\r');
            }
        }
        lemma_unix_plain(y, rest);
        assert(seq![x[0]] + (y + text::unix_lines(rest)) =~= x + text::unix_lines(rest));
    }
}

/// A line end becomes a line feed.
pub(crate) proof fn lemma_unix_end(rest: Text)
    ensures
        text::unix_lines("\r\n"@ + rest) == seq!['\n'] + text::unix_lines(rest),
{
    reveal_strlit("\r\n");
    let s = "\r\n"@ + rest;
    let t = s.drop_first();
    assert(s[0] == '\r' && s[1] == '\n');
    assert(text::unix_lines(s) == text::unix_lines(t));
    assert(t.drop_first() =~= rest);
    assert(t[0] == '\n');
}

/// The first empty line of a message comes after its lines.
proof fn lemma_gap(ls: Seq<Text>, body: Text)
    requires
        ls.len() > 0,
        forall|i: int| 0 <= i < ls.len() ==> solid(#[trigger] ls[i]),
    ensures
        text::position(joined(ls) + "\n\n"@ + body, "\n\n"@) == Some(joined(ls).len() as int),
    decreases ls.len(),
{
    reveal_strlit("\n\n");
    let gap = "\n\n"@;
    let first = ls[0];
    assert(solid(first));
    if ls.len() == 1 {
        let rest = gap + body;
        assert(joined(ls) + gap + body =~= first + rest);
        lemma_position_after(first, rest, gap);
        assert(gap.is_prefix_of(rest)) by {
            assert(rest.subrange(0, 2) =~= gap);
        }
    } else {
        let tail = ls.drop_first();
        assert forall|i: int| 0 <= i < tail.len() implies solid(#[trigger] tail[i]) by {
            assert(solid(ls[i + 1]));
        }
        lemma_gap(tail, body);
        let rest = joined(tail) + gap + body;
        let s = seq!['\n'] + rest;
        assert(joined(ls) + gap + body =~= first + s);
        lemma_position_after(first, s, gap);
        lemma_joined_start(tail);
        assert(s[0] == '\n' && s[1] == joined(tail)[0]);
        assert(!gap.is_prefix_of(s)) by {
            if gap.is_prefix_of(s) {
                assert(gap == s.subrange(0, 2));
                assert(gap[1] == s[1]);
            }
        }
        assert(s.drop_first() =~= rest);
    }
}

/// Joined lines begin with a character that is no line feed.
proof fn lemma_joined_start(ls: Seq<Text>)
    requires
        ls.len() > 0,
        forall|i: int| 0 <= i < ls.len() ==> solid(#[trigger] ls[i]),
    ensures
        joined(ls).len() > 0,
        joined(ls)[0] != '\n',
{
    assert(solid(ls[0]));
    assert(ls[0].contains(ls[0][0]));
    assert(joined(ls)[0] == ls[0][0]);
}

/// Joined lines are read back as those lines.
proof fn lemma_lines_of_joined(ls: Seq<Text>)
    requires
        ls.len() > 0,
        forall|i: int| 0 <= i < ls.len() ==> solid(#[trigger] ls[i]),
    ensures
        text::lines_of(joined(ls)) == ls,
    decreases ls.len(),
{
    let first = ls[0];
    let feed = seq!['\n'];
    assert(solid(first));
    if ls.len() == 1 {
        assert(first + Seq::<char>::empty() =~= first);
        lemma_position_after(first, Seq::empty(), feed);
        assert(!feed.is_prefix_of(Seq::<char>::empty()));
        assert(ls =~= seq![first]);
    } else {
        let tail = ls.drop_first();
        assert forall|i: int| 0 <= i < tail.len() implies solid(#[trigger] tail[i]) by {
            assert(solid(ls[i + 1]));
        }
        lemma_lines_of_joined(tail);
        let rest = feed + joined(tail);
        assert(joined(ls) =~= first + rest);
        lemma_position_after(first, rest, feed);
        assert(feed.is_prefix_of(rest)) by {
            assert(rest.subrange(0, 1) =~= feed);
        }
        assert(joined(ls).take(first.len() as int) =~= first);
        assert(joined(ls).skip(first.len() + 1int) =~= joined(tail));
        assert(text::without_cr(first) == first) by {
            assert(first.contains(first.last()));
        }
        assert(seq![first] + tail =~= ls);
    }
}

/// The lines of headers are read back as those headers, trimmed.
proof fn lemma_headers_read_back(headers: Seq<(Text, Text)>, k: int)
    requires
        readable_headers(headers),
        0 <= k <= headers.len(),
    ensures
        plain_lines(headers).take(k).filter_map(|l: Text| sip::header_field(l)) == trimmed_headers(
            headers,
        ).take(k),
    decreases k,
{
    let f = |l: Text| sip::header_field(l);
    let ls = plain_lines(headers);
    let ts = trimmed_headers(headers);
    if k == 0 {
        reveal_with_fuel(Seq::filter_map, 1);
        assert(ls.take(0).filter_map(f) =~= ts.take(0));
    } else {
        lemma_headers_read_back(headers, k - 1);
        ls.lemma_filter_map_take_succ(f, k - 1);
        assert(readable_header(headers[k - 1]));
        lemma_plain_line(headers[k - 1]);
        assert(ts.take(k) =~= ts.take(k - 1) + seq![ts[k - 1]]);
    }
}

// ---------------------------------------------------------------------------------------------
// The messages of the bridge, in their parts

/// The start line of a request.
pub open spec fn request_start(method: Text, uri: Text) -> Text {
    method + " "@ + uri + " SIP/2.0"@
}

/// The headers of a CANCEL with the From value `from`.
pub open spec fn cancel_headers(p: TeardownModel, from: Text) -> Seq<(Text, Text)> {
    Seq::empty()
        .push(("Via"@, request::via(p.via_host, p.via_port, p.invite_branch)))
        .push(("Max-Forwards"@, "70"@))
        .push(("From"@, from))
        .push(("To"@, request::address(p.invite_uri)))
        .push(("Call-ID"@, p.call_id))
        .push(("CSeq"@, request::cseq(p.invite_cseq, "CANCEL"@)))
        .push(("Content-Length"@, "0"@))
}

/// The headers of a BYE.
pub open spec fn bye_headers(p: TeardownModel) -> Seq<(Text, Text)> {
    Seq::empty()
        .push(("Via"@, request::via(p.via_host, p.via_port, p.fresh_branch)))
        .push(("Max-Forwards"@, "70"@))
        .push(("From"@, request::tagged_address(p.from_uri, p.local_tag)))
        .push(("To"@, request::maybe_tagged(p.invite_uri, p.remote_tag)))
        .push(("Call-ID"@, p.call_id))
        .push(("CSeq"@, request::cseq(request::next_cseq(p.invite_cseq), "BYE"@)))
        .push(("Contact"@, request::address(p.contact)))
        .push(("Content-Length"@, "0"@))
}

/// Where a BYE goes.
pub open spec fn bye_uri(p: TeardownModel) -> Text {
    match p.remote_target {
        Some(target) => target,
        None => p.invite_uri,
    }
}

/// The headers of an ACK.
pub open spec fn ack_headers(cfg: CfgAsterisk, d: SnapshotModel, branch: Text, number: u32) -> Seq<
    (Text, Text),
> {
    Seq::empty()
        .push(("Via"@, request::own_via(cfg, branch)))
        .push(("Max-Forwards"@, "70"@))
        .push(("From"@, request::tagged_address(d.local_uri, d.local_tag)))
        .push(("To"@, request::maybe_tagged(request::request_uri(cfg, d.number), d.remote_tag)))
        .push(("Call-ID"@, d.call_id_header))
        .push(("CSeq"@, request::cseq(number, "ACK"@)))
        .push(("Contact"@, request::address(request::contact_uri(cfg))))
        .push(("Content-Length"@, "0"@))
}

/// The header that answers a challenge.
pub open spec fn authorization_header(
    cfg: CfgAsterisk,
    method: Text,
    uri: Text,
    c: ChallengeModel,
    cnonce: Text,
) -> (Text, Text) {
    (
        if c.proxy {
            "Proxy-Authorization"@
        } else {
            "Authorization"@
        },
        "Digest username=\""@ + cfg.auth_user@ + "\", realm=\""@ + digest::chosen_realm(cfg, c)
            + "\", nonce=\""@ + c.nonce + "\", uri=\""@ + uri + "\", response=\""@
            + digest::digest_response(cfg, method, uri, c, cnonce) + "\""@ + digest::qop_params(
            c.qop,
            cnonce,
        ) + digest::opaque_param(c.opaque) + digest::algorithm_param(c.algorithm),
    )
}

/// `headers` and the header that answers a challenge, if there is one.
pub open spec fn with_authorization(
    headers: Seq<(Text, Text)>,
    cfg: CfgAsterisk,
    method: Text,
    uri: Text,
    auth: Option<ChallengeModel>,
    cnonce: Text,
) -> Seq<(Text, Text)> {
    match auth {
        Some(c) => headers.push(authorization_header(cfg, method, uri, c, cnonce)),
        None => headers,
    }
}

/// `headers` and those that assert who is calling, if there is somebody to show.
pub open spec fn with_identity(headers: Seq<(Text, Text)>, uri: Text, display: Text) -> Seq<
    (Text, Text),
> {
    if display.len() == 0 {
        headers
    } else {
        headers.push(("P-Asserted-Identity"@, "\""@ + display + "\" <"@ + uri + ">"@)).push(
            (
                "Remote-Party-ID"@,
                "\""@ + display + "\" <"@ + uri + ">;party=calling;screen=yes;privacy=off"@,
            ),
        )
    }
}

/// The headers that every INVITE begins with.
pub open spec fn invite_head(cfg: CfgAsterisk, d: SnapshotModel, branch: Text) -> Seq<
    (Text, Text),
> {
    Seq::empty()
        .push(("Via"@, request::own_via(cfg, branch)))
        .push(("Max-Forwards"@, "70"@))
        .push(("From"@, request::invite_from(cfg, d)))
        .push(("To"@, request::address(request::request_uri(cfg, d.number))))
        .push(("Call-ID"@, d.call_id_header))
        .push(("CSeq"@, request::cseq(d.cseq, "INVITE"@)))
        .push(("Contact"@, request::address(request::contact_uri(cfg))))
        .push(("Allow"@, request::allowed_methods()))
        .push(("Supported"@, "replaces"@))
}

/// The headers of an INVITE.
pub open spec fn invite_headers(
    cfg: CfgAsterisk,
    d: SnapshotModel,
    branch: Text,
    rtp_port: u16,
    auth: Option<ChallengeModel>,
    cnonce: Text,
) -> Seq<(Text, Text)> {
    with_authorization(
        with_identity(
            invite_head(cfg, d, branch),
            request::identity_uri(cfg, d),
            request::caller_id(cfg, d),
        ),
        cfg,
        "INVITE"@,
        request::request_uri(cfg, d.number),
        auth,
        cnonce,
    ).push(("Content-Type"@, "application/sdp"@)).push(
        ("Content-Length"@, request::content_length(request::sdp_text(cfg, rtp_port))),
    )
}

/// The start line of a response.
pub open spec fn response_start(code: u16, reason: Text) -> Text {
    "SIP/2.0 "@ + text::decimal(code as nat) + " "@ + reason
}

/// The headers of a response.
pub open spec fn response_headers(
    cfg: CfgAsterisk,
    ctx: ContextModel,
    code: u16,
    to_tag: Option<Text>,
    kind: Text,
    body: Text,
) -> Seq<(Text, Text)> {
    let repeated = Seq::empty()
        .push(("Via"@, ctx.via))
        .push(("From"@, ctx.from))
        .push(("To"@, fields::with_tag(ctx.to, to_tag)))
        .push(("Call-ID"@, ctx.call_id))
        .push(("CSeq"@, ctx.cseq));
    let located = if code >= 180 {
        repeated.push(("Contact"@, request::address(request::contact_uri(cfg)))).push(
            ("Allow"@, request::allowed_methods()),
        )
    } else {
        repeated
    };
    let typed = if kind.len() == 0 {
        located
    } else {
        located.push(("Content-Type"@, kind))
    };
    typed.push(("Content-Length"@, request::content_length(body)))
}

/// A CANCEL is made of its start line and its headers.
pub proof fn law_cancel_parts(p: TeardownModel, from: Text)
    ensures
        request::cancel_text_with(p, from) == compose(
            request_start("CANCEL"@, p.invite_uri),
            cancel_headers(p, from),
            Seq::empty(),
        ),
{
    broadcast use lemma_one_more;

    lemma_start("CANCEL"@, p.invite_uri);
    lemma_no_headers(request::request_line("CANCEL"@, p.invite_uri));
    lemma_no_body(request::cancel_text_with(p, from));
}

/// A BYE is made of its start line and its headers.
pub proof fn law_bye_parts(p: TeardownModel)
    ensures
        request::bye_text(p) == compose(
            request_start("BYE"@, bye_uri(p)),
            bye_headers(p),
            Seq::empty(),
        ),
{
    broadcast use lemma_one_more;

    lemma_start("BYE"@, bye_uri(p));
    lemma_no_headers(request::request_line("BYE"@, bye_uri(p)));
    lemma_no_body(request::bye_text(p));
}

/// An ACK is made of its start line and its headers.
pub proof fn law_ack_parts(
    cfg: CfgAsterisk,
    d: SnapshotModel,
    uri: Text,
    branch: Text,
    number: u32,
)
    ensures
        request::ack_text_to(cfg, d, uri, branch, number) == compose(
            request_start("ACK"@, uri),
            ack_headers(cfg, d, branch, number),
            Seq::empty(),
        ),
{
    broadcast use lemma_one_more;

    lemma_start("ACK"@, uri);
    lemma_no_headers(request::request_line("ACK"@, uri));
    lemma_no_body(request::ack_text_to(cfg, d, uri, branch, number));
}

/// An INVITE is made of its start line, its headers and its session description.
pub proof fn law_invite_parts(
    cfg: CfgAsterisk,
    d: SnapshotModel,
    branch: Text,
    rtp_port: u16,
    auth: Option<ChallengeModel>,
    cnonce: Text,
)
    ensures
        request::invite_text(cfg, d, branch, rtp_port, auth, cnonce) == compose(
            request_start("INVITE"@, request::request_uri(cfg, d.number)),
            invite_headers(cfg, d, branch, rtp_port, auth, cnonce),
            request::sdp_text(cfg, rtp_port),
        ),
{
    reveal(request::invite_text);
    broadcast use lemma_one_more;

    let uri = request::request_uri(cfg, d.number);
    let base = request::request_line("INVITE"@, uri);
    lemma_start("INVITE"@, uri);
    lemma_no_headers(base);
    let head = invite_head(cfg, d, branch);
    let who = request::identity_uri(cfg, d);
    let display = request::caller_id(cfg, d);
    lemma_identity(base, head, who, display);
    lemma_authorization(
        base,
        with_identity(head, who, display),
        cfg,
        "INVITE"@,
        uri,
        auth,
        cnonce,
    );
}

/// The headers of a REGISTER.
pub open spec fn register_headers(
    cfg: CfgAsterisk,
    branch: Text,
    call_id: Text,
    number: u32,
    auth: Option<ChallengeModel>,
    cnonce: Text,
) -> Seq<(Text, Text)> {
    let head = Seq::empty()
        .push(("Via"@, request::own_via(cfg, branch)))
        .push(("Max-Forwards"@, "70"@))
        .push(("From"@, request::tagged_address(request::local_uri(cfg), "flowreg"@)))
        .push(("To"@, request::address(request::local_uri(cfg))))
        .push(("Call-ID"@, call_id))
        .push(("CSeq"@, request::cseq(number, "REGISTER"@)))
        .push(("Contact"@, request::address(request::contact_uri(cfg))))
        .push(("Expires"@, "120"@));
    with_authorization(head, cfg, "REGISTER"@, request::server_uri(cfg), auth, cnonce).push(
        ("User-Agent"@, "FlowStation"@),
    ).push(("Content-Length"@, "0"@))
}

/// A REGISTER is made of its start line and its headers.
pub proof fn law_register_parts(
    cfg: CfgAsterisk,
    branch: Text,
    call_id: Text,
    number: u32,
    auth: Option<ChallengeModel>,
    cnonce: Text,
)
    ensures
        request::register_text(cfg, branch, call_id, number, auth, cnonce) == compose(
            request_start("REGISTER"@, request::server_uri(cfg)),
            register_headers(cfg, branch, call_id, number, auth, cnonce),
            Seq::empty(),
        ),
{
    reveal(request::register_text);
    broadcast use lemma_one_more;

    let uri = request::server_uri(cfg);
    let base = request::request_line("REGISTER"@, uri);
    lemma_start("REGISTER"@, uri);
    lemma_no_headers(base);
    let head = Seq::empty()
        .push(("Via"@, request::own_via(cfg, branch)))
        .push(("Max-Forwards"@, "70"@))
        .push(("From"@, request::tagged_address(request::local_uri(cfg), "flowreg"@)))
        .push(("To"@, request::address(request::local_uri(cfg))))
        .push(("Call-ID"@, call_id))
        .push(("CSeq"@, request::cseq(number, "REGISTER"@)))
        .push(("Contact"@, request::address(request::contact_uri(cfg))))
        .push(("Expires"@, "120"@));
    lemma_authorization(base, head, cfg, "REGISTER"@, uri, auth, cnonce);
    lemma_no_body(request::register_text(cfg, branch, call_id, number, auth, cnonce));
}

/// The headers of an OPTIONS.
pub open spec fn options_headers(cfg: CfgAsterisk, branch: Text, id: u128) -> Seq<(Text, Text)> {
    Seq::empty()
        .push(("Via"@, request::own_via(cfg, branch)))
        .push(("Max-Forwards"@, "70"@))
        .push(("From"@, request::tagged_address(request::local_uri(cfg), "flowopt"@)))
        .push(("To"@, request::address(request::server_uri(cfg))))
        .push(("Call-ID"@, request::options_call_id(cfg, id)))
        .push(("CSeq"@, "1 OPTIONS"@))
        .push(("Contact"@, request::address(request::contact_uri(cfg))))
        .push(("Accept"@, "application/sdp"@))
        .push(("Content-Length"@, "0"@))
}

/// An OPTIONS is made of its start line and its headers.
pub proof fn law_options_parts(cfg: CfgAsterisk, branch: Text, id: u128)
    ensures
        request::options_text(cfg, branch, id) == compose(
            request_start("OPTIONS"@, request::server_uri(cfg)),
            options_headers(cfg, branch, id),
            Seq::empty(),
        ),
{
    reveal(request::options_text);
    broadcast use lemma_one_more;

    let uri = request::server_uri(cfg);
    lemma_start("OPTIONS"@, uri);
    lemma_no_headers(request::request_line("OPTIONS"@, uri));
    lemma_no_body(request::options_text(cfg, branch, id));
}

/// A response is made of its start line, its headers and its body.
pub proof fn law_response_parts(
    cfg: CfgAsterisk,
    ctx: ContextModel,
    code: u16,
    reason: Text,
    to_tag: Option<Text>,
    kind: Text,
    body: Text,
)
    ensures
        request::response_text(cfg, ctx, code, reason, to_tag, kind, body) == compose(
            response_start(code, reason),
            response_headers(cfg, ctx, code, to_tag, kind, body),
            body,
        ),
{
    broadcast use lemma_one_more;

    let base = response_start(code, reason) + "\r\n"@;
    lemma_no_headers(base);
    let repeated = base + request::line("Via"@, ctx.via) + request::line("From"@, ctx.from)
        + request::line("To"@, fields::with_tag(ctx.to, to_tag)) + request::line(
        "Call-ID"@,
        ctx.call_id,
    ) + request::line("CSeq"@, ctx.cseq);
    let contact = request::line("Contact"@, request::address(request::contact_uri(cfg)));
    let allow = request::line("Allow"@, request::allowed_methods());
    let located = repeated + request::response_contact(cfg, code);
    assert(repeated + (contact + allow) =~= repeated + contact + allow);
    assert(repeated + Seq::<char>::empty() =~= repeated);
    assert(located + Seq::<char>::empty() =~= located);
}

/// One more header adds its line at the end.
broadcast proof fn lemma_one_more(base: Text, headers: Seq<(Text, Text)>, h: (Text, Text))
    ensures
        #[trigger] (base + header_lines(headers.push(h))) == base + header_lines(headers)
            + request::line(h.0, h.1),
{
    lemma_push_header(headers, h);
    assert(base + (header_lines(headers) + request::line(h.0, h.1)) =~= base + header_lines(headers)
        + request::line(h.0, h.1));
}

proof fn lemma_push_header(headers: Seq<(Text, Text)>, h: (Text, Text))
    ensures
        header_lines(headers.push(h)) == header_lines(headers) + request::line(h.0, h.1),
    decreases headers.len(),
{
    let l = request::line(h.0, h.1);
    let more = headers.push(h);
    if headers.len() == 0 {
        assert(more.drop_first() =~= Seq::empty());
        assert(more[0] == h);
        assert(header_lines(more.drop_first()) =~= Seq::empty());
        assert(l + Seq::<char>::empty() =~= Seq::<char>::empty() + l);
    } else {
        let first = request::line(headers[0].0, headers[0].1);
        assert(more.drop_first() =~= headers.drop_first().push(h));
        assert(more[0] == headers[0]);
        lemma_push_header(headers.drop_first(), h);
        assert(first + (header_lines(headers.drop_first()) + l) =~= first + header_lines(
            headers.drop_first(),
        ) + l);
    }
}

proof fn lemma_no_headers(base: Text)
    ensures
        base + header_lines(Seq::empty()) == base,
{
    assert(base + header_lines(Seq::empty()) =~= base);
}

proof fn lemma_no_body(t: Text)
    ensures
        t + Seq::<char>::empty() == t,
{
    assert(t + Seq::<char>::empty() =~= t);
}

proof fn lemma_start(method: Text, uri: Text)
    ensures
        request::request_line(method, uri) == request_start(method, uri) + "\r\n"@,
{
    reveal_strlit(" SIP/2.0");
    reveal_strlit(" SIP/2.0\r\n");
    reveal_strlit("\r\n");
    assert(" SIP/2.0\r\n"@ =~= " SIP/2.0"@ + "\r\n"@);
    assert(method + " "@ + uri + (" SIP/2.0"@ + "\r\n"@) =~= method + " "@ + uri + " SIP/2.0"@
        + "\r\n"@);
}

/// The identity headers add their text at the end.
proof fn lemma_identity(base: Text, headers: Seq<(Text, Text)>, uri: Text, display: Text)
    ensures
        base + header_lines(with_identity(headers, uri, display)) == base + header_lines(headers)
            + request::identity_text(uri, display),
{
    broadcast use lemma_one_more;

    let t = base + header_lines(headers);
    if display.len() == 0 {
        lemma_no_body(t);
    } else {
        let a = "\""@ + display + "\" <"@ + uri + ">"@;
        let b = "\""@ + display + "\" <"@ + uri + ">;party=calling;screen=yes;privacy=off"@;
        let text = request::line("P-Asserted-Identity"@, a) + request::line("Remote-Party-ID"@, b);
        reveal_strlit("P-Asserted-Identity: \"");
        reveal_strlit("P-Asserted-Identity");
        reveal_strlit(": ");
        reveal_strlit("\"");
        reveal_strlit("\" <");
        reveal_strlit(">");
        reveal_strlit(">\r\nRemote-Party-ID: \"");
        reveal_strlit("Remote-Party-ID");
        reveal_strlit("\r\n");
        reveal_strlit(">;party=calling;screen=yes;privacy=off");
        reveal_strlit(">;party=calling;screen=yes;privacy=off\r\n");
        assert("P-Asserted-Identity: \""@ =~= "P-Asserted-Identity"@ + ": "@ + "\""@);
        assert(">\r\nRemote-Party-ID: \""@ =~= ">"@ + "\r\n"@ + "Remote-Party-ID"@ + ": "@ + "\""@);
        assert(">;party=calling;screen=yes;privacy=off\r\n"@
            =~= ">;party=calling;screen=yes;privacy=off"@ + "\r\n"@);
        assert(text =~= request::identity_text(uri, display));
        assert(t + (request::line("P-Asserted-Identity"@, a) + request::line("Remote-Party-ID"@, b))
            =~= t + request::line("P-Asserted-Identity"@, a) + request::line(
            "Remote-Party-ID"@,
            b,
        ));
    }
}

proof fn lemma_regroup(a: Text, b: Text, c: Text)
    ensures
        a + (b + c) == a + b + c,
{
    assert(a + (b + c) =~= a + b + c);
}

/// The line that answers a challenge is that of its header.
pub(crate) proof fn lemma_authorization_text(
    cfg: CfgAsterisk,
    method: Text,
    uri: Text,
    c: ChallengeModel,
    cnonce: Text,
)
    ensures
        digest::authorization(cfg, method, uri, c, cnonce) == ({
            let (name, value) = authorization_header(cfg, method, uri, c, cnonce);
            name + ": "@ + value
        }),
{
    let (name, value) = authorization_header(cfg, method, uri, c, cnonce);
    let whole = digest::authorization(cfg, method, uri, c, cnonce);
    reveal_strlit(": Digest username=\"");
    reveal_strlit("Digest username=\"");
    reveal_strlit(": ");
    assert(": Digest username=\""@ =~= ": "@ + "Digest username=\""@);
    let pre = name + ": "@;
    let v = "Digest username=\""@;
    let w = name + ": Digest username=\""@;
    assert(pre + v =~= w);
    let next = cfg.auth_user@;
    lemma_regroup(pre, v, next);
    let v = v + next;
    let w = w + next;
    let next = "\", realm=\""@;
    lemma_regroup(pre, v, next);
    let v = v + next;
    let w = w + next;
    let next = digest::chosen_realm(cfg, c);
    lemma_regroup(pre, v, next);
    let v = v + next;
    let w = w + next;
    let next = "\", nonce=\""@;
    lemma_regroup(pre, v, next);
    let v = v + next;
    let w = w + next;
    let next = c.nonce;
    lemma_regroup(pre, v, next);
    let v = v + next;
    let w = w + next;
    let next = "\", uri=\""@;
    lemma_regroup(pre, v, next);
    let v = v + next;
    let w = w + next;
    let next = uri;
    lemma_regroup(pre, v, next);
    let v = v + next;
    let w = w + next;
    let next = "\", response=\""@;
    lemma_regroup(pre, v, next);
    let v = v + next;
    let w = w + next;
    let next = digest::digest_response(cfg, method, uri, c, cnonce);
    lemma_regroup(pre, v, next);
    let v = v + next;
    let w = w + next;
    let next = "\""@;
    lemma_regroup(pre, v, next);
    let v = v + next;
    let w = w + next;
    let next = digest::qop_params(c.qop, cnonce);
    lemma_regroup(pre, v, next);
    let v = v + next;
    let w = w + next;
    let next = digest::opaque_param(c.opaque);
    lemma_regroup(pre, v, next);
    let v = v + next;
    let w = w + next;
    let next = digest::algorithm_param(c.algorithm);
    lemma_regroup(pre, v, next);
    let v = v + next;
    let w = w + next;
    assert(v == value && w == whole);
}

/// The header that answers a challenge adds its line at the end.
proof fn lemma_authorization(
    base: Text,
    headers: Seq<(Text, Text)>,
    cfg: CfgAsterisk,
    method: Text,
    uri: Text,
    auth: Option<ChallengeModel>,
    cnonce: Text,
)
    ensures
        base + header_lines(with_authorization(headers, cfg, method, uri, auth, cnonce)) == base
            + header_lines(headers) + digest::authorization_line(cfg, method, uri, auth, cnonce),
{
    broadcast use lemma_one_more;

    let t = base + header_lines(headers);
    match auth {
        None => {
            lemma_no_body(t);
        },
        Some(c) => {
            lemma_authorization_text(cfg, method, uri, c, cnonce);
        },
    }
}

} // verus!

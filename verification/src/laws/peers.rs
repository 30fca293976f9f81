//! What a peer reads in each message of the bridge.
use vstd::prelude::*;
use crate::config::CfgAsterisk;
use crate::dialog;
use crate::dialog::{DialogModel, SnapshotModel};
use crate::digest::ChallengeModel;
use crate::fields::ContextModel;
use crate::ident;
use crate::laws::authentication;
use crate::laws::offers;
use crate::laws::reading;
use crate::model;
use crate::request;
use crate::request::TeardownModel;
use crate::sip;
use crate::sip::MessageModel;
use crate::text;
use crate::text::Text;
use crate::wire;

verus! {

// ---------------------------------------------------------------------------------------------
// Addresses

/// The SIP address of a user at a host.
pub open spec fn sip_address(user: Text, host: Text) -> Text {
    "sip:"@ + user + "@"@ + host
}

/// An address in angle brackets, with a tag if there is one.
pub open spec fn angled(uri: Text, tag: Option<Text>) -> Text {
    match tag {
        Some(t) => "<"@ + uri + ">;tag="@ + t,
        None => "<"@ + uri + ">"@,
    }
}

/// The top Via of a transaction of the bridge.
pub open spec fn transaction(cfg: CfgAsterisk, branch: Text) -> Text {
    "SIP/2.0/UDP "@ + cfg.contact_host@ + ":"@ + text::decimal(cfg.bind_port as nat)
        + ";branch="@ + branch + ";rport"@
}

/// Where the bridge says that it can be reached.
pub open spec fn own_contact(cfg: CfgAsterisk) -> Text {
    angled(
        sip_address(cfg.local_user@, cfg.contact_host@) + ":"@ + text::decimal(
            cfg.bind_port as nat,
        ),
        None,
    )
}

/// The sequence number and the method of a request.
pub open spec fn counted(number: u32, method: Text) -> Text {
    text::decimal(number as nat) + " "@ + method
}

// ---------------------------------------------------------------------------------------------
// What can be written into a message

/// Whether no setting that goes into messages holds a line break.
pub open spec fn plain_settings(cfg: CfgAsterisk) -> bool {
    &&& wire::one_line(cfg.contact_host@)
    &&& wire::one_line(cfg.remote_host@)
    &&& wire::one_line(cfg.from_domain@)
    &&& wire::one_line(cfg.local_user@)
}

/// Whether no header of a request that responses repeat holds a line break.
pub open spec fn plain_context(ctx: ContextModel) -> bool {
    &&& wire::one_line(ctx.via)
    &&& wire::one_line(ctx.from)
    &&& wire::one_line(ctx.to)
    &&& wire::one_line(ctx.call_id)
    &&& wire::one_line(ctx.cseq)
}

/// Whether nothing that the requests of a dialog are made from holds a line break.
pub open spec fn plain_dialog(d: DialogModel) -> bool {
    &&& wire::one_line(d.number)
    &&& wire::one_line(d.call_id_header)
    &&& wire::one_line(d.local_uri)
    &&& wire::one_line(d.local_tag)
    &&& wire::one_line(d.invite_branch)
    &&& d.remote_tag matches Some(tag) ==> wire::one_line(tag)
    &&& d.remote_target matches Some(target) ==> wire::one_line(target)
}

// ---------------------------------------------------------------------------------------------
// Names of headers

/// Texts of different lengths are not the same in any case of letters.
pub(crate) broadcast proof fn lemma_lengths_differ(a: Text, b: Text)
    ensures
        #[trigger] text::same_ignoring_case(a, b) ==> a.len() == b.len(),
{
    if text::same_ignoring_case(a, b) {
        assert(text::lower(a).len() == a.len());
        assert(text::lower(b).len() == b.len());
    }
}

/// The lengths of the names of headers, and that those of one length are told apart.
pub(crate) proof fn lemma_header_lengths()
    ensures
        "Via"@.len() == 3,
        "Max-Forwards"@.len() == 12,
        "From"@.len() == 4,
        "To"@.len() == 2,
        "Call-ID"@.len() == 7,
        "CSeq"@.len() == 4,
        "Contact"@.len() == 7,
        "Allow"@.len() == 5,
        "Supported"@.len() == 9,
        "P-Asserted-Identity"@.len() == 19,
        "Remote-Party-ID"@.len() == 15,
        "Content-Type"@.len() == 12,
        "Content-Length"@.len() == 14,
        "Expires"@.len() == 7,
        "User-Agent"@.len() == 10,
        "Accept"@.len() == 6,
        "Authorization"@.len() == 13,
        "Proxy-Authorization"@.len() == 19,
        !text::same_ignoring_case("From"@, "CSeq"@),
        !text::same_ignoring_case("CSeq"@, "From"@),
        !text::same_ignoring_case("Call-ID"@, "Contact"@),
        !text::same_ignoring_case("Contact"@, "Call-ID"@),
        !text::same_ignoring_case("Call-ID"@, "Expires"@),
        !text::same_ignoring_case("Contact"@, "Expires"@),
        !text::same_ignoring_case("Max-Forwards"@, "Content-Type"@),
        !text::same_ignoring_case("Content-Type"@, "Max-Forwards"@),
        !text::same_ignoring_case("P-Asserted-Identity"@, "Proxy-Authorization"@),
        !text::same_ignoring_case("Proxy-Authorization"@, "P-Asserted-Identity"@),
{
    reveal_strlit("Via");
    reveal_strlit("Max-Forwards");
    reveal_strlit("From");
    reveal_strlit("To");
    reveal_strlit("Call-ID");
    reveal_strlit("CSeq");
    reveal_strlit("Contact");
    reveal_strlit("Allow");
    reveal_strlit("Supported");
    reveal_strlit("P-Asserted-Identity");
    reveal_strlit("Remote-Party-ID");
    reveal_strlit("Content-Type");
    reveal_strlit("Content-Length");
    reveal_strlit("Expires");
    reveal_strlit("User-Agent");
    reveal_strlit("Accept");
    reveal_strlit("Authorization");
    reveal_strlit("Proxy-Authorization");
    assert(text::lower("From"@)[0] == 'f');
    assert(text::lower("CSeq"@)[0] == 'c');
    assert(text::lower("Call-ID"@)[1] == 'a');
    assert(text::lower("Contact"@)[1] == 'o');
    assert(text::lower("Expires"@)[1] == 'x');
    assert(text::lower("Max-Forwards"@)[0] == 'm');
    assert(text::lower("Content-Type"@)[0] == 'c');
    assert(text::lower("P-Asserted-Identity"@)[1] == '-');
    assert(text::lower("Proxy-Authorization"@)[1] == 'r');
}

/// Names and values that stand in messages of the bridge are single words.
pub(crate) proof fn lemma_more_names()
    ensures
        reading::is_name("Expires"@),
        reading::is_name("User-Agent"@),
        reading::is_name("Accept"@),
        reading::is_name("Authorization"@),
        reading::is_name("Proxy-Authorization"@),
        reading::is_name("120"@),
        reading::is_name("FlowStation"@),
        reading::is_name("REGISTER"@),
        reading::is_name("OPTIONS"@),
{
    reveal_strlit("Expires");
    reading::lemma_name("Expires"@);
    reveal_strlit("User-Agent");
    reading::lemma_name("User-Agent"@);
    reveal_strlit("Accept");
    reading::lemma_name("Accept"@);
    reveal_strlit("Authorization");
    reading::lemma_name("Authorization"@);
    reveal_strlit("Proxy-Authorization");
    reading::lemma_name("Proxy-Authorization"@);
    reveal_strlit("120");
    reading::lemma_name("120"@);
    reveal_strlit("FlowStation");
    reading::lemma_name("FlowStation"@);
    reveal_strlit("REGISTER");
    reading::lemma_name("REGISTER"@);
    reveal_strlit("OPTIONS");
    reading::lemma_name("OPTIONS"@);
}

/// Whether a message carries a body, and says how many octets of it were sent.
pub open spec fn carries(payload: Text, m: MessageModel, body: Text) -> bool {
    &&& body.is_suffix_of(payload)
    &&& m.body == text::unix_lines(body)
    &&& m.header("Content-Length"@) == Some(
        text::decimal(vstd::utf8::encode_utf8(body).len()),
    )
}

/// Whether a message has no body, and says so.
pub open spec fn carries_nothing(m: MessageModel) -> bool {
    &&& m.body.len() == 0
    &&& m.header("Content-Length"@) == Some("0"@)
    &&& m.header("Content-Type"@) is None
}

/// A body ends a message.
pub(crate) proof fn lemma_body_ends(start: Text, headers: Seq<(Text, Text)>, body: Text)
    ensures
        body.is_suffix_of(wire::compose(start, headers, body)),
{
    let t = wire::compose(start, headers, body);
    assert(t.subrange(t.len() - body.len(), t.len() as int) =~= body);
}

/// The addresses of the bridge lie within one line.
pub(crate) proof fn lemma_plain_uris(cfg: CfgAsterisk, number: Text)
    requires
        plain_settings(cfg),
        wire::one_line(number),
    ensures
        wire::one_line(request::contact_uri(cfg)),
        wire::tidy(own_contact(cfg)),
        wire::one_line(request::request_uri(cfg, number)),
        wire::one_line(request::local_uri(cfg)),
        wire::one_line(request::server_uri(cfg)),
        wire::one_line(request::uri_for_user(cfg, number)),
{
    broadcast use reading::lemma_one_line_added;

    reveal_strlit("sip:");
    reveal_strlit("@");
    reveal_strlit(":");
    assert(wire::one_line("sip:"@));
    assert(wire::one_line("@"@));
    assert(wire::one_line(":"@));
    reading::law_numbers_are_read_back(cfg.bind_port as nat, cfg.bind_port as nat);
    reading::lemma_word_is_tidy(text::decimal(cfg.bind_port as nat));
    reading::lemma_address(request::contact_uri(cfg), None);
}

/// The methods that the bridge understands are written within one line.
pub(crate) proof fn lemma_allowed()
    ensures
        wire::tidy(request::allowed_methods()),
{
    reveal_strlit("INVITE, ACK, CANCEL, OPTIONS, BYE, INFO");
    assert(wire::one_line(request::allowed_methods()));
    reading::lemma_tidy(request::allowed_methods());
}

// ---------------------------------------------------------------------------------------------
// Responses

/// The To of a response: that of the request, with a tag of the bridge unless it has one already.
pub open spec fn answered_to(to: Text, tag: Option<Text>) -> Text {
    if tag is None || text::position(text::lower(to), ";tag="@) is Some {
        to
    } else {
        to + ";tag="@ + tag->0
    }
}

/// The reason that goes with a status.
pub open spec fn reason_of(code: u16) -> Text {
    if code == 100 {
        "Trying"@
    } else if code == 180 {
        "Ringing"@
    } else if code == 200 {
        "OK"@
    } else if code == 404 {
        "Not Found"@
    } else if code == 480 {
        "Temporarily Unavailable"@
    } else if code == 486 {
        "Busy Here"@
    } else if code == 488 {
        "Not Acceptable Here"@
    } else if code == 501 {
        "Not Implemented"@
    } else {
        "Service Unavailable"@
    }
}

/// How a response is logged.
pub open spec fn status_line(code: u16) -> Text {
    text::decimal(code as nat) + " "@ + reason_of(code)
}

/// Whether a peer reads `payload` as the response with that status to the request `ctx`: it is
/// no request, and it repeats the Via, the From, the Call-ID and the CSeq of the request, so that
/// the peer can match it. `tag` is the tag of the bridge, and `sdp` the session description that
/// it carries, if there is one.
pub open spec fn reads_as_response(
    payload: Text,
    cfg: CfgAsterisk,
    ctx: ContextModel,
    code: u16,
    reason: Text,
    tag: Option<Text>,
    sdp: Option<Text>,
) -> bool {
    let m = sip::message_of(payload);
    &&& m is Some
    &&& m->0.method() is None
    &&& m->0.status_code() == Some(code as nat)
    &&& m->0.start_line == text::trimmed(
        "SIP/2.0 "@ + text::decimal(code as nat) + " "@ + reason,
    )
    &&& plain_settings(cfg) && plain_context(ctx) ==> {
        &&& m->0.header("Via"@) == Some(text::trimmed(ctx.via))
        &&& m->0.header("From"@) == Some(text::trimmed(ctx.from))
        &&& m->0.header("To"@) == Some(text::trimmed(answered_to(ctx.to, tag)))
        &&& m->0.call_id() == Some(text::trimmed(ctx.call_id))
        &&& m->0.header("CSeq"@) == Some(text::trimmed(ctx.cseq))
        &&& code >= 180 ==> {
            &&& m->0.header("Contact"@) == Some(own_contact(cfg))
            &&& m->0.header("Allow"@) == Some("INVITE, ACK, CANCEL, OPTIONS, BYE, INFO"@)
        }
        &&& match sdp {
            Some(body) => carries(payload, m->0, body) && m->0.header("Content-Type"@) == Some(
                "application/sdp"@,
            ),
            None => carries_nothing(m->0),
        }
    }
}

/// A response is read as the response to its request, with or without a session description.
pub proof fn law_responses_are_understood(
    cfg: CfgAsterisk,
    ctx: ContextModel,
    code: u16,
    reason: Text,
    tag: Option<Text>,
    sdp: Option<Text>,
)
    requires
        wire::one_line(reason),
        tag matches Some(t) ==> wire::one_line(t),
    ensures
        reads_as_response(
            match sdp {
                Some(body) => request::response_text(
                    cfg,
                    ctx,
                    code,
                    reason,
                    tag,
                    "application/sdp"@,
                    body,
                ),
                None => request::response_text(
                    cfg,
                    ctx,
                    code,
                    reason,
                    tag,
                    Seq::empty(),
                    Seq::empty(),
                ),
            },
            cfg,
            ctx,
            code,
            reason,
            tag,
            sdp,
        ),
{
    let (kind, body) = match sdp {
        Some(b) => ("application/sdp"@, b),
        None => (Seq::<char>::empty(), Seq::<char>::empty()),
    };
    reveal_strlit("application/sdp");
    reading::law_statuses_are_read_back(cfg, ctx, code, reason, tag, kind, body);
    wire::law_response_parts(cfg, ctx, code, reason, tag, kind, body);
    reading::lemma_response_start(code, reason);
    wire::law_start_line_is_read(
        wire::response_start(code, reason),
        wire::response_headers(cfg, ctx, code, tag, kind, body),
        body,
    );
    if plain_settings(cfg) && plain_context(ctx) {
        let headers = wire::response_headers(cfg, ctx, code, tag, kind, body);
        let start = wire::response_start(code, reason);
        reading::lemma_header_names();
        lemma_response_readable(cfg, ctx, code, tag, kind, body);
        lemma_response_found(cfg, ctx, code, tag, kind, body);
        wire::law_message_is_read_trimmed(start, headers, body);
        lemma_body_ends(start, headers, body);
        if sdp is None {
            lemma_nothing();
        }
    }
}

/// The headers of a response lie each within one line.
proof fn lemma_response_readable(
    cfg: CfgAsterisk,
    ctx: ContextModel,
    code: u16,
    tag: Option<Text>,
    kind: Text,
    body: Text,
)
    requires
        plain_settings(cfg),
        plain_context(ctx),
        tag matches Some(t) ==> wire::one_line(t),
        wire::one_line(kind),
    ensures
        wire::readable_headers(wire::response_headers(cfg, ctx, code, tag, kind, body)),
{
    broadcast use {reading::lemma_readable_added, reading::lemma_readable_none};

    let n = vstd::utf8::encode_utf8(body).len();
    reading::lemma_header_names();
    lemma_plain_uris(cfg, Seq::empty());
    lemma_allowed();
    reading::law_numbers_are_read_back(n, n);
    reading::lemma_word_is_tidy(text::decimal(n));
    assert(wire::one_line(answered_to(ctx.to, tag))) by {
        broadcast use reading::lemma_one_line_added;

        reveal_strlit(";tag=");
        assert(wire::one_line(";tag="@));
    }
}

/// The headers of a response are found, each without the white space at its ends.
proof fn lemma_response_found(
    cfg: CfgAsterisk,
    ctx: ContextModel,
    code: u16,
    tag: Option<Text>,
    kind: Text,
    body: Text,
)
    requires
        plain_settings(cfg),
    ensures
        ({
            let hs = wire::trimmed_headers(
                wire::response_headers(cfg, ctx, code, tag, kind, body),
            );
            &&& sip::first_value(hs, "Via"@) == Some(text::trimmed(ctx.via))
            &&& sip::first_value(hs, "From"@) == Some(text::trimmed(ctx.from))
            &&& sip::first_value(hs, "To"@) == Some(text::trimmed(answered_to(ctx.to, tag)))
            &&& sip::first_value(hs, "Call-ID"@) == Some(text::trimmed(ctx.call_id))
            &&& sip::first_value(hs, "CSeq"@) == Some(text::trimmed(ctx.cseq))
            &&& code >= 180 ==> {
                &&& sip::first_value(hs, "Contact"@) == Some(own_contact(cfg))
                &&& sip::first_value(hs, "Allow"@) == Some(
                    "INVITE, ACK, CANCEL, OPTIONS, BYE, INFO"@,
                )
            }
            &&& sip::first_value(hs, "Content-Type"@) == if kind.len() == 0 {
                None
            } else {
                Some(text::trimmed(kind))
            }
            &&& sip::first_value(hs, "Content-Length"@) == Some(
                text::decimal(vstd::utf8::encode_utf8(body).len()),
            )
        }),
{
    broadcast use {reading::lemma_added_header, lemma_lengths_differ};

    let headers = wire::response_headers(cfg, ctx, code, tag, kind, body);
    let n = vstd::utf8::encode_utf8(body).len();
    reading::lemma_no_header();
    lemma_header_lengths();
    lemma_plain_uris(cfg, Seq::empty());
    lemma_allowed();
    reading::law_numbers_are_read_back(n, n);
    reading::lemma_word_is_tidy(text::decimal(n));
    reading::lemma_first_trimmed(headers, "Allow"@);
    reading::lemma_first_trimmed(headers, "Via"@);
    reading::lemma_first_trimmed(headers, "From"@);
    reading::lemma_first_trimmed(headers, "To"@);
    reading::lemma_first_trimmed(headers, "Call-ID"@);
    reading::lemma_first_trimmed(headers, "CSeq"@);
    reading::lemma_first_trimmed(headers, "Contact"@);
    reading::lemma_first_trimmed(headers, "Content-Type"@);
    reading::lemma_first_trimmed(headers, "Content-Length"@);
}

/// Nothing is nothing, however it is counted.
pub(crate) proof fn lemma_nothing()
    ensures
        text::unix_lines(Seq::<char>::empty()).len() == 0,
        text::decimal(vstd::utf8::encode_utf8(Seq::<char>::empty()).len()) == "0"@,
{
    reveal_strlit("0");
    assert(vstd::utf8::encode_utf8(Seq::<char>::empty()).len() == 0);
    assert(text::decimal(0) =~= "0"@);
}

// ---------------------------------------------------------------------------------------------
// Requests

/// Whether a peer reads `payload` as a request of the bridge: with that method in its start line
/// and in CSeq, in the transaction with that branch, from and to those addresses.
pub open spec fn reads_as_request(
    payload: Text,
    cfg: CfgAsterisk,
    method: Text,
    uri: Text,
    branch: Text,
    from: Text,
    to: Text,
    call_id: Text,
    number: u32,
) -> bool {
    let m = sip::message_of(payload);
    &&& m is Some
    &&& m->0.method() == Some(method)
    &&& reading::is_word(uri) ==> m->0.request_uri() == Some(uri)
    &&& m->0.header("Via"@) == Some(transaction(cfg, branch))
    &&& m->0.header("Max-Forwards"@) == Some("70"@)
    &&& m->0.header("From"@) == Some(text::trimmed(from))
    &&& m->0.header("To"@) == Some(text::trimmed(to))
    &&& m->0.call_id() == Some(text::trimmed(call_id))
    &&& m->0.header("CSeq"@) == Some(counted(number, method))
    &&& m->0.cseq_method() == Some(method)
}

/// The number that the peer of a call is shown: that of the radio, or the user of the bridge.
pub open spec fn shown_number(cfg: CfgAsterisk, d: DialogModel) -> Text {
    if d.call.source_issi != 0 {
        text::decimal(d.call.source_issi as nat)
    } else {
        cfg.local_user@
    }
}

/// The From of the INVITE of a call, which its CANCEL repeats.
pub open spec fn calling_from(cfg: CfgAsterisk, d: DialogModel) -> Text {
    "\""@ + shown_number(cfg, d) + "\" "@ + angled(d.local_uri, Some(d.local_tag))
}

/// Whether a peer reads `payload` as the ACK of a final response to the INVITE of a call.
pub open spec fn reads_as_ack(
    payload: Text,
    cfg: CfgAsterisk,
    d: DialogModel,
    uri: Text,
    branch: Text,
    tag: Option<Text>,
) -> bool {
    &&& reads_as_request(
        payload,
        cfg,
        "ACK"@,
        uri,
        branch,
        angled(d.local_uri, Some(d.local_tag)),
        angled(sip_address(d.number, cfg.remote_host@), tag),
        d.call_id_header,
        d.cseq,
    )
    &&& carries_nothing(sip::message_of(payload)->0)
    &&& sip::message_of(payload)->0.header("Contact"@) == Some(own_contact(cfg))
}

/// Whether a peer reads `payload` as the CANCEL of the INVITE of a call: in the INVITE's own
/// transaction, with its Request-URI, its From, its untagged To, its Call-ID and its sequence
/// number.
pub open spec fn reads_as_cancel(payload: Text, cfg: CfgAsterisk, d: DialogModel) -> bool {
    let uri = sip_address(d.number, cfg.remote_host@);
    &&& reads_as_request(
        payload,
        cfg,
        "CANCEL"@,
        uri,
        d.invite_branch,
        calling_from(cfg, d),
        angled(uri, None),
        d.call_id_header,
        d.cseq,
    )
    &&& carries_nothing(sip::message_of(payload)->0)
    &&& sip::message_of(payload)->0.header("Contact"@) is None
}

/// Where the requests of an answered call go.
pub open spec fn target_of(cfg: CfgAsterisk, d: DialogModel) -> Text {
    match d.remote_target {
        Some(target) => target,
        None => sip_address(d.number, cfg.remote_host@),
    }
}

/// Whether a peer reads `payload` as the BYE of a call: a transaction of its own, with the next
/// sequence number and the tag of the peer, to the remote target.
pub open spec fn reads_as_bye(payload: Text, cfg: CfgAsterisk, d: DialogModel, branch: Text)
    -> bool {
    &&& reads_as_request(
        payload,
        cfg,
        "BYE"@,
        target_of(cfg, d),
        branch,
        angled(d.local_uri, Some(d.local_tag)),
        angled(sip_address(d.number, cfg.remote_host@), d.remote_tag),
        d.call_id_header,
        if d.cseq < u32::MAX {
            (d.cseq + 1) as u32
        } else {
            d.cseq
        },
    )
    &&& carries_nothing(sip::message_of(payload)->0)
    &&& sip::message_of(payload)->0.header("Contact"@) == Some(own_contact(cfg))
}

/// An ACK is read as such, with the Request-URI, the branch and the tag that it is given.
pub proof fn law_acks_are_understood(
    cfg: CfgAsterisk,
    d: DialogModel,
    uri: Text,
    branch: Text,
    tag: Option<Text>,
)
    requires
        plain_settings(cfg),
        plain_dialog(d),
        wire::one_line(uri),
        wire::one_line(branch),
        tag matches Some(t) ==> wire::one_line(t),
    ensures
        reads_as_ack(
            request::ack_text_to(
                cfg,
                (SnapshotModel { remote_tag: tag, ..dialog::snapshot(d) }),
                uri,
                branch,
                d.cseq,
            ),
            cfg,
            d,
            uri,
            branch,
            tag,
        ),
{
    broadcast use {
        reading::lemma_added_header,
        reading::lemma_readable_added,
        reading::lemma_readable_none,
        lemma_lengths_differ,
    };

    let shot = SnapshotModel { remote_tag: tag, ..dialog::snapshot(d) };
    let headers = wire::ack_headers(cfg, shot, branch, d.cseq);
    reading::lemma_header_names();
    reading::lemma_no_header();
    lemma_header_lengths();
    lemma_plain_uris(cfg, d.number);
    reading::lemma_single_address(request::request_uri(cfg, d.number), tag);
    reading::lemma_single_tagged(d.local_uri, d.local_tag);
    reading::lemma_via(cfg.contact_host@, cfg.bind_port, branch);
    reading::lemma_counted("ACK"@, d.cseq);
    reading::lemma_counted_method("ACK"@, d.cseq);
    assert(wire::readable_headers(headers));
    wire::law_ack_parts(cfg, shot, uri, branch, d.cseq);
    reveal_strlit("ACK");
    reading::lemma_request_read("ACK"@, uri, headers, Seq::empty());
    lemma_nothing();
}

/// The CANCEL of a call is read as such.
pub proof fn law_cancels_are_understood(cfg: CfgAsterisk, d: DialogModel, fresh_branch: Text)
    requires
        plain_settings(cfg),
        plain_dialog(d),
    ensures
        reads_as_cancel(
            request::dialog_teardown_text(cfg, dialog::snapshot(d), true, fresh_branch),
            cfg,
            d,
        ),
{
    broadcast use {
        reading::lemma_added_header,
        reading::lemma_readable_added,
        reading::lemma_readable_none,
        lemma_lengths_differ,
    };

    let shot = dialog::snapshot(d);
    let p = request::teardown_of(cfg, shot, true, fresh_branch);
    let from = request::invite_from(cfg, shot);
    let headers = wire::cancel_headers(p, from);
    reading::lemma_header_names();
    reading::lemma_no_header();
    lemma_header_lengths();
    lemma_plain_uris(cfg, d.number);
    lemma_plain_caller(cfg, d);
    reading::lemma_single_address(request::request_uri(cfg, d.number), None);
    reading::lemma_via(cfg.contact_host@, cfg.bind_port, d.invite_branch);
    reading::lemma_counted("CANCEL"@, d.cseq);
    reading::lemma_counted_method("CANCEL"@, d.cseq);
    assert(wire::readable_headers(headers));
    wire::law_cancel_parts(p, from);
    reveal_strlit("CANCEL");
    reading::lemma_request_read("CANCEL"@, p.invite_uri, headers, Seq::empty());
    lemma_nothing();
}

/// What the peer of a call is shown lies within one line.
pub(crate) proof fn lemma_plain_caller(cfg: CfgAsterisk, d: DialogModel)
    requires
        plain_settings(cfg),
        plain_dialog(d),
    ensures
        wire::one_line(shown_number(cfg, d)),
        wire::one_line(calling_from(cfg, d)),
        request::caller_id(cfg, dialog::snapshot(d)) == shown_number(cfg, d),
        request::invite_from(cfg, dialog::snapshot(d)) == calling_from(cfg, d),
{
    broadcast use reading::lemma_one_line_added;

    let n = d.call.source_issi as nat;
    reading::law_numbers_are_read_back(n, n);
    reading::lemma_word_is_tidy(text::decimal(n));
    reading::lemma_single_tagged(d.local_uri, d.local_tag);
    reveal_strlit("\"");
    reveal_strlit("\" ");
    assert(wire::one_line("\""@));
    assert(wire::one_line("\" "@));
}

/// The BYE of a call is read as such.
pub proof fn law_byes_are_understood(cfg: CfgAsterisk, d: DialogModel, fresh_branch: Text)
    requires
        plain_settings(cfg),
        plain_dialog(d),
        wire::one_line(fresh_branch),
    ensures
        reads_as_bye(
            request::dialog_teardown_text(cfg, dialog::snapshot(d), false, fresh_branch),
            cfg,
            d,
            fresh_branch,
        ),
{
    broadcast use {
        reading::lemma_added_header,
        reading::lemma_readable_added,
        reading::lemma_readable_none,
        lemma_lengths_differ,
    };

    let p = request::teardown_of(cfg, dialog::snapshot(d), false, fresh_branch);
    let n = request::next_cseq(d.cseq);
    let headers = wire::bye_headers(p);
    reading::lemma_header_names();
    reading::lemma_no_header();
    lemma_header_lengths();
    lemma_plain_uris(cfg, d.number);
    reading::lemma_single_address(request::request_uri(cfg, d.number), d.remote_tag);
    reading::lemma_single_tagged(d.local_uri, d.local_tag);
    reading::lemma_via(cfg.contact_host@, cfg.bind_port, fresh_branch);
    reading::lemma_counted("BYE"@, n);
    reading::lemma_counted_method("BYE"@, n);
    assert(wire::readable_headers(headers));
    wire::law_bye_parts(p);
    reveal_strlit("BYE");
    reading::lemma_request_read("BYE"@, wire::bye_uri(p), headers, Seq::empty());
    lemma_nothing();
}

/// A CANCEL or BYE from any parameters says what they say: a CANCEL is in the transaction of the
/// INVITE, a BYE in one of its own with the next sequence number, to the remote target and with
/// the tag of the peer.
pub proof fn law_teardowns_say_what_they_are_given(p: TeardownModel)
    requires
        reading::single_lines(p),
    ensures
        ({
            let m = sip::message_of(request::teardown_text(p));
            let method = if p.cancel {
                "CANCEL"@
            } else {
                "BYE"@
            };
            let branch = if p.cancel {
                p.invite_branch
            } else {
                p.fresh_branch
            };
            let uri = if p.cancel || p.remote_target is None {
                p.invite_uri
            } else {
                p.remote_target->0
            };
            let number = if p.cancel || p.invite_cseq == u32::MAX {
                p.invite_cseq
            } else {
                (p.invite_cseq + 1) as u32
            };
            &&& m is Some
            &&& m->0.method() == Some(method)
            &&& reading::is_word(uri) ==> m->0.request_uri() == Some(uri)
            &&& m->0.header("Via"@) == Some(
                "SIP/2.0/UDP "@ + p.via_host + ":"@ + text::decimal(p.via_port as nat)
                    + ";branch="@ + branch + ";rport"@,
            )
            &&& m->0.header("Max-Forwards"@) == Some("70"@)
            &&& m->0.header("From"@) == Some(
                text::trimmed(angled(p.from_uri, Some(p.local_tag))),
            )
            &&& m->0.header("To"@) == Some(
                text::trimmed(
                    angled(
                        p.invite_uri,
                        if p.cancel {
                            None
                        } else {
                            p.remote_tag
                        },
                    ),
                ),
            )
            &&& m->0.call_id() == Some(text::trimmed(p.call_id))
            &&& m->0.header("CSeq"@) == Some(counted(number, method))
            &&& p.cancel ==> m->0.header("Contact"@) is None
            &&& !p.cancel ==> m->0.header("Contact"@) == Some(
                text::trimmed(angled(p.contact, None)),
            )
            &&& carries_nothing(m->0)
        }),
{
    broadcast use {
        reading::lemma_added_header,
        reading::lemma_readable_added,
        reading::lemma_readable_none,
        lemma_lengths_differ,
    };

    reading::lemma_header_names();
    reading::lemma_no_header();
    lemma_header_lengths();
    reading::lemma_single_address(p.invite_uri, p.remote_tag);
    reading::lemma_single_address(p.contact, None);
    reading::lemma_single_tagged(p.from_uri, p.local_tag);
    lemma_nothing();
    if p.cancel {
        let from = request::tagged_address(p.from_uri, p.local_tag);
        let headers = wire::cancel_headers(p, from);
        reading::lemma_via(p.via_host, p.via_port, p.invite_branch);
        reading::lemma_counted("CANCEL"@, p.invite_cseq);
        assert(wire::readable_headers(headers));
        wire::law_cancel_parts(p, from);
        reveal_strlit("CANCEL");
        reading::lemma_request_read("CANCEL"@, p.invite_uri, headers, Seq::empty());
    } else {
        let headers = wire::bye_headers(p);
        reading::lemma_via(p.via_host, p.via_port, p.fresh_branch);
        reading::lemma_counted("BYE"@, request::next_cseq(p.invite_cseq));
        assert(wire::readable_headers(headers));
        wire::law_bye_parts(p);
        reveal_strlit("BYE");
        reading::lemma_request_read("BYE"@, wire::bye_uri(p), headers, Seq::empty());
    }
}

// ---------------------------------------------------------------------------------------------
// INVITE, REGISTER and OPTIONS

/// Whether a request carries the answer to a challenge, in the header that is meant for it, if
/// there is a challenge to answer, and none otherwise.
pub open spec fn carries_answer(
    m: MessageModel,
    cfg: CfgAsterisk,
    method: Text,
    uri: Text,
    auth: Option<ChallengeModel>,
    cnonce: Text,
) -> bool {
    let server = m.header("Authorization"@);
    let proxy = m.header("Proxy-Authorization"@);
    match auth {
        Some(c) => {
            &&& server is Some <==> !c.proxy
            &&& proxy is Some <==> c.proxy
            &&& authentication::answerable(cfg, uri, c, cnonce)
                ==> authentication::proves_password(
                if c.proxy {
                    proxy->0
                } else {
                    server->0
                },
                cfg,
                method,
                uri,
                c,
                cnonce,
            )
        },
        None => server is None && proxy is None,
    }
}

/// Whether a request carries an offer of audio at a port of the bridge.
pub open spec fn carries_offer(payload: Text, m: MessageModel, cfg: CfgAsterisk, port: u16)
    -> bool {
    &&& m.header("Content-Type"@) == Some("application/sdp"@)
    &&& exists|sdp: Text| #[trigger]
        carries(payload, m, sdp) && (reading::is_word(cfg.contact_host@) ==> offers::offers_audio(
            sdp,
            cfg,
            port,
        ) && offers::offers_audio(m.body, cfg, port))
}

/// The address that is asserted as the caller's.
pub open spec fn asserted_address(cfg: CfgAsterisk, d: DialogModel) -> Text {
    if d.call.source_issi != 0 {
        sip_address(text::decimal(d.call.source_issi as nat), cfg.from_domain@)
    } else {
        d.local_uri
    }
}

/// Whether a peer reads `payload` as the INVITE of a call: to the number that is called, from
/// the radio that calls, with an offer of audio at the port of the call and, if there is a
/// challenge, with the answer to it.
pub open spec fn reads_as_invite(
    payload: Text,
    cfg: CfgAsterisk,
    d: DialogModel,
    branch: Text,
    cnonce: Text,
) -> bool {
    let uri = sip_address(d.number, cfg.remote_host@);
    let m = sip::message_of(payload)->0;
    let caller = "\""@ + shown_number(cfg, d) + "\" <"@ + asserted_address(cfg, d);
    &&& reads_as_request(
        payload,
        cfg,
        "INVITE"@,
        uri,
        branch,
        calling_from(cfg, d),
        angled(uri, None),
        d.call_id_header,
        d.cseq,
    )
    &&& m.header("Contact"@) == Some(own_contact(cfg))
    &&& m.header("Allow"@) == Some("INVITE, ACK, CANCEL, OPTIONS, BYE, INFO"@)
    &&& m.header("Supported"@) == Some("replaces"@)
    &&& shown_number(cfg, d).len() > 0 ==> {
        &&& m.header("P-Asserted-Identity"@) == Some(caller + ">"@)
        &&& m.header("Remote-Party-ID"@) == Some(
            caller + ">;party=calling;screen=yes;privacy=off"@,
        )
    }
    &&& carries_offer(payload, m, cfg, d.rtp.local_port)
    &&& carries_answer(m, cfg, "INVITE"@, uri, d.auth, cnonce)
}

/// The INVITE of a call is read as such.
pub proof fn law_invites_are_understood(
    cfg: CfgAsterisk,
    d: DialogModel,
    branch: Text,
    cnonce: Text,
)
    requires
        plain_settings(cfg),
        plain_dialog(d),
        wire::one_line(branch),
        d.auth matches Some(c) ==> authentication::plain_challenge(cfg, c, cnonce),
    ensures
        reads_as_invite(
            request::invite_text(
                cfg,
                dialog::snapshot(d),
                branch,
                d.rtp.local_port,
                d.auth,
                cnonce,
            ),
            cfg,
            d,
            branch,
            cnonce,
        ),
{
    let shot = dialog::snapshot(d);
    let port = d.rtp.local_port;
    let uri = request::request_uri(cfg, d.number);
    let sdp = request::sdp_text(cfg, port);
    let headers = wire::invite_headers(cfg, shot, branch, port, d.auth, cnonce);
    let start = wire::request_start("INVITE"@, uri);
    let payload = request::invite_text(cfg, shot, branch, port, d.auth, cnonce);
    let m = sip::message_of(payload)->0;
    lemma_invite_readable(cfg, d, branch, cnonce);
    lemma_invite_found(cfg, d, branch, cnonce);
    lemma_plain_uris(cfg, d.number);
    wire::law_invite_parts(cfg, shot, branch, port, d.auth, cnonce);
    reading::lemma_header_names();
    reveal_strlit("INVITE");
    reading::lemma_request_read("INVITE"@, uri, headers, sdp);
    reading::lemma_counted_method("INVITE"@, d.cseq);
    lemma_body_ends(start, headers, sdp);
    assert(carries(payload, m, sdp));
    if reading::is_word(cfg.contact_host@) {
        offers::law_own_offer_is_complete(cfg, port);
    }
    assert(carries_offer(payload, m, cfg, port));
    if let Some(c) = d.auth {
        authentication::lemma_value_is_plain(cfg, "INVITE"@, uri, c, cnonce);
        if authentication::answerable(cfg, uri, c, cnonce) {
            authentication::lemma_value_proves(cfg, "INVITE"@, uri, c, cnonce);
        }
    }
}

/// What the peer of a call is shown lies within one line, without white space at its ends.
proof fn lemma_asserted(cfg: CfgAsterisk, d: DialogModel)
    requires
        plain_settings(cfg),
        plain_dialog(d),
    ensures
        request::identity_uri(cfg, dialog::snapshot(d)) == asserted_address(cfg, d),
        ({
            let caller = "\""@ + shown_number(cfg, d) + "\" <"@ + asserted_address(cfg, d);
            &&& wire::tidy(caller + ">"@)
            &&& wire::tidy(caller + ">;party=calling;screen=yes;privacy=off"@)
        }),
{
    broadcast use reading::lemma_one_line_added;

    lemma_plain_caller(cfg, d);
    let n = d.call.source_issi as nat;
    reading::law_numbers_are_read_back(n, n);
    reading::lemma_word_is_tidy(text::decimal(n));
    lemma_plain_uris(cfg, text::decimal(n));
    reveal_strlit("\"");
    reveal_strlit("\" <");
    reveal_strlit(">");
    reveal_strlit(">;party=calling;screen=yes;privacy=off");
    assert(wire::one_line("\""@));
    assert(wire::one_line("\" <"@));
    assert(wire::one_line(">"@));
    assert(wire::one_line(">;party=calling;screen=yes;privacy=off"@));
    let caller = "\""@ + shown_number(cfg, d) + "\" <"@ + asserted_address(cfg, d);
    assert((caller + ">"@)[0] == '"');
    reading::lemma_tidy(caller + ">"@);
    let longer = caller + ">;party=calling;screen=yes;privacy=off"@;
    assert(longer[0] == '"');
    assert(longer.last() == 'f');
    reading::lemma_tidy(longer);
}

/// The headers of an INVITE lie each within one line.
proof fn lemma_invite_readable(cfg: CfgAsterisk, d: DialogModel, branch: Text, cnonce: Text)
    requires
        plain_settings(cfg),
        plain_dialog(d),
        wire::one_line(branch),
        d.auth matches Some(c) ==> authentication::plain_challenge(cfg, c, cnonce),
    ensures
        wire::readable_headers(
            wire::invite_headers(
                cfg,
                dialog::snapshot(d),
                branch,
                d.rtp.local_port,
                d.auth,
                cnonce,
            ),
        ),
{
    broadcast use {reading::lemma_readable_added, reading::lemma_readable_none};

    let uri = request::request_uri(cfg, d.number);
    let n = vstd::utf8::encode_utf8(request::sdp_text(cfg, d.rtp.local_port)).len();
    reading::lemma_header_names();
    lemma_more_names();
    lemma_plain_uris(cfg, d.number);
    lemma_plain_caller(cfg, d);
    lemma_asserted(cfg, d);
    lemma_allowed();
    reading::lemma_single_address(uri, None);
    reading::lemma_via(cfg.contact_host@, cfg.bind_port, branch);
    reading::lemma_counted("INVITE"@, d.cseq);
    reading::law_numbers_are_read_back(n, n);
    reading::lemma_word_is_tidy(text::decimal(n));
    if let Some(c) = d.auth {
        authentication::lemma_value_is_plain(cfg, "INVITE"@, uri, c, cnonce);
    }
}

/// The headers of an INVITE are found.
#[verifier::rlimit(40)]
proof fn lemma_invite_found(cfg: CfgAsterisk, d: DialogModel, branch: Text, cnonce: Text)
    requires
        plain_settings(cfg),
        plain_dialog(d),
        wire::one_line(branch),
    ensures
        ({
            let uri = sip_address(d.number, cfg.remote_host@);
            let caller = "\""@ + shown_number(cfg, d) + "\" <"@ + asserted_address(cfg, d);
            let sdp = request::sdp_text(cfg, d.rtp.local_port);
            let hs = wire::trimmed_headers(
                wire::invite_headers(
                    cfg,
                    dialog::snapshot(d),
                    branch,
                    d.rtp.local_port,
                    d.auth,
                    cnonce,
                ),
            );
            &&& sip::first_value(hs, "Via"@) == Some(transaction(cfg, branch))
            &&& sip::first_value(hs, "Max-Forwards"@) == Some("70"@)
            &&& sip::first_value(hs, "From"@) == Some(text::trimmed(calling_from(cfg, d)))
            &&& sip::first_value(hs, "To"@) == Some(text::trimmed(angled(uri, None)))
            &&& sip::first_value(hs, "Call-ID"@) == Some(text::trimmed(d.call_id_header))
            &&& sip::first_value(hs, "CSeq"@) == Some(counted(d.cseq, "INVITE"@))
            &&& sip::first_value(hs, "Contact"@) == Some(own_contact(cfg))
            &&& sip::first_value(hs, "Allow"@) == Some("INVITE, ACK, CANCEL, OPTIONS, BYE, INFO"@)
            &&& sip::first_value(hs, "Supported"@) == Some("replaces"@)
            &&& shown_number(cfg, d).len() > 0 ==> {
                &&& sip::first_value(hs, "P-Asserted-Identity"@) == Some(caller + ">"@)
                &&& sip::first_value(hs, "Remote-Party-ID"@) == Some(
                    caller + ">;party=calling;screen=yes;privacy=off"@,
                )
            }
            &&& sip::first_value(hs, "Content-Type"@) == Some("application/sdp"@)
            &&& sip::first_value(hs, "Content-Length"@) == Some(
                text::decimal(vstd::utf8::encode_utf8(sdp).len()),
            )
            &&& sip::first_value(hs, "Authorization"@) == match d.auth {
                Some(c) if !c.proxy => Some(
                    text::trimmed(
                        wire::authorization_header(cfg, "INVITE"@, uri, c, cnonce).1,
                    ),
                ),
                _ => None,
            }
            &&& sip::first_value(hs, "Proxy-Authorization"@) == match d.auth {
                Some(c) if c.proxy => Some(
                    text::trimmed(
                        wire::authorization_header(cfg, "INVITE"@, uri, c, cnonce).1,
                    ),
                ),
                _ => None,
            }
        }),
{
    broadcast use {reading::lemma_added_header, lemma_lengths_differ};

    let uri = request::request_uri(cfg, d.number);
    let headers = wire::invite_headers(
        cfg,
        dialog::snapshot(d),
        branch,
        d.rtp.local_port,
        d.auth,
        cnonce,
    );
    let n = vstd::utf8::encode_utf8(request::sdp_text(cfg, d.rtp.local_port)).len();
    reading::lemma_header_names();
    reading::lemma_no_header();
    lemma_header_lengths();
    lemma_plain_uris(cfg, d.number);
    lemma_plain_caller(cfg, d);
    lemma_asserted(cfg, d);
    reading::lemma_via(cfg.contact_host@, cfg.bind_port, branch);
    reading::lemma_counted("INVITE"@, d.cseq);
    reading::law_numbers_are_read_back(n, n);
    reading::lemma_word_is_tidy(text::decimal(n));
    reading::lemma_first_trimmed(headers, "Via"@);
    reading::lemma_first_trimmed(headers, "Max-Forwards"@);
    reading::lemma_first_trimmed(headers, "From"@);
    reading::lemma_first_trimmed(headers, "To"@);
    reading::lemma_first_trimmed(headers, "Call-ID"@);
    reading::lemma_first_trimmed(headers, "CSeq"@);
    reading::lemma_first_trimmed(headers, "Contact"@);
    lemma_allowed();
    reading::lemma_first_trimmed(headers, "Allow"@);
    reading::lemma_first_trimmed(headers, "Supported"@);
    reading::lemma_first_trimmed(headers, "P-Asserted-Identity"@);
    reading::lemma_first_trimmed(headers, "Remote-Party-ID"@);
    reading::lemma_first_trimmed(headers, "Content-Type"@);
    reading::lemma_first_trimmed(headers, "Content-Length"@);
    reading::lemma_first_trimmed(headers, "Authorization"@);
    reading::lemma_first_trimmed(headers, "Proxy-Authorization"@);
}

/// Whether the server reads `payload` as the registration of the bridge: of its address, at its
/// contact, for two minutes and, if there is a challenge, with the answer to it.
pub open spec fn reads_as_register(
    payload: Text,
    cfg: CfgAsterisk,
    branch: Text,
    call_id: Text,
    number: u32,
    auth: Option<ChallengeModel>,
    cnonce: Text,
) -> bool {
    let me = sip_address(cfg.local_user@, cfg.from_domain@);
    let uri = "sip:"@ + cfg.remote_host@;
    let m = sip::message_of(payload)->0;
    &&& reads_as_request(
        payload,
        cfg,
        "REGISTER"@,
        uri,
        branch,
        angled(me, Some("flowreg"@)),
        angled(me, None),
        call_id,
        number,
    )
    &&& m.header("Contact"@) == Some(own_contact(cfg))
    &&& m.header("Expires"@) == Some("120"@)
    &&& m.header("User-Agent"@) == Some("FlowStation"@)
    &&& carries_nothing(m)
    &&& carries_answer(m, cfg, "REGISTER"@, uri, auth, cnonce)
}

/// A REGISTER is read as such.
#[verifier::rlimit(40)]
pub proof fn law_registers_are_understood(
    cfg: CfgAsterisk,
    branch: Text,
    call_id: Text,
    number: u32,
    auth: Option<ChallengeModel>,
    cnonce: Text,
)
    requires
        plain_settings(cfg),
        wire::one_line(branch),
        wire::one_line(call_id),
        auth matches Some(c) ==> authentication::plain_challenge(cfg, c, cnonce),
    ensures
        reads_as_register(
            request::register_text(cfg, branch, call_id, number, auth, cnonce),
            cfg,
            branch,
            call_id,
            number,
            auth,
            cnonce,
        ),
{
    broadcast use {
        reading::lemma_added_header,
        reading::lemma_readable_added,
        reading::lemma_readable_none,
        lemma_lengths_differ,
    };

    let uri = request::server_uri(cfg);
    let headers = wire::register_headers(cfg, branch, call_id, number, auth, cnonce);
    reading::lemma_header_names();
    lemma_more_names();
    reading::lemma_no_header();
    lemma_header_lengths();
    lemma_plain_uris(cfg, Seq::empty());
    reveal_strlit("flowreg");
    assert(wire::one_line("flowreg"@));
    reading::lemma_single_address(request::local_uri(cfg), Some("flowreg"@));
    reading::lemma_via(cfg.contact_host@, cfg.bind_port, branch);
    reading::lemma_counted("REGISTER"@, number);
    reading::lemma_counted_method("REGISTER"@, number);
    if let Some(c) = auth {
        authentication::lemma_value_is_plain(cfg, "REGISTER"@, uri, c, cnonce);
        if authentication::answerable(cfg, uri, c, cnonce) {
            authentication::lemma_value_proves(cfg, "REGISTER"@, uri, c, cnonce);
        }
    }
    assert(wire::readable_headers(headers));
    wire::law_register_parts(cfg, branch, call_id, number, auth, cnonce);
    reveal_strlit("REGISTER");
    reading::lemma_request_read("REGISTER"@, uri, headers, Seq::empty());
    lemma_nothing();
}

/// Whether the server reads `payload` as the question whether it is there.
pub open spec fn reads_as_options(payload: Text, cfg: CfgAsterisk, branch: Text, id: u128) -> bool {
    let me = sip_address(cfg.local_user@, cfg.from_domain@);
    let uri = "sip:"@ + cfg.remote_host@;
    let m = sip::message_of(payload)->0;
    &&& reads_as_request(
        payload,
        cfg,
        "OPTIONS"@,
        uri,
        branch,
        angled(me, Some("flowopt"@)),
        angled(uri, None),
        "flow-options-"@ + ident::uuid_text(id) + "@"@ + cfg.contact_host@,
        1,
    )
    &&& m.header("Contact"@) == Some(own_contact(cfg))
    &&& m.header("Accept"@) == Some("application/sdp"@)
    &&& carries_nothing(m)
}

/// An OPTIONS is read as such.
pub proof fn law_options_are_understood(cfg: CfgAsterisk, branch: Text, id: u128)
    requires
        plain_settings(cfg),
        wire::one_line(branch),
    ensures
        reads_as_options(request::options_text(cfg, branch, id), cfg, branch, id),
{
    broadcast use {
        reading::lemma_added_header,
        reading::lemma_readable_added,
        reading::lemma_readable_none,
        lemma_lengths_differ,
    };

    let uri = request::server_uri(cfg);
    let headers = wire::options_headers(cfg, branch, id);
    reading::lemma_header_names();
    lemma_more_names();
    reading::lemma_no_header();
    lemma_header_lengths();
    lemma_plain_uris(cfg, Seq::empty());
    reveal_strlit("flowopt");
    assert(wire::one_line("flowopt"@));
    reading::lemma_single_address(request::local_uri(cfg), Some("flowopt"@));
    reading::lemma_single_address(uri, None);
    reading::lemma_via(cfg.contact_host@, cfg.bind_port, branch);
    reading::lemma_counted("OPTIONS"@, 1);
    reading::lemma_counted_method("OPTIONS"@, 1);
    assert("1 OPTIONS"@ == counted(1, "OPTIONS"@)) by {
        reveal_strlit("1 OPTIONS");
        reveal_strlit("OPTIONS");
        reveal_strlit(" ");
        assert(text::decimal(1) =~= seq!['1']);
        assert("1 OPTIONS"@ =~= seq!['1'] + " "@ + "OPTIONS"@);
    }
    lemma_plain_call_id("flow-options-"@, id, cfg);
    assert(wire::readable_headers(headers));
    wire::law_options_parts(cfg, branch, id);
    reveal_strlit("OPTIONS");
    reading::lemma_request_read("OPTIONS"@, uri, headers, Seq::empty());
    lemma_nothing();
}

// ---------------------------------------------------------------------------------------------
// What the bridge makes up

/// Branches lie within one line, and begin with what tells a branch of today's SIP.
pub proof fn law_branches_carry_the_cookie(n: u64)
    ensures
        "z9hG4bK"@.is_prefix_of(request::branch(n)),
        request::branch(n).len() >= 19,
        wire::one_line(request::branch(n)),
        reading::is_word(request::branch(n)),
{
    let b = request::branch(n);
    let h = text::numeral(n as nat, 16);
    reveal_strlit("z9hG4bKflow");
    reveal_strlit("z9hG4bK");
    lemma_plain_numeral(n as nat);
    assert("z9hG4bK"@.is_prefix_of(b)) by {
        assert(b.subrange(0, 7) =~= "z9hG4bK"@);
    }
    let p = request::padded_hex(n);
    assert forall|i: int| 0 <= i < b.len() implies !text::is_white(#[trigger] b[i]) by {
        if i >= 11 {
            assert(b[i] == p[i - 11]);
            let k = p.len() - h.len();
            if i - 11 >= k {
                assert(p[i - 11] == h[i - 11 - k]);
            }
        }
    }
    reading::lemma_word_is_tidy(b);
}

proof fn lemma_plain_numeral(n: nat)
    ensures
        forall|i: int|
            0 <= i < text::numeral(n, 16).len() ==> !text::is_white(
                #[trigger] text::numeral(n, 16)[i],
            ),
    decreases n,
{
    let t = text::numeral(n, 16);
    if n < 16 {
        assert(t =~= seq![text::digit_char(n)]);
    } else {
        lemma_plain_numeral(n / 16);
        let f = text::numeral(n / 16, 16);
        assert(t =~= f.push(text::digit_char(n % 16)));
        assert forall|i: int| 0 <= i < t.len() implies !text::is_white(#[trigger] t[i]) by {
            if i < f.len() {
                assert(t[i] == f[i]);
            }
        }
    }
}

/// A UUID lies within one line, and is as long as it should be.
pub(crate) proof fn lemma_plain_uuid(id: u128)
    ensures
        wire::one_line(ident::uuid_text(id)),
        ident::uuid_text(id).len() == 36,
        wire::one_line(model::local_tag(id)),
{
    broadcast use reading::lemma_one_line_added;

    reveal(ident::uuid_text);
    reveal_strlit("-");
    reveal_strlit("flow");
    let octets = ident::uuid_octets(id);
    let h = ident::hex_octets(octets);
    let t = ident::uuid_text(id);
    assert forall|i: int| 0 <= i < 32 implies h[i] != '\r' && h[i] != '\n' by {
        let o = octets[i / 2] as nat;
        assert(o / 16 < 16 && o % 16 < 16);
    }
    assert(wire::one_line("-"@));
    assert(wire::one_line("flow"@));
    assert(wire::one_line(h.subrange(0, 8)));
    assert(wire::one_line(h.subrange(8, 12)));
    assert(wire::one_line(h.subrange(12, 16)));
    assert(wire::one_line(h.subrange(16, 20)));
    assert(wire::one_line(h.subrange(20, 32)));
    assert(wire::one_line(t));
    assert(t.take(8) =~= h.subrange(0, 8));
}

/// A Call-ID that the bridge makes up lies within one line.
pub(crate) proof fn lemma_plain_call_id(lead: Text, id: u128, cfg: CfgAsterisk)
    requires
        plain_settings(cfg),
    ensures
        lead == "flow-options-"@ || lead == "flow-reg-"@ || lead == "flow-"@ ==> wire::one_line(
            lead + ident::uuid_text(id) + "@"@ + cfg.contact_host@,
        ),
{
    broadcast use reading::lemma_one_line_added;

    reveal_strlit("flow-options-");
    reveal_strlit("flow-reg-");
    reveal_strlit("flow-");
    reveal_strlit("@");
    assert(wire::one_line("flow-options-"@));
    assert(wire::one_line("flow-reg-"@));
    assert(wire::one_line("flow-"@));
    assert(wire::one_line("@"@));
    lemma_plain_uuid(id);
}

} // verus!

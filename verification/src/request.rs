//! The texts that the bridge sends: SIP requests, responses and session descriptions.
use vstd::prelude::*;
use crate::config::CfgAsterisk;
use crate::dialog::{SipDialogSnapshot, SnapshotModel};
use crate::digest;
use crate::digest::{ChallengeModel, DigestChallenge};
use crate::entity::AsteriskEntity;
use crate::fields;
use crate::fields::{ContextModel, SipRequestContext};
use crate::ident;
use crate::sip;
use crate::text;
use crate::text::Text;

verus! {

// ---------------------------------------------------------------------------------------------
// Pieces

/// A header line.
pub open spec fn line(name: Text, value: Text) -> Text {
    name + ": "@ + value + "\r\n"@
}

/// The first line of a request.
pub open spec fn request_line(method: Text, uri: Text) -> Text {
    method + " "@ + uri + " SIP/2.0\r\n"@
}

/// The value of a Via header.
pub open spec fn via(host: Text, port: u16, branch: Text) -> Text {
    "SIP/2.0/UDP "@ + host + ":"@ + text::decimal(port as nat) + ";branch="@ + branch + ";rport"@
}

/// A URI in angle brackets.
pub open spec fn address(uri: Text) -> Text {
    "<"@ + uri + ">"@
}

/// A URI in angle brackets, with a tag.
pub open spec fn tagged_address(uri: Text, tag: Text) -> Text {
    "<"@ + uri + ">;tag="@ + tag
}

/// A URI in angle brackets, with the tag if there is one.
pub open spec fn maybe_tagged(uri: Text, tag: Option<Text>) -> Text {
    match tag {
        Some(t) => tagged_address(uri, t),
        None => address(uri),
    }
}

/// The value of a CSeq header.
pub open spec fn cseq(number: u32, method: Text) -> Text {
    text::decimal(number as nat) + " "@ + method
}

/// The number of octets in the UTF-8 encoding of `body`, in decimal.
pub open spec fn content_length(body: Text) -> Text {
    text::decimal(vstd::utf8::encode_utf8(body).len())
}

/// The methods that the bridge understands.
pub open spec fn allowed_methods() -> Text {
    "INVITE, ACK, CANCEL, OPTIONS, BYE, INFO"@
}

/// Appends a header line.
fn push_line(out: &mut String, name: &str, value: &str)
    ensures
        final(out)@ == old(out)@ + line(name@, value@),
{
    out.append(name);
    out.append(": ");
    out.append(value);
    out.append("\r\n");
    assert(out@ =~= old(out)@ + line(name@, value@));
}

/// The first line of a request.
fn format_request_line(method: &str, uri: &str) -> (r: String)
    ensures
        r@ == request_line(method@, uri@),
{
    let mut out: String = method.to_owned();
    out.append(" ");
    out.append(uri);
    out.append(" SIP/2.0\r\n");
    out
}

/// The value of a Via header.
fn format_via(host: &str, port: u16, branch: &str) -> (r: String)
    ensures
        r@ == via(host@, port, branch@),
{
    let mut out: String = "SIP/2.0/UDP ".to_owned();
    out.append(host);
    out.append(":");
    out.append(text::decimal_string(port as u64).as_str());
    out.append(";branch=");
    out.append(branch);
    out.append(";rport");
    out
}

/// A URI in angle brackets.
fn format_address(uri: &str) -> (r: String)
    ensures
        r@ == address(uri@),
{
    let mut out: String = "<".to_owned();
    out.append(uri);
    out.append(">");
    out
}

/// A URI in angle brackets, with a tag.
fn format_tagged(uri: &str, tag: &str) -> (r: String)
    ensures
        r@ == tagged_address(uri@, tag@),
{
    let mut out: String = "<".to_owned();
    out.append(uri);
    out.append(">;tag=");
    out.append(tag);
    out
}

/// A URI in angle brackets, with the tag if there is one.
fn format_maybe_tagged(uri: &str, tag: Option<&str>) -> (r: String)
    ensures
        r@ == maybe_tagged(uri@, sip::opt_text(tag)),
{
    match tag {
        Some(t) => format_tagged(uri, t),
        None => format_address(uri),
    }
}

/// The value of a CSeq header.
fn format_cseq(number: u32, method: &str) -> (r: String)
    ensures
        r@ == cseq(number, method@),
{
    let mut out: String = text::decimal_string(number as u64);
    out.append(" ");
    out.append(method);
    out
}

/// The number of octets in `body`, in decimal.
fn format_content_length(body: &str) -> (r: String)
    ensures
        r@ == content_length(body@),
{
    let n: usize = body.as_bytes().len();
    text::decimal_string(n as u64)
}

/// An optional string as an optional slice.
pub(crate) fn as_opt_str(o: &Option<String>) -> (r: Option<&str>)
    ensures
        sip::opt_text(r) == sip::opt_string(*o),
{
    match o {
        Some(s) => Some(s.as_str()),
        None => None,
    }
}

// ---------------------------------------------------------------------------------------------
// CANCEL and BYE

/// What a CANCEL or a BYE is made from.
pub struct TeardownParams<'a> {
    pub cancel: bool,
    pub invite_uri: &'a str,
    pub remote_target: Option<&'a str>,
    pub via_host: &'a str,
    pub via_port: u16,
    pub invite_branch: &'a str,
    pub fresh_branch: &'a str,
    pub from_uri: &'a str,
    pub local_tag: &'a str,
    pub remote_tag: Option<&'a str>,
    pub call_id: &'a str,
    pub invite_cseq: u32,
    pub contact: &'a str,
}

/// What [`TeardownParams`] say.
#[verifier::ext_equal]
pub struct TeardownModel {
    pub cancel: bool,
    pub invite_uri: Text,
    pub remote_target: Option<Text>,
    pub via_host: Text,
    pub via_port: u16,
    pub invite_branch: Text,
    pub fresh_branch: Text,
    pub from_uri: Text,
    pub local_tag: Text,
    pub remote_tag: Option<Text>,
    pub call_id: Text,
    pub invite_cseq: u32,
    pub contact: Text,
}

impl<'a> View for TeardownParams<'a> {
    type V = TeardownModel;

    open spec fn view(&self) -> TeardownModel {
        TeardownModel {
            cancel: self.cancel,
            invite_uri: self.invite_uri@,
            remote_target: sip::opt_text(self.remote_target),
            via_host: self.via_host@,
            via_port: self.via_port,
            invite_branch: self.invite_branch@,
            fresh_branch: self.fresh_branch@,
            from_uri: self.from_uri@,
            local_tag: self.local_tag@,
            remote_tag: sip::opt_text(self.remote_tag),
            call_id: self.call_id@,
            invite_cseq: self.invite_cseq,
            contact: self.contact@,
        }
    }
}

/// `n + 1`, or the greatest number if there is none greater.
pub open spec fn next_cseq(n: u32) -> u32 {
    if n < u32::MAX {
        (n + 1) as u32
    } else {
        n
    }
}

/// The CANCEL of an INVITE with the From value `from`: in the INVITE's own transaction, with its
/// branch, its sequence number and its untagged To, and without a Contact.
pub open spec fn cancel_text_with(p: TeardownModel, from: Text) -> Text {
    request_line("CANCEL"@, p.invite_uri) + line(
        "Via"@,
        via(p.via_host, p.via_port, p.invite_branch),
    ) + line("Max-Forwards"@, "70"@) + line("From"@, from) + line("To"@, address(p.invite_uri))
        + line("Call-ID"@, p.call_id) + line("CSeq"@, cseq(p.invite_cseq, "CANCEL"@)) + line(
        "Content-Length"@,
        "0"@,
    ) + "\r\n"@
}

/// The CANCEL of an INVITE whose From holds the address and the tag alone.
pub open spec fn cancel_text(p: TeardownModel) -> Text {
    cancel_text_with(p, tagged_address(p.from_uri, p.local_tag))
}

/// The BYE that ends a dialog: a transaction of its own, with a fresh branch, the next sequence
/// number and the negotiated tag, sent to the remote target.
pub open spec fn bye_text(p: TeardownModel) -> Text {
    let uri = match p.remote_target {
        Some(target) => target,
        None => p.invite_uri,
    };
    request_line("BYE"@, uri) + line("Via"@, via(p.via_host, p.via_port, p.fresh_branch)) + line(
        "Max-Forwards"@,
        "70"@,
    ) + line("From"@, tagged_address(p.from_uri, p.local_tag)) + line(
        "To"@,
        maybe_tagged(p.invite_uri, p.remote_tag),
    ) + line("Call-ID"@, p.call_id) + line("CSeq"@, cseq(next_cseq(p.invite_cseq), "BYE"@)) + line(
        "Contact"@,
        address(p.contact),
    ) + line("Content-Length"@, "0"@) + "\r\n"@
}

/// The request that ends a call: CANCEL before it is answered, BYE after.
pub open spec fn teardown_text(p: TeardownModel) -> Text {
    if p.cancel {
        cancel_text(p)
    } else {
        bye_text(p)
    }
}

/// CANCEL and BYE look alike but belong to different transactions: a CANCEL is part of the
/// INVITE transaction (RFC 3261 section 9.1), so Request-URI, To (still untagged, exactly as
/// sent), Call-ID, From and the CSeq number must be identical to the INVITE's and the top Via
/// branch must be the INVITE's branch; otherwise the proxy cannot match it and never stops
/// ringing the callee. A BYE is a brand new transaction in an established dialog: fresh branch,
/// next CSeq, negotiated To tag, sent to the remote target.
pub fn build_teardown_request(p: &TeardownParams) -> (r: String)
    ensures
        r@ == teardown_text(p@),
{
    if p.cancel {
        format_cancel(p, format_tagged(p.from_uri, p.local_tag).as_str())
    } else {
        format_bye(p)
    }
}

/// The CANCEL of an INVITE with the From value `from`.
fn format_cancel(p: &TeardownParams, from: &str) -> (r: String)
    ensures
        r@ == cancel_text_with(p@, from@),
{
    let mut out: String = format_request_line("CANCEL", p.invite_uri);
    push_line(&mut out, "Via", format_via(p.via_host, p.via_port, p.invite_branch).as_str());
    push_line(&mut out, "Max-Forwards", "70");
    push_line(&mut out, "From", from);
    push_line(&mut out, "To", format_address(p.invite_uri).as_str());
    push_line(&mut out, "Call-ID", p.call_id);
    push_line(&mut out, "CSeq", format_cseq(p.invite_cseq, "CANCEL").as_str());
    // A CANCEL is not a dialog-forming request, so it carries no Contact.
    push_line(&mut out, "Content-Length", "0");
    out.append("\r\n");
    out
}

/// The BYE that ends a dialog.
fn format_bye(p: &TeardownParams) -> (r: String)
    ensures
        r@ == bye_text(p@),
{
    let number: u32 = if p.invite_cseq == u32::MAX {
        p.invite_cseq
    } else {
        p.invite_cseq + 1
    };
    let uri: &str = match p.remote_target {
        Some(target) => target,
        None => p.invite_uri,
    };
    let mut out: String = format_request_line("BYE", uri);
    push_line(&mut out, "Via", format_via(p.via_host, p.via_port, p.fresh_branch).as_str());
    push_line(&mut out, "Max-Forwards", "70");
    push_line(&mut out, "From", format_tagged(p.from_uri, p.local_tag).as_str());
    push_line(&mut out, "To", format_maybe_tagged(p.invite_uri, p.remote_tag).as_str());
    push_line(&mut out, "Call-ID", p.call_id);
    push_line(&mut out, "CSeq", format_cseq(number, "BYE").as_str());
    push_line(&mut out, "Contact", format_address(p.contact).as_str());
    push_line(&mut out, "Content-Length", "0");
    out.append("\r\n");
    out
}

// ---------------------------------------------------------------------------------------------
// Addresses of the bridge

/// The address of record of the bridge.
pub open spec fn local_uri(cfg: CfgAsterisk) -> Text {
    "sip:"@ + cfg.local_user@ + "@"@ + cfg.from_domain@
}

/// The address of a user in the bridge's domain.
pub open spec fn uri_for_user(cfg: CfgAsterisk, user: Text) -> Text {
    "sip:"@ + user + "@"@ + cfg.from_domain@
}

/// Where the bridge can be reached.
pub open spec fn contact_uri(cfg: CfgAsterisk) -> Text {
    "sip:"@ + cfg.local_user@ + "@"@ + cfg.contact_host@ + ":"@ + text::decimal(
        cfg.bind_port as nat,
    )
}

/// The address of a number at the server.
pub open spec fn request_uri(cfg: CfgAsterisk, number: Text) -> Text {
    "sip:"@ + number + "@"@ + cfg.remote_host@
}

/// The address of the server.
pub open spec fn server_uri(cfg: CfgAsterisk) -> Text {
    "sip:"@ + cfg.remote_host@
}

/// A host and a port.
pub open spec fn host_port(host: Text, port: u16) -> Text {
    host + ":"@ + text::decimal(port as nat)
}

/// The range of RTP ports.
pub open spec fn port_range(cfg: CfgAsterisk) -> Text {
    text::decimal(cfg.rtp_port_min as nat) + "-"@ + text::decimal(cfg.rtp_port_max as nat)
}

/// The Via header of the bridge's own requests.
pub open spec fn own_via(cfg: CfgAsterisk, branch: Text) -> Text {
    via(cfg.contact_host@, cfg.bind_port, branch)
}

/// The address of record of the bridge.
pub(crate) fn format_local_uri(cfg: &CfgAsterisk) -> (r: String)
    ensures
        r@ == local_uri(*cfg),
{
    format_user_uri(cfg, cfg.local_user.as_str())
}

/// The address of a user in the bridge's domain.
fn format_user_uri(cfg: &CfgAsterisk, user: &str) -> (r: String)
    ensures
        r@ == uri_for_user(*cfg, user@),
{
    let mut out: String = "sip:".to_owned();
    out.append(user);
    out.append("@");
    out.append(cfg.from_domain.as_str());
    out
}

/// Where the bridge can be reached.
pub(crate) fn format_contact_uri(cfg: &CfgAsterisk) -> (r: String)
    ensures
        r@ == contact_uri(*cfg),
{
    let mut out: String = "sip:".to_owned();
    out.append(cfg.local_user.as_str());
    out.append("@");
    out.append(cfg.contact_host.as_str());
    out.append(":");
    out.append(text::decimal_string(cfg.bind_port as u64).as_str());
    out
}

/// The address of a number at the server.
pub(crate) fn format_request_uri(cfg: &CfgAsterisk, number: &str) -> (r: String)
    ensures
        r@ == request_uri(*cfg, number@),
{
    let mut out: String = "sip:".to_owned();
    out.append(number);
    out.append("@");
    out.append(cfg.remote_host.as_str());
    out
}

/// The address of the server.
fn format_server_uri(cfg: &CfgAsterisk) -> (r: String)
    ensures
        r@ == server_uri(*cfg),
{
    let mut out: String = "sip:".to_owned();
    out.append(cfg.remote_host.as_str());
    out
}

/// A host and a port.
fn format_host_port(host: &str, port: u16) -> (r: String)
    ensures
        r@ == host_port(host@, port),
{
    let mut out: String = host.to_owned();
    out.append(":");
    out.append(text::decimal_string(port as u64).as_str());
    out
}

/// The Via header of the bridge's own requests.
fn format_own_via(cfg: &CfgAsterisk, branch: &str) -> (r: String)
    ensures
        r@ == own_via(*cfg, branch@),
{
    format_via(cfg.contact_host.as_str(), cfg.bind_port, branch)
}

// ---------------------------------------------------------------------------------------------
// Requests

/// The branch of the transaction with that number.
pub open spec fn branch(counter: u64) -> Text {
    "z9hG4bKflow"@ + padded_hex(counter)
}

/// `n` in hexadecimal, with zeros before it up to eight digits.
pub open spec fn padded_hex(n: u64) -> Text {
    let h = text::numeral(n as nat, 16);
    if h.len() < 8 {
        Seq::new((8 - h.len()) as nat, |i: int| '0') + h
    } else {
        h
    }
}

/// The branch of the transaction with that number.
pub(crate) fn format_branch(counter: u64) -> (r: String)
    ensures
        r@ == branch(counter),
{
    let mut digits = String::new();
    text::push_numeral(&mut digits, counter, 16);
    let ghost h = text::numeral(counter as nat, 16);
    assert(digits@ == h);
    let mut i: usize = digits.as_str().unicode_len();
    let ghost mut zeros: Seq<char> = Seq::empty();
    let mut out = String::new();
    while i < 8
        invariant
            h.len() <= i,
            zeros == Seq::new((i - h.len()) as nat, |j: int| '0'),
            h.len() >= 8 ==> i == h.len(),
            i <= 8 || i == h.len(),
            out@ == zeros,
        decreases 8 - i,
    {
        out.push('0');
        i = i + 1;
        proof {
            zeros = zeros.push('0');
            assert(zeros =~= Seq::new((i - h.len()) as nat, |j: int| '0'));
        }
    }
    out.append(digits.as_str());
    let mut r: String = "z9hG4bKflow".to_owned();
    r.append(out.as_str());
    assert(out@ =~= padded_hex(counter));
    r
}

/// A REGISTER request.
#[verifier::opaque]
pub open spec fn register_text(
    cfg: CfgAsterisk,
    branch: Text,
    call_id: Text,
    number: u32,
    auth: Option<ChallengeModel>,
    cnonce: Text,
) -> Text {
    request_line("REGISTER"@, server_uri(cfg)) + line("Via"@, own_via(cfg, branch)) + line(
        "Max-Forwards"@,
        "70"@,
    ) + line("From"@, tagged_address(local_uri(cfg), "flowreg"@)) + line(
        "To"@,
        address(local_uri(cfg)),
    ) + line("Call-ID"@, call_id) + line("CSeq"@, cseq(number, "REGISTER"@)) + line(
        "Contact"@,
        address(contact_uri(cfg)),
    ) + line("Expires"@, "120"@) + digest::authorization_line(
        cfg,
        "REGISTER"@,
        server_uri(cfg),
        auth,
        cnonce,
    ) + line("User-Agent"@, "FlowStation"@) + line("Content-Length"@, "0"@) + "\r\n"@
}

/// A REGISTER request.
pub(crate) fn format_register(
    cfg: &CfgAsterisk,
    branch: &str,
    call_id: &str,
    number: u32,
    auth: &Option<DigestChallenge>,
    cnonce: &str,
) -> (r: String)
    ensures
        r@ == register_text(
            *cfg,
            branch@,
            call_id@,
            number,
            digest::opt_challenge(*auth),
            cnonce@,
        ),
{
    proof {
        reveal(register_text);
    }
    let uri: String = format_server_uri(cfg);
    let me: String = format_local_uri(cfg);
    let mut out: String = format_request_line("REGISTER", uri.as_str());
    push_line(&mut out, "Via", format_own_via(cfg, branch).as_str());
    push_line(&mut out, "Max-Forwards", "70");
    push_line(&mut out, "From", format_tagged(me.as_str(), "flowreg").as_str());
    push_line(&mut out, "To", format_address(me.as_str()).as_str());
    push_line(&mut out, "Call-ID", call_id);
    push_line(&mut out, "CSeq", format_cseq(number, "REGISTER").as_str());
    push_line(&mut out, "Contact", format_address(format_contact_uri(cfg).as_str()).as_str());
    push_line(&mut out, "Expires", "120");
    out.append(digest::authorize_line(cfg, "REGISTER", uri.as_str(), auth, cnonce).as_str());
    push_line(&mut out, "User-Agent", "FlowStation");
    push_line(&mut out, "Content-Length", "0");
    out.append("\r\n");
    out
}

/// The Call-ID of an OPTIONS request.
pub open spec fn options_call_id(cfg: CfgAsterisk, id: u128) -> Text {
    "flow-options-"@ + ident::uuid_text(id) + "@"@ + cfg.contact_host@
}

/// An OPTIONS request.
#[verifier::opaque]
pub open spec fn options_text(cfg: CfgAsterisk, branch: Text, id: u128) -> Text {
    request_line("OPTIONS"@, server_uri(cfg)) + line("Via"@, own_via(cfg, branch)) + line(
        "Max-Forwards"@,
        "70"@,
    ) + line("From"@, tagged_address(local_uri(cfg), "flowopt"@)) + line(
        "To"@,
        address(server_uri(cfg)),
    ) + line("Call-ID"@, options_call_id(cfg, id)) + line("CSeq"@, "1 OPTIONS"@) + line(
        "Contact"@,
        address(contact_uri(cfg)),
    ) + line("Accept"@, "application/sdp"@) + line("Content-Length"@, "0"@) + "\r\n"@
}

/// An OPTIONS request.
pub(crate) fn format_options(cfg: &CfgAsterisk, branch: &str, id: u128) -> (r: String)
    ensures
        r@ == options_text(*cfg, branch@, id),
{
    proof {
        reveal(options_text);
    }
    let uri: String = format_server_uri(cfg);
    let mut call_id: String = "flow-options-".to_owned();
    call_id.append(ident::format_uuid(id).as_str());
    call_id.append("@");
    call_id.append(cfg.contact_host.as_str());
    let mut out: String = format_request_line("OPTIONS", uri.as_str());
    push_line(&mut out, "Via", format_own_via(cfg, branch).as_str());
    push_line(&mut out, "Max-Forwards", "70");
    push_line(&mut out, "From", format_tagged(format_local_uri(cfg).as_str(), "flowopt").as_str());
    push_line(&mut out, "To", format_address(uri.as_str()).as_str());
    push_line(&mut out, "Call-ID", call_id.as_str());
    push_line(&mut out, "CSeq", "1 OPTIONS");
    push_line(&mut out, "Contact", format_address(format_contact_uri(cfg).as_str()).as_str());
    push_line(&mut out, "Accept", "application/sdp");
    push_line(&mut out, "Content-Length", "0");
    out.append("\r\n");
    out
}

/// The session description of an RTP port.
pub open spec fn sdp_text(cfg: CfgAsterisk, rtp_port: u16) -> Text {
    "v=0\r\no=flowstation 0 0 IN IP4 "@ + cfg.contact_host@ + "\r\ns=FlowStation\r\nc=IN IP4 "@
        + cfg.contact_host@ + "\r\nt=0 0\r\nm=audio "@ + text::decimal(rtp_port as nat)
        + " RTP/AVP 0\r\na=rtpmap:0 PCMU/8000\r\na=ptime:"@ + text::decimal(cfg.ptime_ms as nat)
        + "\r\na=maxptime:"@ + text::decimal(cfg.ptime_ms as nat) + "\r\na=sendrecv\r\n"@
}

/// The headers that assert who is calling; none if there is nobody to show.
pub open spec fn identity_text(uri: Text, display: Text) -> Text {
    if display.len() == 0 {
        Seq::empty()
    } else {
        "P-Asserted-Identity: \""@ + display + "\" <"@ + uri + ">\r\nRemote-Party-ID: \""@ + display
            + "\" <"@ + uri + ">;party=calling;screen=yes;privacy=off\r\n"@
    }
}

/// The number to show as the caller: the radio's, or the bridge's user if there is none.
pub open spec fn caller_id(cfg: CfgAsterisk, d: SnapshotModel) -> Text {
    match d.source_issi {
        Some(issi) if issi != 0 => text::decimal(issi as nat),
        _ => cfg.local_user@,
    }
}

/// The address to assert as the caller's.
pub open spec fn identity_uri(cfg: CfgAsterisk, d: SnapshotModel) -> Text {
    match d.source_issi {
        Some(issi) if issi != 0 => uri_for_user(cfg, text::decimal(issi as nat)),
        _ => d.local_uri,
    }
}

/// The value of From in an INVITE: the caller's number, and the address and tag of the dialog.
pub open spec fn invite_from(cfg: CfgAsterisk, d: SnapshotModel) -> Text {
    "\""@ + caller_id(cfg, d) + "\" "@ + tagged_address(d.local_uri, d.local_tag)
}

/// The INVITE of a dialog.
#[verifier::opaque]
pub open spec fn invite_text(
    cfg: CfgAsterisk,
    d: SnapshotModel,
    branch: Text,
    rtp_port: u16,
    auth: Option<ChallengeModel>,
    cnonce: Text,
) -> Text {
    let uri = request_uri(cfg, d.number);
    let body = sdp_text(cfg, rtp_port);
    request_line("INVITE"@, uri) + line("Via"@, own_via(cfg, branch)) + line(
        "Max-Forwards"@,
        "70"@,
    ) + line("From"@, invite_from(cfg, d)) + line("To"@, address(uri)) + line(
        "Call-ID"@,
        d.call_id_header,
    ) + line("CSeq"@, cseq(d.cseq, "INVITE"@)) + line("Contact"@, address(contact_uri(cfg))) + line(
        "Allow"@,
        allowed_methods(),
    ) + line("Supported"@, "replaces"@) + identity_text(identity_uri(cfg, d), caller_id(cfg, d))
        + digest::authorization_line(cfg, "INVITE"@, uri, auth, cnonce) + line(
        "Content-Type"@,
        "application/sdp"@,
    ) + line("Content-Length"@, content_length(body)) + "\r\n"@ + body
}

/// The ACK of a final response to an INVITE, with the Request-URI `uri`.
pub open spec fn ack_text_to(
    cfg: CfgAsterisk,
    d: SnapshotModel,
    uri: Text,
    branch: Text,
    number: u32,
) -> Text {
    request_line("ACK"@, uri) + line("Via"@, own_via(cfg, branch)) + line("Max-Forwards"@, "70"@)
        + line("From"@, tagged_address(d.local_uri, d.local_tag)) + line(
        "To"@,
        maybe_tagged(request_uri(cfg, d.number), d.remote_tag),
    ) + line("Call-ID"@, d.call_id_header) + line("CSeq"@, cseq(number, "ACK"@)) + line(
        "Contact"@,
        address(contact_uri(cfg)),
    ) + line("Content-Length"@, "0"@) + "\r\n"@
}

/// The ACK of a final response to an INVITE, sent where the INVITE was sent.
pub open spec fn ack_text(cfg: CfgAsterisk, d: SnapshotModel, branch: Text, number: u32) -> Text {
    ack_text_to(cfg, d, request_uri(cfg, d.number), branch, number)
}

/// Where the requests of an answered dialog go: to the remote target, or where the INVITE was
/// sent if the answer gave none.
pub open spec fn in_dialog_uri(cfg: CfgAsterisk, d: SnapshotModel) -> Text {
    match d.remote_target {
        Some(target) => target,
        None => request_uri(cfg, d.number),
    }
}

/// The ACK of an answer: a request of the dialog, so it goes to the remote target.
pub open spec fn ack_2xx_text(
    cfg: CfgAsterisk,
    d: SnapshotModel,
    branch: Text,
    number: u32,
) -> Text {
    ack_text_to(cfg, d, in_dialog_uri(cfg, d), branch, number)
}

/// What a CANCEL or BYE of a dialog is made from.
pub open spec fn teardown_of(
    cfg: CfgAsterisk,
    d: SnapshotModel,
    cancel: bool,
    fresh_branch: Text,
) -> TeardownModel {
    TeardownModel {
        cancel,
        invite_uri: request_uri(cfg, d.number),
        remote_target: d.remote_target,
        via_host: cfg.contact_host@,
        via_port: cfg.bind_port,
        invite_branch: d.invite_branch,
        fresh_branch,
        from_uri: d.local_uri,
        local_tag: d.local_tag,
        remote_tag: d.remote_tag,
        call_id: d.call_id_header,
        invite_cseq: d.cseq,
        contact: contact_uri(cfg),
    }
}

/// The CANCEL of a dialog's INVITE, with the INVITE's own From.
pub open spec fn dialog_cancel_text(
    cfg: CfgAsterisk,
    d: SnapshotModel,
    fresh_branch: Text,
) -> Text {
    cancel_text_with(teardown_of(cfg, d, true, fresh_branch), invite_from(cfg, d))
}

/// The CANCEL or BYE of a dialog.
pub open spec fn dialog_teardown_text(
    cfg: CfgAsterisk,
    d: SnapshotModel,
    cancel: bool,
    fresh_branch: Text,
) -> Text {
    if cancel {
        dialog_cancel_text(cfg, d, fresh_branch)
    } else {
        bye_text(teardown_of(cfg, d, false, fresh_branch))
    }
}

/// The CANCEL or BYE of a dialog.
pub(crate) fn format_teardown(
    cfg: &CfgAsterisk,
    d: &SipDialogSnapshot,
    cancel: bool,
    fresh_branch: &str,
) -> (r: String)
    ensures
        r@ == dialog_teardown_text(*cfg, d@, cancel, fresh_branch@),
{
    let invite_uri: String = format_request_uri(cfg, d.number.as_str());
    let contact: String = format_contact_uri(cfg);
    let p = TeardownParams {
        cancel,
        invite_uri: invite_uri.as_str(),
        remote_target: as_opt_str(&d.remote_target),
        via_host: cfg.contact_host.as_str(),
        via_port: cfg.bind_port,
        invite_branch: d.invite_branch.as_str(),
        fresh_branch,
        from_uri: d.local_uri.as_str(),
        local_tag: d.local_tag.as_str(),
        remote_tag: as_opt_str(&d.remote_tag),
        call_id: d.call_id_header.as_str(),
        invite_cseq: d.cseq,
        contact: contact.as_str(),
    };
    if cancel {
        format_cancel(&p, format_invite_from(cfg, d).as_str())
    } else {
        build_teardown_request(&p)
    }
}

/// The number to show as the caller.
fn format_caller(cfg: &CfgAsterisk, d: &SipDialogSnapshot) -> (r: String)
    ensures
        r@ == caller_id(*cfg, d@),
{
    match d.source_issi {
        Some(issi) if issi != 0 => text::decimal_string(issi as u64),
        _ => cfg.local_user.clone(),
    }
}

/// The value of From in an INVITE.
fn format_invite_from(cfg: &CfgAsterisk, d: &SipDialogSnapshot) -> (r: String)
    ensures
        r@ == invite_from(*cfg, d@),
{
    let mut from: String = "\"".to_owned();
    from.append(format_caller(cfg, d).as_str());
    from.append("\" ");
    from.append(format_tagged(d.local_uri.as_str(), d.local_tag.as_str()).as_str());
    from
}

/// The INVITE of a dialog.
pub(crate) fn format_invite(
    cfg: &CfgAsterisk,
    d: &SipDialogSnapshot,
    branch: &str,
    rtp_port: u16,
    auth: &Option<DigestChallenge>,
    cnonce: &str,
) -> (r: String)
    ensures
        r@ == invite_text(*cfg, d@, branch@, rtp_port, digest::opt_challenge(*auth), cnonce@),
{
    proof {
        reveal(invite_text);
    }
    let uri: String = format_request_uri(cfg, d.number.as_str());
    let body: String = format_sdp(cfg, rtp_port);
    let caller: String = format_caller(cfg, d);
    let identity: String = match d.source_issi {
        Some(issi) if issi != 0 => format_user_uri(cfg, caller.as_str()),
        _ => d.local_uri.clone(),
    };
    let from: String = format_invite_from(cfg, d);
    let mut out: String = format_request_line("INVITE", uri.as_str());
    push_line(&mut out, "Via", format_own_via(cfg, branch).as_str());
    push_line(&mut out, "Max-Forwards", "70");
    push_line(&mut out, "From", from.as_str());
    push_line(&mut out, "To", format_address(uri.as_str()).as_str());
    push_line(&mut out, "Call-ID", d.call_id_header.as_str());
    push_line(&mut out, "CSeq", format_cseq(d.cseq, "INVITE").as_str());
    push_line(&mut out, "Contact", format_address(format_contact_uri(cfg).as_str()).as_str());
    push_line(&mut out, "Allow", "INVITE, ACK, CANCEL, OPTIONS, BYE, INFO");
    push_line(&mut out, "Supported", "replaces");
    out.append(format_identity(identity.as_str(), caller.as_str()).as_str());
    out.append(digest::authorize_line(cfg, "INVITE", uri.as_str(), auth, cnonce).as_str());
    push_line(&mut out, "Content-Type", "application/sdp");
    push_line(&mut out, "Content-Length", format_content_length(body.as_str()).as_str());
    out.append("\r\n");
    out.append(body.as_str());
    out
}

/// The ACK of a final response to an INVITE, with the Request-URI `uri`.
fn format_ack(
    cfg: &CfgAsterisk,
    d: &SipDialogSnapshot,
    uri: &str,
    branch: &str,
    number: u32,
) -> (r: String)
    ensures
        r@ == ack_text_to(*cfg, d@, uri@, branch@, number),
{
    let callee: String = format_request_uri(cfg, d.number.as_str());
    let mut out: String = format_request_line("ACK", uri);
    push_line(&mut out, "Via", format_own_via(cfg, branch).as_str());
    push_line(&mut out, "Max-Forwards", "70");
    push_line(
        &mut out,
        "From",
        format_tagged(d.local_uri.as_str(), d.local_tag.as_str()).as_str(),
    );
    push_line(
        &mut out,
        "To",
        format_maybe_tagged(callee.as_str(), as_opt_str(&d.remote_tag)).as_str(),
    );
    push_line(&mut out, "Call-ID", d.call_id_header.as_str());
    push_line(&mut out, "CSeq", format_cseq(number, "ACK").as_str());
    push_line(&mut out, "Contact", format_address(format_contact_uri(cfg).as_str()).as_str());
    push_line(&mut out, "Content-Length", "0");
    out.append("\r\n");
    out
}

/// The session description of an RTP port.
pub(crate) fn format_sdp(cfg: &CfgAsterisk, rtp_port: u16) -> (r: String)
    ensures
        r@ == sdp_text(*cfg, rtp_port),
{
    let ptime: String = text::decimal_string(cfg.ptime_ms as u64);
    let mut out: String = "v=0\r\no=flowstation 0 0 IN IP4 ".to_owned();
    out.append(cfg.contact_host.as_str());
    out.append("\r\ns=FlowStation\r\nc=IN IP4 ");
    out.append(cfg.contact_host.as_str());
    out.append("\r\nt=0 0\r\nm=audio ");
    out.append(text::decimal_string(rtp_port as u64).as_str());
    out.append(" RTP/AVP 0\r\na=rtpmap:0 PCMU/8000\r\na=ptime:");
    out.append(ptime.as_str());
    out.append("\r\na=maxptime:");
    out.append(ptime.as_str());
    out.append("\r\na=sendrecv\r\n");
    out
}

/// The headers that assert who is calling.
fn format_identity(uri: &str, display: &str) -> (r: String)
    ensures
        r@ == identity_text(uri@, display@),
{
    if display.is_empty() {
        return String::new();
    }
    let mut out: String = "P-Asserted-Identity: \"".to_owned();
    out.append(display);
    out.append("\" <");
    out.append(uri);
    out.append(">\r\nRemote-Party-ID: \"");
    out.append(display);
    out.append("\" <");
    out.append(uri);
    out.append(">;party=calling;screen=yes;privacy=off\r\n");
    out
}

// ---------------------------------------------------------------------------------------------
// Responses

/// The headers of a response that show where the bridge is and what it understands; a response
/// below 180 has none.
pub open spec fn response_contact(cfg: CfgAsterisk, code: u16) -> Text {
    if code >= 180 {
        line("Contact"@, address(contact_uri(cfg))) + line("Allow"@, allowed_methods())
    } else {
        Seq::empty()
    }
}

/// The type of a body, if it has one.
pub open spec fn content_type(kind: Text) -> Text {
    if kind.len() == 0 {
        Seq::empty()
    } else {
        line("Content-Type"@, kind)
    }
}

/// The response to a request, with the type and the text of its body.
pub open spec fn response_text(
    cfg: CfgAsterisk,
    ctx: ContextModel,
    code: u16,
    reason: Text,
    to_tag: Option<Text>,
    kind: Text,
    body: Text,
) -> Text {
    "SIP/2.0 "@ + text::decimal(code as nat) + " "@ + reason + "\r\n"@ + line("Via"@, ctx.via)
        + line("From"@, ctx.from) + line("To"@, fields::with_tag(ctx.to, to_tag)) + line(
        "Call-ID"@,
        ctx.call_id,
    ) + line("CSeq"@, ctx.cseq) + response_contact(cfg, code) + content_type(kind) + line(
        "Content-Length"@,
        content_length(body),
    ) + "\r\n"@ + body
}

impl AsteriskEntity {
    /// The host and port that the bridge listens on.
    pub fn sip_listen(&self) -> (r: String)
        ensures
            r@ == host_port(self@.config.bind_addr@, self@.config.bind_port),
    {
        format_host_port(self.config.bind_addr.as_str(), self.config.bind_port)
    }

    /// The host and port of the server.
    pub fn remote_display(&self) -> (r: String)
        ensures
            r@ == host_port(self@.config.remote_host@, self@.config.remote_port),
    {
        format_host_port(self.config.remote_host.as_str(), self.config.remote_port)
    }

    /// The range of RTP ports.
    pub fn rtp_range(&self) -> (r: String)
        ensures
            r@ == port_range(self@.config),
    {
        let mut out: String = text::decimal_string(self.config.rtp_port_min as u64);
        out.append("-");
        out.append(text::decimal_string(self.config.rtp_port_max as u64).as_str());
        out
    }

    /// The address of record of the bridge.
    pub fn local_uri(&self) -> (r: String)
        ensures
            r@ == local_uri(self@.config),
    {
        format_local_uri(&self.config)
    }

    /// The address of a user in the bridge's domain.
    pub fn uri_for_user(&self, user: &str) -> (r: String)
        ensures
            r@ == uri_for_user(self@.config, user@),
    {
        format_user_uri(&self.config, user)
    }

    /// The headers that assert who is calling.
    pub fn asserted_identity_headers(&self, uri: &str, display: &str) -> (r: String)
        ensures
            r@ == identity_text(uri@, display@),
    {
        format_identity(uri, display)
    }

    /// Where the bridge can be reached.
    pub fn contact_uri(&self) -> (r: String)
        ensures
            r@ == contact_uri(self@.config),
    {
        format_contact_uri(&self.config)
    }

    /// The address of a number at the server.
    pub fn request_uri(&self, number: &str) -> (r: String)
        ensures
            r@ == request_uri(self@.config, number@),
    {
        format_request_uri(&self.config, number)
    }

    /// The session description of an RTP port.
    pub fn build_sdp(&self, rtp_port: u16) -> (r: String)
        ensures
            r@ == sdp_text(self@.config, rtp_port),
    {
        format_sdp(&self.config, rtp_port)
    }

    /// `branch` and `number` are the caller's business: an ACK to a 2xx is its own transaction
    /// and gets a fresh branch, while an ACK to a non-2xx final response must repeat the
    /// INVITE's branch and CSeq number (RFC 3261 section 17.1.1.3) or the UAS keeps
    /// retransmitting.
    pub fn build_ack(&self, dialog: &SipDialogSnapshot, branch: &str, number: u32) -> (r: String)
        ensures
            r@ == ack_text(self@.config, dialog@, branch@, number),
    {
        let uri: String = self.request_uri(dialog.number.as_str());
        format_ack(&self.config, dialog, uri.as_str(), branch, number)
    }

    /// The ACK of an answer: a request of the dialog, so it goes to the remote target.
    pub fn build_ack_2xx(
        &self,
        dialog: &SipDialogSnapshot,
        branch: &str,
        number: u32,
    ) -> (r: String)
        ensures
            r@ == ack_2xx_text(self@.config, dialog@, branch@, number),
    {
        match &dialog.remote_target {
            Some(target) => format_ack(&self.config, dialog, target.as_str(), branch, number),
            None => self.build_ack(dialog, branch, number),
        }
    }

    /// The response to a request, with the type and the text of its body if it has one.
    pub fn build_response(
        &self,
        ctx: &SipRequestContext,
        code: u16,
        reason: &str,
        to_tag: Option<&str>,
        body: Option<(&str, &str)>,
    ) -> (r: String)
        ensures
            r@ == match body {
                Some((kind, b)) => response_text(
                    self@.config,
                    ctx@,
                    code,
                    reason@,
                    sip::opt_text(to_tag),
                    kind@,
                    b@,
                ),
                None => response_text(
                    self@.config,
                    ctx@,
                    code,
                    reason@,
                    sip::opt_text(to_tag),
                    Seq::empty(),
                    Seq::empty(),
                ),
            },
    {
        let cfg: &CfgAsterisk = &self.config;
        proof {
            reveal_strlit("");
            assert(""@ =~= Seq::<char>::empty());
        }
        let (kind, b): (&str, &str) = match body {
            Some((kind, b)) => (kind, b),
            None => ("", ""),
        };
        let mut out: String = "SIP/2.0 ".to_owned();
        out.append(text::decimal_string(code as u64).as_str());
        out.append(" ");
        out.append(reason);
        out.append("\r\n");
        push_line(&mut out, "Via", ctx.via.as_str());
        push_line(&mut out, "From", ctx.from.as_str());
        push_line(&mut out, "To", Self::tagged_to(ctx.to.as_str(), to_tag).as_str());
        push_line(&mut out, "Call-ID", ctx.call_id.as_str());
        push_line(&mut out, "CSeq", ctx.cseq.as_str());
        let mut contact = String::new();
        if code >= 180 {
            push_line(
                &mut contact,
                "Contact",
                format_address(format_contact_uri(cfg).as_str()).as_str(),
            );
            push_line(&mut contact, "Allow", "INVITE, ACK, CANCEL, OPTIONS, BYE, INFO");
        }
        assert(contact@ =~= response_contact(*cfg, code));
        out.append(contact.as_str());
        let mut type_line = String::new();
        if !kind.is_empty() {
            push_line(&mut type_line, "Content-Type", kind);
        }
        assert(type_line@ =~= content_type(kind@));
        out.append(type_line.as_str());
        push_line(&mut out, "Content-Length", format_content_length(b).as_str());
        out.append("\r\n");
        out.append(b);
        out
    }
}

} // verus!

//! What holds of what a peer reads: that a CANCEL and an ACK belong to their INVITE, that CANCEL
//! and BYE are read back, and that responses repeat what they answer.
use vstd::prelude::*;
use crate::config::CfgAsterisk;
use crate::dialog;
use crate::dialog::SnapshotModel;
use crate::digest::ChallengeModel;
use crate::fields;
use crate::fields::ContextModel;
use crate::laws::calls;
use crate::model;
use crate::model::EntityModel;
use crate::request;
use crate::request::TeardownModel;
use crate::sip;
use crate::sip::MessageModel;
use crate::text;
use crate::text::Text;
use crate::wire;

verus! {

// ---------------------------------------------------------------------------------------------
// Words and headers

/// Whether a text is a single word.
pub open spec fn is_word(s: Text) -> bool {
    s.len() > 0 && forall|i: int| 0 <= i < s.len() ==> !text::is_white(#[trigger] s[i])
}

/// The first word of a text ends where white space begins.
pub(crate) proof fn lemma_run(w: Text, rest: Text)
    requires
        forall|i: int| 0 <= i < w.len() ==> !text::is_white(#[trigger] w[i]),
        rest.len() > 0 ==> text::is_white(rest[0]),
    ensures
        text::run_length(w + rest) == w.len(),
    decreases w.len(),
{
    let s = w + rest;
    if w.len() == 0 {
        assert(s =~= rest);
    } else {
        assert(!text::is_white(w[0]));
        assert(s[0] == w[0]);
        assert(s.drop_first() =~= w.drop_first() + rest);
        lemma_run(w.drop_first(), rest);
    }
}

/// A word before other words.
pub(crate) proof fn lemma_words(w: Text, rest: Text)
    requires
        is_word(w),
    ensures
        text::words_of(w + " "@ + rest) == seq![w] + text::words_of(rest),
        text::words_of(w) == seq![w],
{
    reveal_strlit(" ");
    let tail = " "@ + rest;
    let s = w + " "@ + rest;
    assert(s =~= w + tail);
    assert(!text::is_white(w[0]));
    assert(s[0] == w[0]);
    lemma_run(w, tail);
    assert(s.take(w.len() as int) =~= w);
    assert(s.skip(w.len() as int) =~= tail);
    assert(text::is_white(tail[0]));
    assert(tail.drop_first() =~= rest);
    assert(text::words_of(tail) == text::words_of(rest));
    lemma_run(w, Seq::empty());
    assert(w + Seq::<char>::empty() =~= w);
    assert(w.take(w.len() as int) =~= w);
    assert(w.skip(w.len() as int) =~= Seq::empty());
    assert(text::words_of(Seq::<char>::empty()) =~= Seq::empty());
    assert(text::words_of(w) =~= seq![w]);
}

/// A text whose ends are not white space is left as it is by trimming.
pub(crate) proof fn lemma_trimmed(s: Text)
    requires
        s.len() > 0,
        !text::is_white(s[0]),
        !text::is_white(s.last()),
    ensures
        text::trimmed(s) == s,
{
}

/// A header added at the end is found if no earlier one has its name.
pub(crate) broadcast proof fn lemma_added_header(
    headers: Seq<(Text, Text)>,
    h: (Text, Text),
    name: Text,
)
    ensures
        #[trigger] sip::first_value(headers.push(h), name) == (match sip::first_value(
            headers,
            name,
        ) {
            Some(v) => Some(v),
            None => if text::same_ignoring_case(h.0, name) {
                Some(h.1)
            } else {
                None
            },
        }),
    decreases headers.len(),
{
    let more = headers.push(h);
    if headers.len() == 0 {
        assert(more.drop_first() =~= Seq::empty());
        assert(more[0] == h);
        assert(sip::first_value(more.drop_first(), name) is None);
    } else {
        assert(more[0] == headers[0]);
        assert(more.drop_first() =~= headers.drop_first().push(h));
        lemma_added_header(headers.drop_first(), h, name);
    }
}

/// The names of headers are told apart.
proof fn lemma_names()
    ensures
        !text::same_ignoring_case("Via"@, "From"@),
        !text::same_ignoring_case("Max-Forwards"@, "From"@),
        !text::same_ignoring_case("Via"@, "To"@),
        !text::same_ignoring_case("Max-Forwards"@, "To"@),
        !text::same_ignoring_case("From"@, "To"@),
        !text::same_ignoring_case("Via"@, "Call-ID"@),
        !text::same_ignoring_case("Max-Forwards"@, "Call-ID"@),
        !text::same_ignoring_case("From"@, "Call-ID"@),
        !text::same_ignoring_case("To"@, "Call-ID"@),
        !text::same_ignoring_case("Via"@, "CSeq"@),
        !text::same_ignoring_case("Max-Forwards"@, "CSeq"@),
        !text::same_ignoring_case("From"@, "CSeq"@),
        !text::same_ignoring_case("To"@, "CSeq"@),
        !text::same_ignoring_case("Call-ID"@, "CSeq"@),
        !text::same_ignoring_case("Via"@, "Contact"@),
        !text::same_ignoring_case("Max-Forwards"@, "Contact"@),
        !text::same_ignoring_case("From"@, "Contact"@),
        !text::same_ignoring_case("To"@, "Contact"@),
        !text::same_ignoring_case("Call-ID"@, "Contact"@),
        !text::same_ignoring_case("CSeq"@, "Contact"@),
        !text::same_ignoring_case("Content-Length"@, "Contact"@),
        !text::same_ignoring_case("Via"@, "Content-Length"@),
        !text::same_ignoring_case("Max-Forwards"@, "Content-Length"@),
        !text::same_ignoring_case("From"@, "Content-Length"@),
        !text::same_ignoring_case("To"@, "Content-Length"@),
        !text::same_ignoring_case("Call-ID"@, "Content-Length"@),
        !text::same_ignoring_case("CSeq"@, "Content-Length"@),
        !text::same_ignoring_case("Contact"@, "Content-Length"@),
{
    reveal_strlit("Via");
    reveal_strlit("Max-Forwards");
    reveal_strlit("From");
    reveal_strlit("To");
    reveal_strlit("Call-ID");
    reveal_strlit("CSeq");
    assert(text::lower("From"@)[0] == 'f');
    assert(text::lower("CSeq"@)[0] == 'c');
    assert(text::lower("Via"@).len() == 3);
    assert(text::lower("Max-Forwards"@).len() == 12);
    assert(text::lower("From"@).len() == 4);
    assert(text::lower("To"@).len() == 2);
    assert(text::lower("Call-ID"@).len() == 7);
    assert(text::lower("CSeq"@).len() == 4);
    reveal_strlit("Contact");
    reveal_strlit("Content-Length");
    assert(text::lower("Call-ID"@)[1] == 'a');
    assert(text::lower("Contact"@)[1] == 'o');
    assert(text::lower("Contact"@).len() == 7);
    assert(text::lower("Content-Length"@).len() == 14);
}

/// An optional text without the white space at its ends.
pub open spec fn trimmed_opt(o: Option<Text>) -> Option<Text> {
    match o {
        Some(s) => Some(text::trimmed(s)),
        None => None,
    }
}

/// A header of trimmed headers is found as before, and trimmed.
pub(crate) proof fn lemma_first_trimmed(headers: Seq<(Text, Text)>, name: Text)
    ensures
        sip::first_value(wire::trimmed_headers(headers), name) == trimmed_opt(
            sip::first_value(headers, name),
        ),
    decreases headers.len(),
{
    if headers.len() > 0 {
        let ts = wire::trimmed_headers(headers);
        assert(ts.drop_first() =~= wire::trimmed_headers(headers.drop_first()));
        lemma_first_trimmed(headers.drop_first(), name);
    }
}

/// The start line of a request is tidy.
proof fn lemma_start_is_tidy(method: Text, uri: Text)
    requires
        is_word(method),
        wire::one_line(uri),
    ensures
        wire::tidy(wire::request_start(method, uri)),
        wire::request_start(method, uri).len() > 0,
{
    broadcast use lemma_one_line_added;

    reveal_strlit(" ");
    reveal_strlit(" SIP/2.0");
    let s = wire::request_start(method, uri);
    assert(!text::is_white(method[0]));
    assert(s[0] == method[0]);
    assert(s.last() == '0');
    lemma_trimmed(s);
    lemma_word_is_tidy(method);
    assert(wire::one_line(" "@));
    assert(wire::one_line(" SIP/2.0"@));
}

/// A request is read as its method, what its start line goes on with, its headers and its body.
pub(crate) proof fn lemma_request_read(
    method: Text,
    uri: Text,
    headers: Seq<(Text, Text)>,
    body: Text,
)
    requires
        is_word(method),
        method[0] != 'S',
        wire::one_line(uri),
        wire::readable_headers(headers),
    ensures
        ({
            let m = sip::message_of(
                wire::compose(wire::request_start(method, uri), headers, body),
            );
            &&& m is Some
            &&& m->0.method() == Some(method)
            &&& m->0.request_uri() == text::nth_word(uri + " SIP/2.0"@, 0)
            &&& is_word(uri) ==> m->0.request_uri() == Some(uri)
            &&& m->0.headers == wire::trimmed_headers(headers)
            &&& m->0.body == text::unix_lines(body)
            &&& forall|name: Text| #[trigger]
                m->0.header(name) == trimmed_opt(sip::first_value(headers, name))
        }),
{
    reveal_strlit("SIP/2.0 ");
    reveal_strlit(" ");
    reveal_strlit("SIP/2.0");
    reveal_strlit(" SIP/2.0");
    lemma_start_is_tidy(method, uri);
    wire::law_message_is_read_trimmed(wire::request_start(method, uri), headers, body);
    let m = sip::message_of(wire::compose(wire::request_start(method, uri), headers, body))->0;
    let s = m.start_line;
    assert(s[0] == method[0]);
    assert(!m.is_response()) by {
        if m.is_response() {
            assert("SIP/2.0 "@ == s.subrange(0, 8));
            assert("SIP/2.0 "@[0] == s[0]);
        }
    }
    let version = "SIP/2.0"@;
    let rest = uri + " SIP/2.0"@;
    assert(" SIP/2.0"@ =~= " "@ + version);
    assert(s =~= method + " "@ + rest);
    lemma_words(method, rest);
    assert(rest =~= uri + " "@ + version);
    if is_word(uri) {
        lemma_words(uri, version);
    }
    assert forall|name: Text| #[trigger] m.header(name) == trimmed_opt(
        sip::first_value(headers, name),
    ) by {
        lemma_first_trimmed(headers, name);
    }
}

// ---------------------------------------------------------------------------------------------
// INVITE

/// A peer that reads an INVITE finds what it was made from, without the white space at the ends of
/// its headers. The requirement is only that no header holds a line break; the Request-URI is
/// found where it is a single word.
pub proof fn law_invites_are_read_back(
    cfg: CfgAsterisk,
    d: SnapshotModel,
    branch: Text,
    rtp_port: u16,
    auth: Option<ChallengeModel>,
    cnonce: Text,
)
    requires
        wire::readable_headers(wire::invite_headers(cfg, d, branch, rtp_port, auth, cnonce)),
    ensures
        ({
            let invite = sip::message_of(
                request::invite_text(cfg, d, branch, rtp_port, auth, cnonce),
            );
            let uri = request::request_uri(cfg, d.number);
            &&& invite is Some
            &&& invite->0.method() == Some("INVITE"@)
            &&& is_word(uri) ==> invite->0.request_uri() == Some(uri)
            &&& invite->0.header("Via"@) == Some(text::trimmed(request::own_via(cfg, branch)))
            &&& invite->0.header("From"@) == Some(text::trimmed(request::invite_from(cfg, d)))
            &&& invite->0.header("To"@) == Some(text::trimmed(request::address(uri)))
            &&& invite->0.call_id() == Some(text::trimmed(d.call_id_header))
            &&& invite->0.header("CSeq"@) == Some(request::cseq(d.cseq, "INVITE"@))
            &&& invite->0.body == text::unix_lines(request::sdp_text(cfg, rtp_port))
        }),
{
    broadcast use lemma_added_header;

    let uri = request::request_uri(cfg, d.number);
    let headers = wire::invite_headers(cfg, d, branch, rtp_port, auth, cnonce);
    reveal_strlit("INVITE");
    assert(is_word("INVITE"@));
    lemma_names();
    lemma_no_header();
    lemma_invite_pieces(cfg, d, branch, rtp_port, auth, cnonce);
    lemma_counted("INVITE"@, d.cseq);
    wire::law_invite_parts(cfg, d, branch, rtp_port, auth, cnonce);
    lemma_request_read("INVITE"@, uri, headers, request::sdp_text(cfg, rtp_port));
}

// ---------------------------------------------------------------------------------------------
// CANCEL and ACK

/// A peer that reads an INVITE and its CANCEL finds the same Request-URI, the same top Via with
/// the same branch, the same From, the same untagged To, the same Call-ID and the same sequence
/// number in both; so it can match them. The requirement is only that no header of the INVITE
/// holds a line break.
pub proof fn law_cancel_matches_its_invite(
    cfg: CfgAsterisk,
    d: SnapshotModel,
    rtp_port: u16,
    auth: Option<ChallengeModel>,
    cnonce: Text,
    fresh_branch: Text,
)
    requires
        wire::readable_headers(
            wire::invite_headers(cfg, d, d.invite_branch, rtp_port, auth, cnonce),
        ),
    ensures
        ({
            let invite = sip::message_of(
                request::invite_text(cfg, d, d.invite_branch, rtp_port, auth, cnonce),
            );
            let cancel = sip::message_of(request::dialog_cancel_text(cfg, d, fresh_branch));
            &&& invite is Some && cancel is Some
            &&& invite->0.method() == Some("INVITE"@)
            &&& cancel->0.method() == Some("CANCEL"@)
            &&& invite->0.request_uri() == cancel->0.request_uri()
            &&& invite->0.header("Via"@) == cancel->0.header("Via"@)
            &&& invite->0.header("From"@) == cancel->0.header("From"@)
            &&& invite->0.header("From"@) == Some(text::trimmed(request::invite_from(cfg, d)))
            &&& invite->0.header("To"@) == cancel->0.header("To"@)
            &&& invite->0.call_id() == cancel->0.call_id()
            &&& invite->0.call_id() == Some(text::trimmed(d.call_id_header))
            &&& invite->0.header("CSeq"@) == Some(request::cseq(d.cseq, "INVITE"@))
            &&& cancel->0.header("CSeq"@) == Some(request::cseq(d.cseq, "CANCEL"@))
        }),
{
    broadcast use {lemma_added_header, lemma_readable_added, lemma_readable_none};

    let uri = request::request_uri(cfg, d.number);
    let p = request::teardown_of(cfg, d, true, fresh_branch);
    let from = request::invite_from(cfg, d);
    let ih = wire::invite_headers(cfg, d, d.invite_branch, rtp_port, auth, cnonce);
    let ch = wire::cancel_headers(p, from);
    let sdp = request::sdp_text(cfg, rtp_port);
    lemma_header_names();
    lemma_names();
    lemma_no_header();
    lemma_invite_pieces(cfg, d, d.invite_branch, rtp_port, auth, cnonce);
    lemma_counted("INVITE"@, d.cseq);
    lemma_counted("CANCEL"@, d.cseq);
    assert(wire::readable_headers(ch));
    wire::law_invite_parts(cfg, d, d.invite_branch, rtp_port, auth, cnonce);
    wire::law_cancel_parts(p, from);
    reveal_strlit("INVITE");
    reveal_strlit("CANCEL");
    lemma_request_read("INVITE"@, uri, ih, sdp);
    lemma_request_read("CANCEL"@, uri, ch, Seq::empty());
}

/// The CANCEL that is sent while the INVITE of a call to the network is pending has the
/// Request-URI, the top Via, the From, the To, the Call-ID and the sequence number of that INVITE,
/// whatever has happened to the call in between, as long as it is still in the transaction of that
/// INVITE.
pub proof fn law_sent_cancel_matches_sent_invite(
    s: EntityModel,
    uuid: u128,
    cnonce: Text,
    t: EntityModel,
)
    requires
        s.dialogs.contains_key(uuid),
        !s.dialogs[uuid].inbound,
        s.dialogs[uuid].inv(uuid),
        t.config == s.config,
        t.dialogs.contains_key(uuid),
        calls::same_transaction(
            model::invite_step(s, uuid, cnonce).state.dialogs[uuid],
            t.dialogs[uuid],
        ),
        wire::readable_headers(
            wire::invite_headers(
                s.config,
                dialog::snapshot(s.dialogs[uuid]),
                s.fresh_branch(),
                s.dialogs[uuid].rtp.local_port,
                s.dialogs[uuid].auth,
                cnonce,
            ),
        ),
    ensures
        ({
            let sent = model::invite_step(s, uuid, cnonce).actions[0];
            let cancelled = model::teardown_step(t, uuid, true).actions[0];
            let invite = sip::message_of(sent->payload);
            let cancel = sip::message_of(cancelled->payload);
            &&& sent is SendSip && cancelled is SendSip
            &&& invite is Some && cancel is Some
            &&& invite->0.method() == Some("INVITE"@)
            &&& cancel->0.method() == Some("CANCEL"@)
            &&& invite->0.request_uri() == cancel->0.request_uri()
            &&& invite->0.header("Via"@) == cancel->0.header("Via"@)
            &&& invite->0.header("From"@) == cancel->0.header("From"@)
            &&& invite->0.header("To"@) == cancel->0.header("To"@)
            &&& invite->0.call_id() == cancel->0.call_id()
            &&& invite->0.header("CSeq"@) == Some(
                request::cseq(s.dialogs[uuid].cseq, "INVITE"@),
            )
            &&& cancel->0.header("CSeq"@) == Some(
                request::cseq(s.dialogs[uuid].cseq, "CANCEL"@),
            )
        }),
{
    reveal(request::invite_text);
    let d = s.dialogs[uuid];
    let e = t.dialogs[uuid];
    let shot = dialog::snapshot(e);
    assert(wire::invite_headers(
        s.config,
        shot,
        shot.invite_branch,
        d.rtp.local_port,
        d.auth,
        cnonce,
    ) == wire::invite_headers(
        s.config,
        dialog::snapshot(d),
        s.fresh_branch(),
        d.rtp.local_port,
        d.auth,
        cnonce,
    ));
    law_cancel_matches_its_invite(
        s.config,
        shot,
        d.rtp.local_port,
        d.auth,
        cnonce,
        t.fresh_branch(),
    );
}

/// A peer that reads an INVITE and the ACK of a failure of it finds the same Request-URI, the
/// same top Via with the same branch, the same Call-ID and the same sequence number in both. The
/// requirement is only that neither a header of the INVITE nor the tag of the failure holds a
/// line break.
pub proof fn law_ack_of_a_failure_matches_its_invite(
    cfg: CfgAsterisk,
    d: SnapshotModel,
    rtp_port: u16,
    auth: Option<ChallengeModel>,
    cnonce: Text,
    tag: Option<Text>,
)
    requires
        wire::readable_headers(
            wire::invite_headers(cfg, d, d.invite_branch, rtp_port, auth, cnonce),
        ),
        tag matches Some(t) ==> wire::one_line(t),
    ensures
        ({
            let invite = sip::message_of(
                request::invite_text(cfg, d, d.invite_branch, rtp_port, auth, cnonce),
            );
            let ack = sip::message_of(
                request::ack_text(
                    cfg,
                    SnapshotModel { remote_tag: tag, ..d },
                    d.invite_branch,
                    d.cseq,
                ),
            );
            &&& invite is Some && ack is Some
            &&& ack->0.method() == Some("ACK"@)
            &&& invite->0.request_uri() == ack->0.request_uri()
            &&& invite->0.header("Via"@) == ack->0.header("Via"@)
            &&& invite->0.call_id() == ack->0.call_id()
            &&& invite->0.header("CSeq"@) == Some(request::cseq(d.cseq, "INVITE"@))
            &&& ack->0.header("CSeq"@) == Some(request::cseq(d.cseq, "ACK"@))
            &&& ack->0.header("To"@) == Some(
                text::trimmed(request::maybe_tagged(request::request_uri(cfg, d.number), tag)),
            )
        }),
{
    broadcast use {lemma_added_header, lemma_readable_added, lemma_readable_none};

    let uri = request::request_uri(cfg, d.number);
    let e = SnapshotModel { remote_tag: tag, ..d };
    let ih = wire::invite_headers(cfg, d, d.invite_branch, rtp_port, auth, cnonce);
    let ah = wire::ack_headers(cfg, e, d.invite_branch, d.cseq);
    let sdp = request::sdp_text(cfg, rtp_port);
    lemma_header_names();
    lemma_names();
    lemma_no_header();
    lemma_invite_pieces(cfg, d, d.invite_branch, rtp_port, auth, cnonce);
    lemma_single_address(uri, tag);
    lemma_counted("INVITE"@, d.cseq);
    lemma_counted("ACK"@, d.cseq);
    assert(wire::readable_headers(ah));
    wire::law_invite_parts(cfg, d, d.invite_branch, rtp_port, auth, cnonce);
    wire::law_ack_parts(cfg, e, uri, d.invite_branch, d.cseq);
    reveal_strlit("INVITE");
    reveal_strlit("ACK");
    lemma_request_read("INVITE"@, uri, ih, sdp);
    lemma_request_read("ACK"@, uri, ah, Seq::empty());
}

/// A peer that reads the ACK of an answer finds the remote target as its Request-URI, where that is
/// a single word, a fresh branch and the INVITE's sequence number. The requirement is only that
/// neither the Request-URI nor a header holds a line break.
pub proof fn law_ack_of_an_answer_goes_to_the_remote_target(
    cfg: CfgAsterisk,
    d: SnapshotModel,
    fresh_branch: Text,
)
    requires
        wire::one_line(request::in_dialog_uri(cfg, d)),
        wire::readable_headers(wire::ack_headers(cfg, d, fresh_branch, d.cseq)),
    ensures
        ({
            let ack = sip::message_of(request::ack_2xx_text(cfg, d, fresh_branch, d.cseq));
            &&& ack is Some
            &&& ack->0.method() == Some("ACK"@)
            &&& is_word(request::in_dialog_uri(cfg, d)) ==> ack->0.request_uri() == Some(
                request::in_dialog_uri(cfg, d),
            )
            &&& ack->0.header("Via"@) == Some(text::trimmed(request::own_via(cfg, fresh_branch)))
            &&& ack->0.header("CSeq"@) == Some(request::cseq(d.cseq, "ACK"@))
            &&& ack->0.call_id() == Some(text::trimmed(d.call_id_header))
        }),
{
    broadcast use lemma_added_header;

    let uri = request::in_dialog_uri(cfg, d);
    reveal_strlit("ACK");
    assert(is_word("ACK"@));
    lemma_names();
    lemma_no_header();
    lemma_counted("ACK"@, d.cseq);
    wire::law_ack_parts(cfg, d, uri, fresh_branch, d.cseq);
    lemma_request_read(
        "ACK"@,
        uri,
        wire::ack_headers(cfg, d, fresh_branch, d.cseq),
        Seq::empty(),
    );
}

// ---------------------------------------------------------------------------------------------
// CANCEL and BYE from any parameters

/// Whether nothing that a CANCEL or BYE is made from holds a line break.
pub open spec fn single_lines(p: TeardownModel) -> bool {
    &&& wire::one_line(p.invite_uri)
    &&& p.remote_target matches Some(target) ==> wire::one_line(target)
    &&& wire::one_line(p.via_host)
    &&& wire::one_line(p.invite_branch)
    &&& wire::one_line(p.fresh_branch)
    &&& wire::one_line(p.from_uri)
    &&& wire::one_line(p.local_tag)
    &&& p.remote_tag matches Some(tag) ==> wire::one_line(tag)
    &&& wire::one_line(p.call_id)
    &&& wire::one_line(p.contact)
}

/// Whether a message is the one that a peer has to read in a CANCEL or BYE: with that method in
/// its start line and in CSeq, that Call-ID, no body, and a Contact only in a BYE.
pub open spec fn reads_as_teardown(m: Option<MessageModel>, cancel: bool, call_id: Text) -> bool {
    let method = if cancel {
        "CANCEL"@
    } else {
        "BYE"@
    };
    &&& m is Some
    &&& m->0.body == Seq::<char>::empty()
    &&& m->0.headers.len() == if cancel {
        7int
    } else {
        8
    }
    &&& m->0.method() == Some(method)
    &&& m->0.cseq_method() == Some(method)
    &&& m->0.call_id() == Some(call_id)
    &&& m->0.header("Content-Length"@) == Some("0"@)
    &&& m->0.header("Contact"@) is None <==> cancel
}

/// A CANCEL or BYE is read back as such from its octets, whatever it is made from, as long as no
/// part of it holds a line break and its Call-ID has no white space at its ends.
pub proof fn law_teardowns_are_read_back(p: TeardownModel)
    requires
        single_lines(p),
        text::trimmed(p.call_id) == p.call_id,
    ensures
        reads_as_teardown(sip::message_of(request::teardown_text(p)), p.cancel, p.call_id),
        ({
            let octets = vstd::utf8::encode_utf8(request::teardown_text(p));
            vstd::utf8::valid_utf8(octets) && vstd::utf8::decode_utf8(octets)
                == request::teardown_text(p)
        }),
{
    let t = request::teardown_text(p);
    vstd::utf8::encode_utf8_valid_utf8(t);
    vstd::utf8::encode_utf8_decode_utf8(t);
    if p.cancel {
        lemma_single_tagged(p.from_uri, p.local_tag);
        law_cancels_are_read_back(p, request::tagged_address(p.from_uri, p.local_tag));
    } else {
        lemma_bye_read(p);
    }
}

/// A CANCEL with any From is read back as such, as long as no part of it holds a line break and
/// its Call-ID has no white space at its ends.
pub proof fn law_cancels_are_read_back(p: TeardownModel, from: Text)
    requires
        single_lines(p),
        wire::one_line(from),
        text::trimmed(p.call_id) == p.call_id,
    ensures
        reads_as_teardown(sip::message_of(request::cancel_text_with(p, from)), true, p.call_id),
        sip::message_of(request::cancel_text_with(p, from))->0.header("From"@) == Some(
            text::trimmed(from),
        ),
{
    broadcast use {lemma_added_header, lemma_readable_added, lemma_readable_none};

    let ch = wire::cancel_headers(p, from);
    lemma_header_names();
    lemma_names();
    lemma_no_header();
    lemma_single_address(p.invite_uri, None);
    lemma_via(p.via_host, p.via_port, p.invite_branch);
    lemma_counted("CANCEL"@, p.invite_cseq);
    assert(wire::readable_headers(ch));
    wire::law_cancel_parts(p, from);
    reveal_strlit("CANCEL");
    lemma_request_read("CANCEL"@, p.invite_uri, ch, Seq::empty());
    lemma_counted_method("CANCEL"@, p.invite_cseq);
    assert(ch.len() == 7);
    assert(text::unix_lines(Seq::<char>::empty()) =~= Seq::empty());
}

proof fn lemma_bye_read(p: TeardownModel)
    requires
        single_lines(p),
        text::trimmed(p.call_id) == p.call_id,
    ensures
        reads_as_teardown(sip::message_of(request::bye_text(p)), false, p.call_id),
{
    broadcast use {lemma_added_header, lemma_readable_added, lemma_readable_none};

    let bh = wire::bye_headers(p);
    let n = request::next_cseq(p.invite_cseq);
    lemma_header_names();
    lemma_names();
    lemma_no_header();
    lemma_single_address(p.invite_uri, p.remote_tag);
    lemma_single_address(p.contact, None);
    lemma_single_tagged(p.from_uri, p.local_tag);
    lemma_via(p.via_host, p.via_port, p.fresh_branch);
    lemma_counted("BYE"@, n);
    assert(wire::readable_headers(bh));
    wire::law_bye_parts(p);
    reveal_strlit("BYE");
    lemma_request_read("BYE"@, wire::bye_uri(p), bh, Seq::empty());
    lemma_counted_method("BYE"@, n);
    assert(bh.len() == 8);
    assert(text::unix_lines(Seq::<char>::empty()) =~= Seq::empty());
}

/// The method in the value of a CSeq header is found.
pub(crate) proof fn lemma_counted_method(method: Text, n: u32)
    requires
        is_word(method),
    ensures
        text::nth_word(request::cseq(n, method), 1) == Some(method),
{
    law_numbers_are_read_back(n as nat, n as nat);
    lemma_words(text::decimal(n as nat), method);
    lemma_words(method, Seq::empty());
}

/// The parts of a text within one line lie within one line.
pub(crate) proof fn lemma_one_line_parts(a: Text, b: Text)
    requires
        wire::one_line(a + b),
    ensures
        wire::one_line(a),
        wire::one_line(b),
{
    let s = a + b;
    assert forall|i: int| 0 <= i < a.len() implies a[i] != '\r' && a[i] != '\n' by {
        assert(s[i] == a[i] && s.contains(s[i]));
    }
    assert forall|i: int| 0 <= i < b.len() implies b[i] != '\r' && b[i] != '\n' by {
        assert(s[i + a.len()] == b[i] && s.contains(s[i + a.len()]));
    }
}

/// An address of single lines is a single line.
pub(crate) proof fn lemma_single_address(uri: Text, tag: Option<Text>)
    requires
        wire::one_line(uri),
        tag matches Some(t) ==> wire::one_line(t),
    ensures
        wire::one_line(request::address(uri)),
        wire::one_line(request::maybe_tagged(uri, tag)),
{
    broadcast use lemma_one_line_added;

    reveal_strlit("<");
    reveal_strlit(">");
    assert(wire::one_line("<"@));
    assert(wire::one_line(">"@));
    if let Some(t) = tag {
        lemma_single_tagged(uri, t);
    }
}

pub(crate) proof fn lemma_single_tagged(uri: Text, tag: Text)
    requires
        wire::one_line(uri),
        wire::one_line(tag),
    ensures
        wire::one_line(request::tagged_address(uri, tag)),
{
    broadcast use lemma_one_line_added;

    reveal_strlit("<");
    reveal_strlit(">;tag=");
    assert(wire::one_line("<"@));
    assert(wire::one_line(">;tag="@));
}

/// What a CANCEL or an ACK takes over from a readable INVITE is readable.
proof fn lemma_invite_pieces(
    cfg: CfgAsterisk,
    d: SnapshotModel,
    branch: Text,
    rtp_port: u16,
    auth: Option<ChallengeModel>,
    cnonce: Text,
)
    requires
        wire::readable_headers(wire::invite_headers(cfg, d, branch, rtp_port, auth, cnonce)),
    ensures
        wire::readable_headers(wire::invite_head(cfg, d, branch)),
        wire::one_line(request::own_via(cfg, branch)),
        wire::one_line(request::invite_from(cfg, d)),
        wire::one_line(request::tagged_address(d.local_uri, d.local_tag)),
        wire::one_line(request::address(request::request_uri(cfg, d.number))),
        wire::one_line(request::request_uri(cfg, d.number)),
        wire::one_line(request::address(request::contact_uri(cfg))),
        wire::one_line(d.call_id_header),
{
    broadcast use lemma_readable_added;

    let uri = request::request_uri(cfg, d.number);
    assert(wire::readable_headers(wire::invite_head(cfg, d, branch)));
    lemma_one_line_parts(
        "\""@ + request::caller_id(cfg, d) + "\" "@,
        request::tagged_address(d.local_uri, d.local_tag),
    );
    lemma_one_line_parts("<"@ + uri, ">"@);
    lemma_one_line_parts("<"@, uri);
}

/// Headers are readable if all but the last are and the last is.
pub(crate) broadcast proof fn lemma_readable_added(headers: Seq<(Text, Text)>, h: (Text, Text))
    ensures
        #[trigger] wire::readable_headers(headers.push(h)) == (wire::readable_headers(headers)
            && wire::readable_header(h)),
{
    let more = headers.push(h);
    if wire::readable_headers(more) {
        assert forall|i: int| 0 <= i < headers.len() implies wire::readable_header(
            #[trigger] headers[i],
        ) by {
            assert(wire::readable_header(more[i]));
        }
        assert(wire::readable_header(more[headers.len() as int]));
    }
    if wire::readable_headers(headers) && wire::readable_header(h) {
        assert forall|i: int| 0 <= i < more.len() implies wire::readable_header(
            #[trigger] more[i],
        ) by {
            if i < headers.len() {
                assert(wire::readable_header(headers[i]));
            }
        }
    }
}

pub(crate) broadcast proof fn lemma_readable_none()
    ensures
        #[trigger] wire::readable_headers(Seq::<(Text, Text)>::empty()),
{
}

/// A peer that reads a BYE finds a transaction of its own in the same dialog: a fresh branch,
/// the sequence number after the INVITE's, the tag that was negotiated, and the remote target
/// as its Request-URI, where that is a single word. The requirement is only that neither the
/// Request-URI nor a header holds a line break.
pub proof fn law_bye_is_a_new_transaction(
    cfg: CfgAsterisk,
    d: SnapshotModel,
    fresh_branch: Text,
)
    requires
        wire::one_line(request::in_dialog_uri(cfg, d)),
        wire::readable_headers(
            wire::bye_headers(request::teardown_of(cfg, d, false, fresh_branch)),
        ),
    ensures
        ({
            let bye = sip::message_of(
                request::dialog_teardown_text(cfg, d, false, fresh_branch),
            );
            &&& bye is Some
            &&& bye->0.method() == Some("BYE"@)
            &&& is_word(request::in_dialog_uri(cfg, d)) ==> bye->0.request_uri() == Some(
                request::in_dialog_uri(cfg, d),
            )
            &&& bye->0.header("Via"@) == Some(text::trimmed(request::own_via(cfg, fresh_branch)))
            &&& bye->0.header("From"@) == Some(
                text::trimmed(request::tagged_address(d.local_uri, d.local_tag)),
            )
            &&& bye->0.header("To"@) == Some(
                text::trimmed(
                    request::maybe_tagged(request::request_uri(cfg, d.number), d.remote_tag),
                ),
            )
            &&& bye->0.call_id() == Some(text::trimmed(d.call_id_header))
            &&& bye->0.header("CSeq"@) == Some(
                request::cseq(request::next_cseq(d.cseq), "BYE"@),
            )
        }),
{
    broadcast use lemma_added_header;

    let p = request::teardown_of(cfg, d, false, fresh_branch);
    let uri = wire::bye_uri(p);
    reveal_strlit("BYE");
    assert(is_word("BYE"@));
    lemma_names();
    lemma_no_header();
    lemma_counted("BYE"@, request::next_cseq(d.cseq));
    wire::law_bye_parts(p);
    lemma_request_read("BYE"@, uri, wire::bye_headers(p), Seq::empty());
}

/// There is nothing in no headers.
pub(crate) proof fn lemma_no_header()
    ensures
        forall|name: Text|
            (#[trigger] sip::first_value(Seq::<(Text, Text)>::empty(), name)) is None,
{
}

// ---------------------------------------------------------------------------------------------
// Numbers

/// A number that is written in decimal is read back.
pub proof fn law_numbers_are_read_back(n: nat, max: nat)
    ensures
        text::number(text::decimal(n), max) == (if n <= max {
            Some(n)
        } else {
            None
        }),
        is_word(text::decimal(n)),
        text::all_digits(text::decimal(n)),
{
    lemma_decimal(n);
    let s = text::decimal(n);
    assert('0' <= s[0] <= '9');
    assert forall|i: int| 0 <= i < s.len() implies !text::is_white(#[trigger] s[i]) by {
        assert('0' <= s[i] <= '9');
    }
}

proof fn lemma_decimal(n: nat)
    ensures
        text::digits_value(text::decimal(n)) == n,
        text::all_digits(text::decimal(n)),
        text::decimal(n).len() > 0,
    decreases n,
{
    let s = text::decimal(n);
    if n < 10 {
        assert(s.drop_last() =~= Seq::empty());
        assert(text::digits_value(s.drop_last()) == 0);
    } else {
        lemma_decimal(n / 10);
        let t = text::decimal(n / 10);
        assert(s =~= t.push(text::digit_char(n % 10)));
        assert(s.drop_last() =~= t);
        assert forall|i: int| 0 <= i < s.len() implies '0' <= #[trigger] s[i] <= '9' by {
            if i < t.len() {
                assert(s[i] == t[i]);
            }
        }
    }
}

// ---------------------------------------------------------------------------------------------
// Responses

/// A peer that reads a response finds its status, the headers of its request repeated without the
/// white space at their ends, and To with a tag. The requirement is only that neither the reason
/// nor a header holds a line break.
pub proof fn law_responses_repeat_their_request(
    cfg: CfgAsterisk,
    ctx: ContextModel,
    code: u16,
    reason: Text,
    to_tag: Option<Text>,
    kind: Text,
    body: Text,
)
    requires
        wire::one_line(reason),
        wire::readable_headers(wire::response_headers(cfg, ctx, code, to_tag, kind, body)),
    ensures
        ({
            let m = sip::message_of(
                request::response_text(cfg, ctx, code, reason, to_tag, kind, body),
            );
            &&& m is Some
            &&& m->0.status_code() == Some(code as nat)
            &&& m->0.header("Via"@) == Some(text::trimmed(ctx.via))
            &&& m->0.header("From"@) == Some(text::trimmed(ctx.from))
            &&& m->0.header("To"@) == Some(text::trimmed(fields::with_tag(ctx.to, to_tag)))
            &&& m->0.call_id() == Some(text::trimmed(ctx.call_id))
            &&& m->0.header("CSeq"@) == Some(text::trimmed(ctx.cseq))
            &&& m->0.body == text::unix_lines(body)
        }),
{
    broadcast use lemma_added_header;

    let headers = wire::response_headers(cfg, ctx, code, to_tag, kind, body);
    lemma_response_start(code, reason);
    lemma_names();
    lemma_no_header();
    lemma_first_trimmed(headers, "Via"@);
    lemma_first_trimmed(headers, "From"@);
    lemma_first_trimmed(headers, "To"@);
    lemma_first_trimmed(headers, "Call-ID"@);
    lemma_first_trimmed(headers, "CSeq"@);
    wire::law_response_parts(cfg, ctx, code, reason, to_tag, kind, body);
    wire::law_message_is_read_trimmed(wire::response_start(code, reason), headers, body);
}

/// A peer that reads a response finds its status, whatever the request was. The requirement is
/// only that the reason holds no line break.
pub proof fn law_statuses_are_read_back(
    cfg: CfgAsterisk,
    ctx: ContextModel,
    code: u16,
    reason: Text,
    to_tag: Option<Text>,
    kind: Text,
    body: Text,
)
    requires
        wire::one_line(reason),
    ensures
        sip::message_of(
            request::response_text(cfg, ctx, code, reason, to_tag, kind, body),
        ) matches Some(m) && m.is_response() && m.status_code() == Some(code as nat),
{
    lemma_response_start(code, reason);
    wire::law_response_parts(cfg, ctx, code, reason, to_tag, kind, body);
    wire::law_start_line_is_read(
        wire::response_start(code, reason),
        wire::response_headers(cfg, ctx, code, to_tag, kind, body),
        body,
    );
}

/// The start line of a response lies within one line, and is read as its status.
pub(crate) proof fn lemma_response_start(code: u16, reason: Text)
    requires
        wire::one_line(reason),
    ensures
        ({
            let start = wire::response_start(code, reason);
            &&& start.len() > 0
            &&& wire::one_line(start)
            &&& "SIP/2.0 "@.is_prefix_of(text::trimmed(start))
            &&& text::nth_word(text::trimmed(start), 1) == Some(text::decimal(code as nat))
            &&& text::number(text::decimal(code as nat), u16::MAX as nat) == Some(code as nat)
        }),
{
    broadcast use lemma_one_line_added;

    let start = wire::response_start(code, reason);
    let version = "SIP/2.0"@;
    let number = text::decimal(code as nat);
    reveal_strlit("SIP/2.0 ");
    reveal_strlit("SIP/2.0");
    reveal_strlit(" ");
    law_numbers_are_read_back(code as nat, u16::MAX as nat);
    lemma_word_is_tidy(number);
    assert(wire::one_line("SIP/2.0 "@));
    assert(wire::one_line(" "@));
    assert("SIP/2.0 "@ =~= version + " "@);
    assert(is_word(version));

    let head = "SIP/2.0 "@ + number;
    let more = " "@ + reason;
    let end = text::strip_end(more, |c: char| text::is_white(c));
    let t = text::trimmed(start);
    assert(start =~= head + more);
    assert(head[0] == 'S');
    assert(head.last() == number[number.len() - 1]);
    lemma_trimmed_after(head, more);
    assert(t =~= version + " "@ + (number + end));
    lemma_words(version, number + end);
    lemma_run(number, end);
    assert((number + end).take(number.len() as int) =~= number);
    assert((number + end)[0] == number[0]);
    assert(text::words_of(number + end)[0] == number);
    assert("SIP/2.0 "@ =~= t.subrange(0, 8));
}

/// What follows a text without white space at its ends is trimmed at its end only.
pub(crate) proof fn lemma_trimmed_after(a: Text, b: Text)
    requires
        a.len() > 0,
        !text::is_white(a[0]),
        !text::is_white(a.last()),
    ensures
        ({
            let end = text::strip_end(b, |c: char| text::is_white(c));
            &&& text::trimmed(a + b) == a + end
            &&& end.len() > 0 ==> b.len() > 0 && end[0] == b[0]
        }),
    decreases b.len(),
{
    let p = |c: char| text::is_white(c);
    let s = a + b;
    assert(s[0] == a[0]);
    assert(text::strip_start(s, p) == s);
    if b.len() == 0 {
        assert(s =~= a);
        assert(text::strip_end(b, p) == b);
    } else {
        assert(s.last() == b.last());
        if p(b.last()) {
            let c = b.drop_last();
            assert(s.drop_last() =~= a + c);
            lemma_trimmed_after(a, c);
            assert((a + c)[0] == a[0]);
            assert(text::strip_start(a + c, p) == a + c);
        }
    }
}

/// A text that trimming leaves as it is has no white space at its ends.
pub(crate) proof fn lemma_trimmed_ends(s: Text)
    requires
        s.len() > 0,
        text::trimmed(s) == s,
    ensures
        !text::is_white(s[0]),
        !text::is_white(s.last()),
{
    let p = |c: char| text::is_white(c);
    lemma_strip_start_shortens(s, p);
    lemma_strip_end_shortens(text::strip_start(s, p), p);
    if p(s[0]) {
        lemma_strip_start_shortens(s.drop_first(), p);
    }
    if p(s.last()) {
        lemma_strip_end_shortens(s.drop_last(), p);
        if !p(s[0]) {
            assert(text::strip_start(s, p) == s);
        }
    }
}

proof fn lemma_strip_start_shortens(s: Text, p: spec_fn(char) -> bool)
    ensures
        text::strip_start(s, p).len() <= s.len(),
    decreases s.len(),
{
    if s.len() > 0 && p(s[0]) {
        lemma_strip_start_shortens(s.drop_first(), p);
    }
}

proof fn lemma_strip_end_shortens(s: Text, p: spec_fn(char) -> bool)
    ensures
        text::strip_end(s, p).len() <= s.len(),
    decreases s.len(),
{
    if s.len() > 0 && p(s.last()) {
        lemma_strip_end_shortens(s.drop_last(), p);
    }
}

/// A To header that is to carry a tag carries one.
pub proof fn law_tags_are_added(to: Text, tag: Text)
    ensures
        text::position(text::lower(fields::with_tag(to, Some(tag))), ";tag="@) is Some,
        fields::with_tag(fields::with_tag(to, Some(tag)), Some(tag)) == fields::with_tag(
            to,
            Some(tag),
        ),
{
    let key = ";tag="@;
    let r = fields::with_tag(to, Some(tag));
    if text::position(text::lower(to), key) is None {
        reveal_strlit(";tag=");
        let n = to.len() as int;
        text::lemma_position(text::lower(r), key);
        let rest = text::lower(r).skip(n);
        assert(key.is_prefix_of(rest)) by {
            assert(rest.subrange(0, 5) =~= key);
        }
        assert(r == to + key + tag);
        assert(text::lower(r).len() == r.len());
    }
}

// ---------------------------------------------------------------------------------------------
// Plain settings

/// Whether nothing that the requests of a dialog are made from holds a line break, and what
/// stands at the end of a header does not end in white space.
pub open spec fn plain(cfg: CfgAsterisk, d: SnapshotModel) -> bool {
    &&& wire::one_line(cfg.contact_host@)
    &&& wire::one_line(cfg.remote_host@)
    &&& wire::one_line(cfg.from_domain@)
    &&& wire::one_line(cfg.local_user@)
    &&& wire::one_line(d.number)
    &&& wire::one_line(d.local_uri)
    &&& wire::one_line(d.invite_branch)
    &&& wire::tidy(d.local_tag) && d.local_tag.len() > 0
    &&& wire::tidy(d.call_id_header)
    &&& d.remote_tag matches Some(tag) ==> wire::tidy(tag) && tag.len() > 0
}

/// Requests that are made from plain settings can be read: the INVITE, its CANCEL, the ACK of a
/// failure and of an answer, and the BYE.
pub proof fn law_plain_requests_are_tidy(
    cfg: CfgAsterisk,
    d: SnapshotModel,
    rtp_port: u16,
    cnonce: Text,
    fresh_branch: Text,
)
    requires
        plain(cfg, d),
        wire::one_line(fresh_branch),
    ensures
        wire::tidy_headers(
            wire::invite_headers(cfg, d, d.invite_branch, rtp_port, None, cnonce),
        ),
        wire::tidy_headers(
            wire::cancel_headers(
                request::teardown_of(cfg, d, true, fresh_branch),
                request::invite_from(cfg, d),
            ),
        ),
        wire::tidy_headers(wire::ack_headers(cfg, d, d.invite_branch, d.cseq)),
        wire::tidy_headers(wire::ack_headers(cfg, d, fresh_branch, d.cseq)),
        wire::tidy_headers(
            wire::bye_headers(request::teardown_of(cfg, d, false, fresh_branch)),
        ),
{
    broadcast use {lemma_tidy_added, lemma_tidy_none};

    lemma_header_names();
    lemma_plain_values(cfg, d, fresh_branch);
    lemma_identity_values(cfg, d);
    lemma_counted("INVITE"@, d.cseq);
    lemma_counted("CANCEL"@, d.cseq);
    lemma_counted("ACK"@, d.cseq);
    lemma_counted("BYE"@, request::next_cseq(d.cseq));
    let body = request::sdp_text(cfg, rtp_port);
    let n = vstd::utf8::encode_utf8(body).len();
    law_numbers_are_read_back(n, n);
    lemma_word_is_tidy(request::content_length(body));
}

/// Headers are tidy if all but the last are and the last is.
broadcast proof fn lemma_tidy_added(headers: Seq<(Text, Text)>, h: (Text, Text))
    ensures
        #[trigger] wire::tidy_headers(headers.push(h)) == (wire::tidy_headers(headers)
            && wire::tidy_header(h)),
{
    let more = headers.push(h);
    if wire::tidy_headers(more) {
        assert forall|i: int| 0 <= i < headers.len() implies wire::tidy_header(
            #[trigger] headers[i],
        ) by {
            assert(wire::tidy_header(more[i]));
        }
        assert(wire::tidy_header(more[headers.len() as int]));
    }
    if wire::tidy_headers(headers) && wire::tidy_header(h) {
        assert forall|i: int| 0 <= i < more.len() implies wire::tidy_header(
            #[trigger] more[i],
        ) by {
            if i < headers.len() {
                assert(wire::tidy_header(headers[i]));
            }
        }
    }
}

broadcast proof fn lemma_tidy_none()
    ensures
        #[trigger] wire::tidy_headers(Seq::<(Text, Text)>::empty()),
{
}

/// One line and another make one line.
pub(crate) broadcast proof fn lemma_one_line_added(a: Text, b: Text)
    requires
        wire::one_line(a),
        wire::one_line(b),
    ensures
        #[trigger] wire::one_line(a + b),
{
    let s = a + b;
    assert forall|i: int| 0 <= i < s.len() implies s[i] != '\r' && s[i] != '\n' by {
        if i < a.len() {
            assert(a.contains(s[i]));
        } else {
            assert(b[i - a.len()] == s[i]);
            assert(b.contains(s[i]));
        }
    }
}

/// A word is tidy.
pub(crate) proof fn lemma_word_is_tidy(s: Text)
    requires
        is_word(s),
    ensures
        wire::tidy(s),
{
    assert(!text::is_white(s[0]));
    assert(!text::is_white(s[s.len() - 1]));
    lemma_trimmed(s);
    assert forall|i: int| 0 <= i < s.len() implies s[i] != '\r' && s[i] != '\n' by {
        assert(!text::is_white(s[i]));
    }
}

/// The value of a CSeq header is tidy.
pub(crate) proof fn lemma_counted(method: Text, n: u32)
    requires
        is_word(method),
    ensures
        wire::tidy(request::cseq(n, method)),
{
    broadcast use lemma_one_line_added;

    reveal_strlit(" ");
    law_numbers_are_read_back(n as nat, n as nat);
    lemma_word_is_tidy(text::decimal(n as nat));
    lemma_word_is_tidy(method);
    let s = request::cseq(n, method);
    assert(s[0] == text::decimal(n as nat)[0]);
    assert(!text::is_white(text::decimal(n as nat)[0]));
    assert(s.last() == method[method.len() - 1]);
    lemma_trimmed(s);
}

/// Whether a text can be the name of a header.
pub(crate) open spec fn is_name(s: Text) -> bool {
    is_word(s) && wire::tidy(s) && !s.contains(':')
}

pub(crate) proof fn lemma_name(s: Text)
    requires
        s.len() > 0,
        forall|i: int|
            0 <= i < s.len() ==> !text::is_white(#[trigger] s[i]) && s[i] != ':',
    ensures
        is_name(s),
{
    lemma_word_is_tidy(s);
}

/// The names of headers, and values that are single words.
pub(crate) proof fn lemma_header_names()
    ensures
        is_name("Via"@),
        is_name("Max-Forwards"@),
        is_name("From"@),
        is_name("To"@),
        is_name("Call-ID"@),
        is_name("CSeq"@),
        is_name("Contact"@),
        is_name("Content-Length"@),
        is_name("Allow"@),
        is_name("Supported"@),
        is_name("P-Asserted-Identity"@),
        is_name("Remote-Party-ID"@),
        is_name("Content-Type"@),
        is_name("70"@),
        is_name("0"@),
        is_name("replaces"@),
        is_name("application/sdp"@),
        is_name("INVITE"@),
        is_name("CANCEL"@),
        is_name("ACK"@),
        is_name("BYE"@),
{
    reveal_strlit("Via");
    lemma_name("Via"@);
    reveal_strlit("Max-Forwards");
    lemma_name("Max-Forwards"@);
    reveal_strlit("From");
    lemma_name("From"@);
    reveal_strlit("To");
    lemma_name("To"@);
    reveal_strlit("Call-ID");
    lemma_name("Call-ID"@);
    reveal_strlit("CSeq");
    lemma_name("CSeq"@);
    reveal_strlit("Contact");
    lemma_name("Contact"@);
    reveal_strlit("Content-Length");
    lemma_name("Content-Length"@);
    reveal_strlit("Allow");
    lemma_name("Allow"@);
    reveal_strlit("Supported");
    lemma_name("Supported"@);
    reveal_strlit("P-Asserted-Identity");
    lemma_name("P-Asserted-Identity"@);
    reveal_strlit("Remote-Party-ID");
    lemma_name("Remote-Party-ID"@);
    reveal_strlit("Content-Type");
    lemma_name("Content-Type"@);
    reveal_strlit("70");
    lemma_name("70"@);
    reveal_strlit("0");
    lemma_name("0"@);
    reveal_strlit("replaces");
    lemma_name("replaces"@);
    reveal_strlit("application/sdp");
    lemma_name("application/sdp"@);
    reveal_strlit("INVITE");
    lemma_name("INVITE"@);
    reveal_strlit("CANCEL");
    lemma_name("CANCEL"@);
    reveal_strlit("ACK");
    lemma_name("ACK"@);
    reveal_strlit("BYE");
    lemma_name("BYE"@);
}

/// A text that begins and ends with visible characters and lies within one line is tidy.
pub(crate) proof fn lemma_tidy(s: Text)
    requires
        s.len() > 0,
        wire::one_line(s),
        !text::is_white(s[0]),
        !text::is_white(s.last()),
    ensures
        wire::tidy(s),
{
    lemma_trimmed(s);
}

/// An address is tidy.
pub(crate) proof fn lemma_address(uri: Text, tag: Option<Text>)
    requires
        wire::one_line(uri),
        tag matches Some(t) ==> wire::tidy(t) && t.len() > 0,
    ensures
        wire::tidy(request::address(uri)),
        wire::tidy(request::maybe_tagged(uri, tag)),
{
    broadcast use lemma_one_line_added;

    reveal_strlit("<");
    reveal_strlit(">");
    reveal_strlit(">;tag=");
    assert(wire::one_line("<"@));
    assert(wire::one_line(">"@));
    assert(wire::one_line(">;tag="@));
    lemma_tidy(request::address(uri));
    if let Some(t) = tag {
        lemma_trimmed_ends(t);
        lemma_tidy(request::tagged_address(uri, t));
    }
}

/// A Via header is tidy.
pub(crate) proof fn lemma_via(host: Text, port: u16, branch: Text)
    requires
        wire::one_line(host),
        wire::one_line(branch),
    ensures
        wire::tidy(request::via(host, port, branch)),
{
    broadcast use lemma_one_line_added;

    reveal_strlit("SIP/2.0/UDP ");
    reveal_strlit(":");
    reveal_strlit(";branch=");
    reveal_strlit(";rport");
    assert(wire::one_line("SIP/2.0/UDP "@));
    assert(wire::one_line(":"@));
    assert(wire::one_line(";branch="@));
    assert(wire::one_line(";rport"@));
    law_numbers_are_read_back(port as nat, port as nat);
    lemma_word_is_tidy(text::decimal(port as nat));
    lemma_tidy(request::via(host, port, branch));
}

/// The URIs of the bridge lie within one line.
proof fn lemma_uris(cfg: CfgAsterisk, d: SnapshotModel)
    requires
        plain(cfg, d),
    ensures
        wire::one_line(request::contact_uri(cfg)),
        wire::one_line(request::request_uri(cfg, d.number)),
        wire::one_line(request::identity_uri(cfg, d)),
        wire::one_line(request::caller_id(cfg, d)),
{
    broadcast use lemma_one_line_added;

    reveal_strlit("sip:");
    reveal_strlit("@");
    reveal_strlit(":");
    assert(wire::one_line("sip:"@));
    assert(wire::one_line("@"@));
    assert(wire::one_line(":"@));
    law_numbers_are_read_back(cfg.bind_port as nat, cfg.bind_port as nat);
    lemma_word_is_tidy(text::decimal(cfg.bind_port as nat));
    if let Some(issi) = d.source_issi {
        law_numbers_are_read_back(issi as nat, issi as nat);
        lemma_word_is_tidy(text::decimal(issi as nat));
    }
}

/// The values of the headers of a dialog's requests are tidy.
proof fn lemma_plain_values(cfg: CfgAsterisk, d: SnapshotModel, fresh_branch: Text)
    requires
        plain(cfg, d),
        wire::one_line(fresh_branch),
    ensures
        wire::tidy(request::own_via(cfg, d.invite_branch)),
        wire::tidy(request::own_via(cfg, fresh_branch)),
        wire::tidy(request::tagged_address(d.local_uri, d.local_tag)),
        wire::tidy(request::address(request::request_uri(cfg, d.number))),
        wire::tidy(request::maybe_tagged(request::request_uri(cfg, d.number), d.remote_tag)),
        wire::tidy(request::address(request::contact_uri(cfg))),
        wire::tidy(request::allowed_methods()),
{
    broadcast use lemma_one_line_added;

    lemma_uris(cfg, d);
    lemma_via(cfg.contact_host@, cfg.bind_port, d.invite_branch);
    lemma_via(cfg.contact_host@, cfg.bind_port, fresh_branch);
    lemma_address(d.local_uri, Some(d.local_tag));
    lemma_address(request::request_uri(cfg, d.number), d.remote_tag);
    lemma_address(request::contact_uri(cfg), None);
    reveal_strlit("INVITE, ACK, CANCEL, OPTIONS, BYE, INFO");
    assert(wire::one_line(request::allowed_methods()));
    lemma_tidy(request::allowed_methods());
}

/// The values of the headers of an INVITE that show who is calling are tidy.
proof fn lemma_identity_values(cfg: CfgAsterisk, d: SnapshotModel)
    requires
        plain(cfg, d),
    ensures
        wire::tidy(request::invite_from(cfg, d)),
        ({
            let shown = "\""@ + request::caller_id(cfg, d) + "\" <"@ + request::identity_uri(
                cfg,
                d,
            );
            &&& wire::tidy(shown + ">"@)
            &&& wire::tidy(shown + ">;party=calling;screen=yes;privacy=off"@)
        }),
{
    broadcast use lemma_one_line_added;

    lemma_uris(cfg, d);
    lemma_address(d.local_uri, Some(d.local_tag));
    reveal_strlit("\"");
    reveal_strlit("\" ");
    reveal_strlit("\" <");
    reveal_strlit(">");
    reveal_strlit(">;party=calling;screen=yes;privacy=off");
    assert(wire::one_line("\""@));
    assert(wire::one_line("\" "@));
    assert(wire::one_line("\" <"@));
    assert(wire::one_line(">"@));
    assert(wire::one_line(">;party=calling;screen=yes;privacy=off"@));
    let from = request::tagged_address(d.local_uri, d.local_tag);
    reveal_strlit("<");
    lemma_trimmed_ends(from);
    assert(request::invite_from(cfg, d).last() == from.last());
    lemma_tidy(request::invite_from(cfg, d));
    let shown = "\""@ + request::caller_id(cfg, d) + "\" <"@ + request::identity_uri(cfg, d);
    assert((shown + ">"@)[0] == '"');
    lemma_tidy(shown + ">"@);
    let longer = shown + ">;party=calling;screen=yes;privacy=off"@;
    assert(longer[0] == '"');
    assert(longer.last() == 'f');
    lemma_tidy(longer);
}

} // verus!

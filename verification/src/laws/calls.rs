//! What holds of calls: what is kept, what is told to whom, and what ends them.
use vstd::prelude::*;
use crate::dialog;
use crate::dialog::{DialogModel, DialogState};
use crate::digest;
use crate::fields;
use crate::fields::ContextModel;
use crate::laws::identity;
use crate::model;
use crate::model::{ArrivalModel, EntityModel};
use crate::net::{IpAddr, SocketAddr};
use crate::request;
use crate::signal::{ActionModel, BodyModel, CallModel, ControlModel};
use crate::sip::MessageModel;
use crate::tables;
use crate::text;
use crate::text::Text;

verus! {

// ---------------------------------------------------------------------------------------------
// What is kept

/// Whether two states of a dialog agree on what its INVITE transaction is known by.
pub open spec fn same_transaction(a: DialogModel, b: DialogModel) -> bool {
    &&& a.uuid == b.uuid
    &&& a.number == b.number
    &&& a.call_id_header == b.call_id_header
    &&& a.local_uri == b.local_uri
    &&& a.local_tag == b.local_tag
    &&& a.cseq == b.cseq
    &&& a.invite_branch == b.invite_branch
    &&& a.inbound == b.inbound
    &&& a.request_context == b.request_context
    &&& !a.inbound ==> a.call.source_issi == b.call.source_issi
}

/// Whether a dialog has moved on to a second INVITE, with an answer to a challenge.
pub open spec fn retried(a: DialogModel, b: DialogModel, branch: Text) -> bool {
    &&& !a.auth_retry_sent
    &&& b.auth_retry_sent
    &&& same_transaction(DialogModel { cseq: 2, invite_branch: branch, ..a }, b)
}

/// A SIP message begins no dialog, and a dialog that survives it is still in the transaction of
/// its INVITE, so that a CANCEL or an ACK that is sent later matches; only a challenge moves the
/// dialog that it is for on to a new transaction, once.
#[verifier::rlimit(60)]
#[verifier::spinoff_prover]
pub proof fn law_messages_keep_transactions(
    s: EntityModel,
    msg: MessageModel,
    at: ArrivalModel,
    found: Option<u128>,
    cnonce: Text,
    u: u128,
)
    requires
        s.inv(),
        model::message_step(s, msg, at, found, cnonce).0.state.dialogs.contains_key(u),
    ensures
        s.dialogs.contains_key(u),
        ({
            let a = s.dialogs[u];
            let b = model::message_step(s, msg, at, found, cnonce).0.state.dialogs[u];
            same_transaction(a, b) || (found == Some(u) && retried(a, b, s.fresh_branch()))
        }),
{
    if let Some(v) = found {
        if s.dialogs.contains_key(v) {
            assert(s.dialogs[v].inv(v));
        }
    }
}

/// A message of the station begins no dialog by itself, and keeps every dialog that survives in
/// the transaction of its INVITE.
#[verifier::rlimit(60)]
#[verifier::spinoff_prover]
pub proof fn law_station_keeps_transactions(s: EntityModel, msg: BodyModel, now: u64, u: u128)
    requires
        model::station_step(s, msg, now).0.state.dialogs.contains_key(u),
    ensures
        s.dialogs.contains_key(u),
        same_transaction(
            s.dialogs[u],
            model::station_step(s, msg, now).0.state.dialogs[u],
        ),
{
}

/// A SIP message leaves the calls alone that it is not for.
#[verifier::rlimit(60)]
#[verifier::spinoff_prover]
pub proof fn law_messages_leave_other_calls_alone(
    s: EntityModel,
    msg: MessageModel,
    at: ArrivalModel,
    found: Option<u128>,
    cnonce: Text,
    u: u128,
)
    requires
        s.dialogs.contains_key(u),
        found != Some(u),
    ensures
        ({
            let t = model::message_step(s, msg, at, found, cnonce).0.state;
            t.dialogs.contains_key(u) && t.dialogs[u] == s.dialogs[u]
        }),
{
    if let Some(v) = found {
        if msg.method() is Some {
            lemma_hangup_leaves_others(s, msg, at.addr, v, u);
        } else if let Some(code) = msg.status_code() {
            lemma_result_leaves_others(s, v, msg, code as u16, at.sdp_ip, cnonce, u);
        }
    }
}

proof fn lemma_hangup_leaves_others(
    s: EntityModel,
    msg: MessageModel,
    addr: SocketAddr,
    v: u128,
    u: u128,
)
    requires
        s.dialogs.contains_key(u),
        v != u,
    ensures
        model::hangup_step(s, msg, addr, Some(v)).state.dialogs.contains_key(u),
        model::hangup_step(s, msg, addr, Some(v)).state.dialogs[u] == s.dialogs[u],
{
}

proof fn lemma_result_leaves_others(
    s: EntityModel,
    v: u128,
    msg: MessageModel,
    code: u16,
    sdp_ip: Option<IpAddr>,
    cnonce: Text,
    u: u128,
)
    requires
        s.dialogs.contains_key(u),
        v != u,
    ensures
        ({
            let t = model::invite_result_step(s, Some(v), msg, code, sdp_ip, cnonce).state;
            t.dialogs.contains_key(u) && t.dialogs[u] == s.dialogs[u]
        }),
{
}

/// A response or a hang-up with a Call-ID that no call has changes no call and tells CMCE nothing.
pub proof fn law_strange_call_ids_change_no_call(
    s: EntityModel,
    msg: MessageModel,
    at: ArrivalModel,
    cnonce: Text,
)
    ensures
        model::message_step(s, msg, at, None, cnonce).0.state.dialogs == s.dialogs,
        model::message_step(s, msg, at, None, cnonce).0.state.rtp_by_ts == s.rtp_by_ts,
        silent(model::message_step(s, msg, at, None, cnonce).0.actions),
{
}

/// A response to a call from a radio finds that call, unless a call from the network was given
/// the same Call-ID by its peer.
pub proof fn law_responses_find_their_call(
    s: EntityModel,
    uuid: u128,
    call_id: Text,
    found: Option<u128>,
)
    requires
        s.inv(),
        s.dialogs.contains_key(uuid),
        !s.dialogs[uuid].inbound,
        text::same_ignoring_case(call_id, s.dialogs[uuid].call_id_header),
        forall|u: u128| #[trigger]
            s.dialogs.contains_key(u) && s.dialogs[u].inbound ==> !text::same_ignoring_case(
                s.dialogs[u].call_id_header,
                call_id,
            ),
        model::located(s, Some(call_id), found),
    ensures
        found == Some(uuid),
{
    assert(s.dialogs[uuid].inv(uuid));
    if let Some(v) = found {
        assert(s.dialogs[v].inv(v));
        identity::law_call_ids_differ(s.config, uuid, v);
    }
}

// ---------------------------------------------------------------------------------------------
// Cancelled calls

/// Whether no action tells CMCE anything.
pub open spec fn silent(actions: Seq<ActionModel>) -> bool {
    forall|i: int| 0 <= i < actions.len() ==> !(#[trigger] actions[i] is Enqueue)
}

/// Whether a call is cancelled and waits for its final response.
pub open spec fn is_cancelled(s: EntityModel, uuid: u128) -> bool {
    s.dialogs.contains_key(uuid) && s.dialogs[uuid].state == DialogState::Cancelling
}

/// Where the station ends a call to the network that is not answered, the CANCEL goes out and
/// the dialog stays, in the transaction of its INVITE, until the final response; only its
/// timeslot is given back at once.
pub proof fn law_cancelled_call_waits(s: EntityModel, uuid: u128, now: u64)
    requires
        s.inv(),
        s.dialogs.contains_key(uuid),
        !s.dialogs[uuid].inbound,
        s.dialogs[uuid].state != DialogState::Established,
    ensures
        ({
            let d = s.dialogs[uuid];
            let t = model::release_step(s, uuid, true, now);
            &&& is_cancelled(t.state, uuid)
            &&& t.state.dialogs[uuid].released_at == Some(now)
            &&& t.state.dialogs[uuid].media_ready is None
            &&& same_transaction(d, t.state.dialogs[uuid])
            &&& d.media_ready matches Some((_, carrier_num, ts))
                ==> !t.state.rtp_by_ts.contains_key((carrier_num, ts))
            &&& t.actions == seq![
                ActionModel::SendSip {
                    payload: request::dialog_cancel_text(
                        s.config,
                        dialog::snapshot(d),
                        s.fresh_branch(),
                    ),
                    dest: s.remote,
                    summary: model::about("CANCEL"@, uuid),
                },
            ]
        }),
{
    let t = model::release_step(s, uuid, true, now);
    assert(s.dialogs[uuid].inv(uuid));
    assert(t.actions =~= model::teardown_step(s, uuid, true).actions);
}

/// An answer that has raced the CANCEL is acknowledged and then hung up, and the call is
/// forgotten; CMCE, which has been told before, hears nothing.
#[verifier::rlimit(60)]
#[verifier::spinoff_prover]
pub proof fn law_raced_answer_is_hung_up(
    s: EntityModel,
    uuid: u128,
    msg: MessageModel,
    code: u16,
    sdp_ip: Option<IpAddr>,
    cnonce: Text,
)
    requires
        s.inv(),
        is_cancelled(s, uuid),
        200 <= code <= 299,
    ensures
        ({
            let t = model::invite_result_step(s, Some(uuid), msg, code, sdp_ip, cnonce);
            let d = model::answered(s, uuid, msg, sdp_ip);
            &&& !t.state.dialogs.contains_key(uuid)
            &&& t.actions == seq![
                ActionModel::SendSip {
                    payload: request::ack_2xx_text(
                        s.config,
                        dialog::snapshot(d),
                        s.fresh_branch(),
                        d.cseq,
                    ),
                    dest: s.remote,
                    summary: model::about("ACK"@, uuid),
                },
                ActionModel::SendSip {
                    payload: request::bye_text(
                        request::teardown_of(
                            s.config,
                            dialog::snapshot(d),
                            false,
                            s.branch_used().fresh_branch(),
                        ),
                    ),
                    dest: s.remote,
                    summary: model::about("BYE"@, uuid),
                },
                ActionModel::CloseMedia(uuid),
            ]
        }),
{
    assert(s.dialogs[uuid].inv(uuid));
    let t = model::invite_result_step(s, Some(uuid), msg, code, sdp_ip, cnonce);
    assert(t == model::answered_step(s, uuid, msg, sdp_ip));
    let d = model::answered(s, uuid, msg, sdp_ip);
    let a = s.with_dialog(uuid, d);
    assert(a.dialogs[uuid] == d);
    let ack = model::ack_2xx_step(a, uuid);
    assert(ack.state.dialogs[uuid] == d);
    let bye = model::teardown_step(ack.state, uuid, false);
    assert(bye.state.dialogs.contains_key(uuid));
    assert(t.actions =~= ack.actions + bye.actions + seq![ActionModel::CloseMedia(uuid)]);
    assert(ack.actions.len() == 1 && bye.actions.len() == 1);
    assert(model::dialog_peer(ack.state, d) == s.remote);
}

/// Any final response ends a cancelled call; a provisional one changes nothing.
pub proof fn law_final_response_ends_a_cancelled_call(
    s: EntityModel,
    uuid: u128,
    msg: MessageModel,
    code: u16,
    sdp_ip: Option<IpAddr>,
    cnonce: Text,
)
    requires
        is_cancelled(s, uuid),
    ensures
        200 <= code <= 699 ==> !model::invite_result_step(
            s,
            Some(uuid),
            msg,
            code,
            sdp_ip,
            cnonce,
        ).state.dialogs.contains_key(uuid),
        code < 200 ==> model::invite_result_step(s, Some(uuid), msg, code, sdp_ip, cnonce)
            == s.stay(),
{
}

/// CMCE hears nothing more of a call that is cancelled, whatever SIP message comes for it.
pub proof fn law_cancelled_calls_are_silent(
    s: EntityModel,
    msg: MessageModel,
    at: ArrivalModel,
    uuid: u128,
    cnonce: Text,
)
    requires
        is_cancelled(s, uuid),
    ensures
        silent(model::message_step(s, msg, at, Some(uuid), cnonce).0.actions),
{
}

// ---------------------------------------------------------------------------------------------
// Authentication

/// The challenge to an INVITE is acknowledged in the INVITE's own transaction, before the
/// sequence number moves on; the INVITE that answers it is a transaction of its own, with the
/// next sequence number.
pub proof fn law_challenge_is_acknowledged_first(
    s: EntityModel,
    uuid: u128,
    msg: MessageModel,
    code: u16,
    sdp_ip: Option<IpAddr>,
    cnonce: Text,
)
    requires
        s.inv(),
        s.dialogs.contains_key(uuid),
        s.dialogs[uuid].state != DialogState::Cancelling,
        !s.dialogs[uuid].auth_retry_sent,
        digest::challenge_of(msg) is Some,
        code == 401 || code == 407,
    ensures
        ({
            let d = s.dialogs[uuid];
            let t = model::invite_result_step(s, Some(uuid), msg, code, sdp_ip, cnonce);
            let e = t.state.dialogs[uuid];
            &&& t.state.dialogs.contains_key(uuid)
            &&& e.auth == digest::challenge_of(msg)
            &&& e.auth_retry_sent
            &&& e.cseq == d.cseq + 1
            &&& e.invite_branch == s.fresh_branch()
            &&& t.actions == model::ack_non_2xx_step(
                s,
                uuid,
                msg,
                model::about("ACK auth"@, uuid),
            ).actions + seq![
                ActionModel::SendSip {
                    payload: request::invite_text(
                        s.config,
                        dialog::snapshot(DialogModel { cseq: e.cseq, ..d }),
                        s.fresh_branch(),
                        d.rtp.local_port,
                        e.auth,
                        cnonce,
                    ),
                    dest: s.remote,
                    summary: model::about("INVITE"@, uuid),
                },
            ]
        }),
{
    assert(s.dialogs[uuid].inv(uuid));
}

/// A call is tried with an answer to a challenge once: a second challenge is acknowledged, and
/// nothing else comes of it.
pub proof fn law_one_retry(
    s: EntityModel,
    uuid: u128,
    msg: MessageModel,
    code: u16,
    sdp_ip: Option<IpAddr>,
    cnonce: Text,
)
    requires
        s.dialogs.contains_key(uuid),
        s.dialogs[uuid].state != DialogState::Cancelling,
        s.dialogs[uuid].auth_retry_sent,
        code == 401 || code == 407,
    ensures
        model::invite_result_step(s, Some(uuid), msg, code, sdp_ip, cnonce)
            == model::ack_non_2xx_step(s, uuid, msg, model::about("ACK auth"@, uuid)),
        model::invite_result_step(s, Some(uuid), msg, code, sdp_ip, cnonce).state == s,
{
}

// ---------------------------------------------------------------------------------------------
// Calls from the network

/// Whether an action answers a request with that status, at the place that it came from.
pub open spec fn answers(s: EntityModel, a: ActionModel, ctx: ContextModel, code: u16, reason: Text)
    -> bool {
    a == ActionModel::SendSip {
        payload: request::response_text(
            s.config,
            ctx,
            code,
            reason,
            Some("flowstation"@),
            Seq::empty(),
            Seq::empty(),
        ),
        dest: ctx.addr,
        summary: model::status(code, reason),
    }
}

/// Whether a status refuses an INVITE.
pub open spec fn refuses(code: u16, reason: Text) -> bool {
    ||| (code == 503 && reason == "Service Unavailable"@)
    ||| (code == 486 && reason == "Busy Here"@)
    ||| (code == 404 && reason == "Not Found"@)
    ||| (code == 488 && reason == "Not Acceptable Here"@)
}

/// An INVITE that can be answered is either offered to be put through, and then nothing is sent
/// yet, or refused with one response to where it came from. Either way no call changes.
pub proof fn law_every_invite_is_answered(
    s: EntityModel,
    msg: MessageModel,
    at: ArrivalModel,
    duplicate: bool,
)
    requires
        fields::context_of(msg, at.addr) is Some,
    ensures
        ({
            let (t, offer) = model::inbound_step(s, msg, at, duplicate);
            let ctx = fields::context_of(msg, at.addr)->0;
            &&& t.state == (EntityModel { invite_rate: t.state.invite_rate, ..s })
            &&& offer is Some ==> t.actions.len() == 0 && offer->0.ctx == ctx
            &&& offer is None ==> t.actions.len() == 1 && exists|code: u16, reason: Text|
                #[trigger] refuses(code, reason) && answers(s, t.actions[0], ctx, code, reason)
        }),
{
    let s1 = model::invite_counted(s, at.addr.ip, at.now);
    assert(refuses(503, "Service Unavailable"@));
    assert(refuses(486, "Busy Here"@));
    assert(refuses(404, "Not Found"@));
    assert(refuses(488, "Not Acceptable Here"@));
    assert(s1.config == s.config);
}

/// An offered call is put through or refused: with an RTP port and a codec the peer hears that
/// it is tried and CMCE that it is there, and without either the peer hears that it is refused
/// and CMCE nothing.
pub proof fn law_offers_are_settled(
    s: EntityModel,
    offer: model::OfferModel,
    port: Result<u16, Text>,
    codec: bool,
    uuid: u128,
)
    ensures
        ({
            let t = model::accept_inbound_step(s, offer, port, codec, uuid);
            if port is Ok && codec {
                &&& t.state.dialogs == s.dialogs.insert(
                    uuid,
                    model::inbound_dialog(s.config, offer, port->Ok_0, uuid),
                )
                &&& t.actions.len() == 2
                &&& t.actions[0] matches ActionModel::SendSip { dest, .. } && dest == offer.ctx.addr
                &&& t.actions[1] == model::told(
                    ControlModel::SetupRequest {
                        brew_uuid: uuid,
                        call: model::inbound_call(offer),
                    },
                )
            } else {
                &&& t.state.dialogs == s.dialogs
                &&& silent(t.actions)
                &&& t.actions.len() == 2
                &&& t.actions[0] is Report
                &&& answers(s, t.actions[1], offer.ctx, 503, "Service Unavailable"@)
            }
        }),
{
}

/// A source that has used up its INVITEs for the minute is refused, and offered nothing.
pub proof fn law_rate_limit(
    s: EntityModel,
    msg: MessageModel,
    at: ArrivalModel,
    duplicate: bool,
)
    requires
        s.config.max_invites_per_minute > 0,
        s.invite_rate.contains_key(at.addr.ip),
        tables::elapsed(at.now, s.invite_rate[at.addr.ip].0) < 60 * tables::SECOND,
        s.invite_rate[at.addr.ip].1 >= s.config.max_invites_per_minute,
        s.config.max_invites_per_minute < u32::MAX,
    ensures
        model::inbound_step(s, msg, at, duplicate).1 is None,
        fields::context_of(msg, at.addr) matches Some(ctx) ==> answers(
            s,
            model::inbound_step(s, msg, at, duplicate).0.actions[0],
            ctx,
            503,
            "Service Unavailable"@,
        ),
{
}

/// With as many calls pending as are allowed, no further INVITE is offered.
pub proof fn law_pending_limit(
    s: EntityModel,
    msg: MessageModel,
    at: ArrivalModel,
    duplicate: bool,
)
    requires
        model::pending(s).len() >= s.config.max_pending_dialogs,
    ensures
        model::inbound_step(s, msg, at, duplicate).1 is None,
{
    let s1 = model::invite_counted(s, at.addr.ip, at.now);
    assert(model::pending(s1) =~= model::pending(s));
}

/// Whether no two calls have the same Call-ID, in whatever case these are written.
pub open spec fn distinct_call_ids(s: EntityModel) -> bool {
    forall|u: u128, v: u128| #[trigger]
        s.dialogs.contains_key(u) && #[trigger] s.dialogs.contains_key(v) && u != v
            ==> !text::same_ignoring_case(
            s.dialogs[u].call_id_header,
            s.dialogs[v].call_id_header,
        )
}

/// What becomes of the bridge when an INVITE arrives and, if it is offered, is settled under
/// `uuid`.
pub open spec fn after_invite(
    s: EntityModel,
    msg: MessageModel,
    at: ArrivalModel,
    found: Option<u128>,
    port: Result<u16, Text>,
    codec: bool,
    uuid: u128,
) -> EntityModel {
    let (t, offer) = model::inbound_step(s, msg, at, found is Some);
    match offer {
        Some(offer) => model::accept_inbound_step(t.state, offer, port, codec, uuid).state,
        None => t.state,
    }
}

/// An INVITE, whether it is put through or not, leaves every call as it is but the one that it is
/// put through under, keeps Call-IDs distinct, and never brings the pending calls above the limit,
/// beyond what they were.
pub proof fn law_invites_keep_the_calls_in_order(
    s: EntityModel,
    msg: MessageModel,
    at: ArrivalModel,
    found: Option<u128>,
    port: Result<u16, Text>,
    codec: bool,
    uuid: u128,
)
    requires
        s.inv(),
        distinct_call_ids(s),
        model::located(s, msg.call_id(), found),
    ensures
        ({
            let t = after_invite(s, msg, at, found, port, codec, uuid);
            &&& distinct_call_ids(t)
            &&& model::pending(t).len() <= model::pending(s).len() || model::pending(t).len()
                <= s.config.max_pending_dialogs
            &&& forall|u: u128|
                u != uuid ==> (#[trigger] t.dialogs.contains_key(u) <==> s.dialogs.contains_key(u))
            &&& forall|u: u128|
                u != uuid && #[trigger] s.dialogs.contains_key(u) ==> t.dialogs[u]
                    == s.dialogs[u]
        }),
{
    let (a, offer) = model::inbound_step(s, msg, at, found is Some);
    let t = after_invite(s, msg, at, found, port, codec, uuid);
    let s1 = model::invite_counted(s, at.addr.ip, at.now);
    assert(model::pending(s1) =~= model::pending(s));
    assert(a.state.dialogs == s.dialogs);
    if offer is Some && port is Ok && codec {
        let d = model::inbound_dialog(s.config, offer->0, port->Ok_0, uuid);
        assert(t.dialogs == s.dialogs.insert(uuid, d));
        assert(msg.call_id() == Some(d.call_id_header));
        assert forall|u: u128, v: u128| #[trigger]
            t.dialogs.contains_key(u) && #[trigger] t.dialogs.contains_key(v) && u
                != v implies !text::same_ignoring_case(
            t.dialogs[u].call_id_header,
            t.dialogs[v].call_id_header,
        ) by {
            assert(u == uuid || s.dialogs.contains_key(u));
            assert(v == uuid || s.dialogs.contains_key(v));
        }
        assert(model::pending(t) =~= model::pending(s).insert(uuid));
        assert(model::pending(s).subset_of(s.dialogs.dom()));
        vstd::set_lib::lemma_len_subset(model::pending(s), s.dialogs.dom());
    } else {
        assert(t.dialogs == s.dialogs);
        assert(model::pending(t) =~= model::pending(s));
    }
}

/// What goes out in a call that came in goes to where its INVITE came from.
pub proof fn law_inbound_calls_answer_their_source(s: EntityModel, uuid: u128, now: u64)
    requires
        s.inv(),
        s.dialogs.contains_key(uuid),
        s.dialogs[uuid].inbound,
    ensures
        ({
            let t = model::release_step(s, uuid, true, now);
            let ctx = s.dialogs[uuid].request_context->0;
            &&& t.actions.len() == 2
            &&& t.actions[0] matches ActionModel::SendSip { dest, .. } && dest == ctx.addr
            &&& t.actions[1] == ActionModel::CloseMedia(uuid)
        }),
{
    assert(s.dialogs[uuid].inv(uuid));
}

// ---------------------------------------------------------------------------------------------
// The end of calls

/// A dialog that is forgotten leaves nothing behind: neither itself nor its timeslot, and its
/// RTP port is closed. The other dialogs stay as they are.
pub proof fn law_forgotten_calls_leave_nothing(s: EntityModel, uuid: u128)
    requires
        s.dialogs.contains_key(uuid),
    ensures
        ({
            let t = model::drop_step(s, uuid);
            &&& t.state.dialogs == s.dialogs.remove(uuid)
            &&& s.dialogs[uuid].media_ready matches Some((_, carrier_num, ts))
                ==> model::uplink_target(t.state, carrier_num, ts) is None
            &&& t.actions == seq![ActionModel::CloseMedia(uuid)]
        }),
{
}

/// Where the station ends a call, the peer hears of it in exactly one message, and only a call
/// that is cancelled by it is still remembered.
pub proof fn law_released_calls_are_told(s: EntityModel, uuid: u128, now: u64)
    requires
        s.inv(),
        s.dialogs.contains_key(uuid),
    ensures
        ({
            let d = s.dialogs[uuid];
            let t = model::release_step(s, uuid, true, now);
            &&& silent(t.actions)
            &&& t.actions.len() >= 1
            &&& t.actions[0] matches ActionModel::SendSip { dest, .. } && dest
                == model::dialog_peer(s, d)
            &&& forall|i: int| 1 <= i < t.actions.len() ==> !(#[trigger] t.actions[i] is SendSip)
            &&& t.state.dialogs.contains_key(uuid) <==> !d.inbound && d.state
                != DialogState::Established
        }),
{
    assert(s.dialogs[uuid].inv(uuid));
}

/// Where the peer hangs up or cancels, it is answered, CMCE hears of it unless the station had
/// ended the call before, and the call is forgotten.
pub proof fn law_hangup_ends_the_call(
    s: EntityModel,
    msg: MessageModel,
    addr: SocketAddr,
    uuid: u128,
)
    requires
        s.dialogs.contains_key(uuid),
        fields::context_of(msg, addr) is Some,
    ensures
        ({
            let t = model::hangup_step(s, msg, addr, Some(uuid));
            let told = model::told(
                ControlModel::Release { brew_uuid: uuid, cause: 16 },
            );
            &&& t.state.dialogs == s.dialogs.remove(uuid)
            &&& answers(s, t.actions[0], fields::context_of(msg, addr)->0, 200, "OK"@)
            &&& t.actions.skip(1) == if is_cancelled(s, uuid) {
                seq![ActionModel::CloseMedia(uuid)]
            } else {
                seq![told, ActionModel::CloseMedia(uuid)]
            }
        }),
{
    let t = model::hangup_step(s, msg, addr, Some(uuid));
    let told = model::told(ControlModel::Release { brew_uuid: uuid, cause: 16 });
    if is_cancelled(s, uuid) {
        assert(t.actions.skip(1) =~= seq![ActionModel::CloseMedia(uuid)]);
    } else {
        assert(t.actions.skip(1) =~= seq![told, ActionModel::CloseMedia(uuid)]);
    }
}

// ---------------------------------------------------------------------------------------------
// Calls from radios

/// A call from a radio is placed or rejected: with an RTP port and a codec CMCE hears that it is
/// accepted and then the INVITE goes to the server, in a transaction that the dialog remembers;
/// without either CMCE hears that it is rejected and nothing is sent.
pub proof fn law_radio_calls_are_settled(
    s: EntityModel,
    uuid: u128,
    call: CallModel,
    number: Text,
    port: Result<u16, Text>,
    codec: bool,
)
    ensures
        ({
            let t = model::place_outbound_step(s, uuid, call, number, port, codec);
            &&& t.actions.len() == 2
            &&& if port is Ok && codec {
                &&& t.state.dialogs.contains_key(uuid)
                &&& t.state.dialogs[uuid].invite_branch == s.fresh_branch()
                &&& t.state.dialogs[uuid].state == DialogState::Inviting
                &&& t.actions[0] == model::told(
                    ControlModel::SetupAccept { brew_uuid: uuid },
                )
                &&& t.actions[1] matches ActionModel::SendSip { dest, .. } && dest == s.remote
            } else {
                &&& t.state.dialogs == s.dialogs
                &&& t.actions[0] is Report
                &&& t.actions[1] == model::told(
                    ControlModel::SetupReject { brew_uuid: uuid, cause: 34 },
                )
            }
        }),
{
}

// ---------------------------------------------------------------------------------------------
// Audio

/// Once its circuit is up, the voice of a timeslot goes to the peer of its call.
pub proof fn law_voice_goes_to_the_call(
    s: EntityModel,
    uuid: u128,
    call_id: u16,
    carrier_num: u16,
    ts: u8,
)
    requires
        s.dialogs.contains_key(uuid),
    ensures
        model::uplink_target(
            model::media_ready_step(s, uuid, call_id, carrier_num, ts).state,
            carrier_num,
            ts,
        ) == (match s.dialogs[uuid].rtp.remote {
            Some(remote) => Some((uuid, remote)),
            None => None::<(u128, SocketAddr)>,
        }),
{
}

/// Whether a host is the one that a call exchanges audio with.
pub open spec fn negotiated(d: DialogModel, ip: IpAddr) -> bool {
    d.rtp.remote matches Some(remote) && remote.ip == ip
}

/// Only the host that was negotiated is heard in a call: a packet from anywhere else is not
/// taken and changes nothing, so no stranger can turn the audio of a call to itself.
pub proof fn law_strangers_are_not_heard(
    s: EntityModel,
    uuid: u128,
    payload_type: u8,
    from: SocketAddr,
)
    requires
        s.dialogs.contains_key(uuid) ==> !negotiated(s.dialogs[uuid], from.ip),
    ensures
        model::audio_step(s, uuid, payload_type, from) == (s, false),
{
}

/// Whatever audio comes, the host that a call exchanges audio with stays the same.
pub proof fn law_audio_keeps_the_host(
    s: EntityModel,
    uuid: u128,
    payload_type: u8,
    from: SocketAddr,
    u: u128,
)
    requires
        s.dialogs.contains_key(u),
    ensures
        ({
            let t = model::audio_step(s, uuid, payload_type, from).0;
            &&& t.dialogs.contains_key(u)
            &&& s.dialogs[u].rtp.remote is Some <==> t.dialogs[u].rtp.remote is Some
            &&& s.dialogs[u].rtp.remote matches Some(a) ==> t.dialogs[u].rtp.remote->0.ip == a.ip
        }),
{
}

} // verus!

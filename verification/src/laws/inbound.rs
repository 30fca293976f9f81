//! What becomes of a call from the network to a radio: which INVITEs are put through and which
//! are refused, and what the caller hears of what the radio does.
use vstd::prelude::*;
use crate::config::CfgAsterisk;
use crate::dialog::{DialogModel, DialogState, RtpSession};
use crate::fields;
use crate::fields::ContextModel;
use crate::ident;
use crate::laws::offers;
use crate::laws::outbound;
use crate::laws::peers;
use crate::laws::reading;
use crate::media;
use crate::model;
use crate::model::{ArrivalModel, EntityModel, FollowUpModel, OfferModel};
use crate::net::SocketAddr;
use crate::request;
use crate::signal::{ActionModel, BodyModel, CallModel, CallTimeout, ControlModel};
use crate::sip::MessageModel;
use crate::text;
use crate::text::Text;
use crate::wire;

verus! {

// ---------------------------------------------------------------------------------------------
// Which calls are put through

/// Whether a request has the headers that its responses repeat, and `ctx` holds them and where
/// the request came from.
pub open spec fn has_context(msg: MessageModel, at: ArrivalModel, ctx: ContextModel) -> bool {
    &&& msg.header("Via"@) == Some(ctx.via)
    &&& msg.header("From"@) == Some(ctx.from)
    &&& msg.header("To"@) == Some(ctx.to)
    &&& msg.header("Call-ID"@) == Some(ctx.call_id)
    &&& msg.header("CSeq"@) == Some(ctx.cseq)
    &&& ctx.addr == at.addr
}

/// The window in which the INVITEs of the sender of a message are counted, with this message:
/// when it began, and how many have come since. It lasts a minute.
pub open spec fn window(s: EntityModel, at: ArrivalModel) -> (u64, u32) {
    let ip = at.addr.ip;
    if s.invite_rate.contains_key(ip) && at.now < s.invite_rate[ip].0 + 60_000_000_000 {
        let (since, n) = s.invite_rate[ip];
        (
            since,
            if n < u32::MAX {
                (n + 1) as u32
            } else {
                n
            },
        )
    } else {
        (at.now, 1)
    }
}

/// The calls that wait for an answer.
pub open spec fn waiting(s: EntityModel) -> Set<u128> {
    Set::new(
        |u: u128|
            s.dialogs.contains_key(u) && (s.dialogs[u].state == DialogState::Inviting
                || s.dialogs[u].state == DialogState::Ringing),
    )
}

/// The status that an INVITE is refused with, if it is: where its sender has sent too many within
/// a minute, where too many calls wait for an answer already, where it is for no radio, where
/// there is a call with its Call-ID, or where it gives no port for audio.
pub open spec fn refusal(
    s: EntityModel,
    msg: MessageModel,
    at: ArrivalModel,
    found: Option<u128>,
) -> Option<u16> {
    let limit = s.config.max_invites_per_minute;
    if limit > 0 && window(s, at).1 > limit {
        Some(503)
    } else if waiting(s).len() >= s.config.max_pending_dialogs {
        Some(486)
    } else if fields::destination_issi(msg, text::trimmed(s.config.inbound_prefix@)) is None {
        Some(404)
    } else if found is Some {
        Some(486)
    } else if media::sdp_port(msg.body) is None {
        Some(488)
    } else {
        None
    }
}

/// An INVITE with all the headers that a response needs is either refused, with one response to
/// where it came from, or offered to be put through, to the radio that it names and with the
/// audio peer that its session description gives. It is counted either way, and no call changes.
pub proof fn law_invites_are_offered_or_refused(
    s: EntityModel,
    msg: MessageModel,
    at: ArrivalModel,
    found: Option<u128>,
    cnonce: Text,
    ctx: ContextModel,
)
    requires
        msg.method() == Some("INVITE"@),
        has_context(msg, at, ctx),
    ensures
        ({
            let (t, offer) = model::message_step(s, msg, at, found, cnonce);
            let code = refusal(s, msg, at, found);
            &&& t.state == (EntityModel { invite_rate: t.state.invite_rate, ..s })
            &&& t.state.invite_rate == if s.config.max_invites_per_minute == 0 {
                s.invite_rate
            } else {
                s.invite_rate.insert(at.addr.ip, window(s, at))
            }
            &&& code is Some ==> {
                &&& offer is None
                &&& t.actions.len() == 1
                &&& outbound::sends(t.actions[0], at.addr, peers::status_line(code->0))
                &&& peers::reads_as_response(
                    t.actions[0]->payload,
                    s.config,
                    ctx,
                    code->0,
                    peers::reason_of(code->0),
                    Some("flowstation"@),
                    None,
                )
            }
            &&& code is None ==> {
                &&& t.actions.len() == 0
                &&& offer == Some(
                    OfferModel {
                        ctx,
                        destination: fields::destination_issi(
                            msg,
                            text::trimmed(s.config.inbound_prefix@),
                        )->0 as u32,
                        remote_rtp: outbound::audio_peer(msg, at, s.remote.ip, None)->0,
                        caller: fields::caller_number(msg),
                        remote_tag: fields::to_tag(msg.header("From"@)),
                        remote_target: fields::contact_uri(msg.header("Contact"@)),
                    },
                )
            }
        }),
{
    let s1 = model::invite_counted(s, at.addr.ip, at.now);
    assert(model::pending(s1) =~= waiting(s));
    assert(fields::context_of(msg, at.addr) == Some(ctx));
    lemma_refused(s, ctx, 503, "Service Unavailable"@);
    lemma_refused(s, ctx, 486, "Busy Here"@);
    lemma_refused(s, ctx, 404, "Not Found"@);
    lemma_refused(s, ctx, 488, "Not Acceptable Here"@);
}

/// A refusal is read as such.
pub(crate) proof fn lemma_refused(s: EntityModel, ctx: ContextModel, code: u16, reason: Text)
    requires
        reason == peers::reason_of(code),
    ensures
        ({
            let a = request::response_text(
                s.config,
                ctx,
                code,
                reason,
                Some("flowstation"@),
                Seq::empty(),
                Seq::empty(),
            );
            peers::reads_as_response(
                a,
                s.config,
                ctx,
                code,
                reason,
                Some("flowstation"@),
                None,
            )
        }),
{
    lemma_reasons();
    peers::law_responses_are_understood(
        s.config,
        ctx,
        code,
        reason,
        Some("flowstation"@),
        None,
    );
}

/// The reasons of responses lie within one line.
pub(crate) proof fn lemma_reasons()
    ensures
        wire::one_line("Service Unavailable"@),
        wire::one_line("Busy Here"@),
        wire::one_line("Not Found"@),
        wire::one_line("Not Acceptable Here"@),
        wire::one_line("Temporarily Unavailable"@),
        wire::one_line("Not Implemented"@),
        wire::one_line("OK"@),
        wire::one_line("Ringing"@),
        wire::one_line("Trying"@),
        wire::one_line("flowstation"@),
{
    reveal_strlit("Service Unavailable");
    reveal_strlit("Busy Here");
    reveal_strlit("Not Found");
    reveal_strlit("Not Acceptable Here");
    reveal_strlit("Temporarily Unavailable");
    reveal_strlit("Not Implemented");
    reveal_strlit("OK");
    reveal_strlit("Ringing");
    reveal_strlit("Trying");
    reveal_strlit("flowstation");
}

/// An INVITE without one of the headers that a response needs cannot be answered: it has no
/// consequence, and is not even counted.
pub proof fn law_unanswerable_invites_are_ignored(
    s: EntityModel,
    msg: MessageModel,
    at: ArrivalModel,
    found: Option<u128>,
    cnonce: Text,
)
    requires
        msg.method() == Some("INVITE"@),
        msg.header("Via"@) is None || msg.header("From"@) is None || msg.header("To"@) is None
            || msg.header("Call-ID"@) is None || msg.header("CSeq"@) is None,
    ensures
        ({
            let (t, offer) = model::message_step(s, msg, at, found, cnonce);
            t.state == s && t.actions.len() == 0 && offer is None
        }),
{
}

/// Whether a dialog is that of a call from the network which was just put through.
pub open spec fn put_through(
    cfg: CfgAsterisk,
    d: DialogModel,
    offer: OfferModel,
    port: u16,
    uuid: u128,
) -> bool {
    &&& d.uuid == uuid
    &&& d.call == called(offer)
    &&& d.number == offer.caller
    &&& d.call_id_header == offer.ctx.call_id
    &&& d.local_uri == peers::sip_address(cfg.local_user@, cfg.from_domain@)
    &&& d.local_tag == "flow"@ + ident::uuid_text(uuid).take(8)
    &&& d.remote_tag == offer.remote_tag
    &&& d.remote_target == offer.remote_target
    &&& d.cseq == 1
    &&& d.invite_branch.len() == 0
    &&& d.auth is None && !d.auth_retry_sent
    &&& d.state == DialogState::Inviting
    &&& d.rtp == (RtpSession {
        local_port: port,
        remote: Some(offer.remote_rtp),
        last_tx: None,
    })
    &&& d.media_ready is None
    &&& d.inbound
    &&& d.request_context == Some(offer.ctx)
    &&& d.released_at is None
}

/// The call that a radio gets: from the caller's number, both ways, without a time-out.
pub open spec fn called(offer: OfferModel) -> CallModel {
    CallModel {
        source_issi: 0,
        destination: offer.destination,
        number: offer.caller,
        priority: 0,
        service: 0,
        mode: 0,
        duplex: 1,
        method: 0,
        communication: 0,
        grant: 0,
        permission: 0,
        timeout: CallTimeout::Infinite,
        ownership: 0,
        queued: 0,
    }
}

/// With an RTP port and a codec an offered call is put through: the caller hears that it is tried,
/// and CMCE is asked to set the call up to the radio, from the caller's number.
pub proof fn law_offered_calls_are_put_through(
    s: EntityModel,
    offer: OfferModel,
    port: u16,
    uuid: u128,
)
    ensures
        ({
            let t = model::accept_inbound_step(s, offer, Ok(port), true, uuid);
            let e = t.state.dialogs[uuid];
            &&& t.state == (EntityModel {
                dialogs: s.dialogs.insert(uuid, e),
                next_rtp_port: t.state.next_rtp_port,
                ..s
            })
            &&& port == s.config.rtp_port_max || port < u16::MAX ==> t.state.next_rtp_port
                == if port == s.config.rtp_port_max {
                s.config.rtp_port_min as int
            } else {
                port + 1
            }
            &&& put_through(s.config, e, offer, port, uuid)
            &&& t.actions.len() == 2
            &&& outbound::sends(
                t.actions[0],
                offer.ctx.addr,
                outbound::of_call("100 Trying"@, uuid),
            )
            &&& peers::reads_as_response(
                t.actions[0]->payload,
                s.config,
                offer.ctx,
                100,
                "Trying"@,
                None,
                None,
            )
            &&& outbound::tells(
                t.actions[1],
                ControlModel::SetupRequest { brew_uuid: uuid, call: called(offer) },
            )
        }),
{
    lemma_reasons();
    peers::law_responses_are_understood(s.config, offer.ctx, 100, "Trying"@, None, None);
    let t = model::accept_inbound_step(s, offer, Ok(port), true, uuid);
    assert(t.state.dialogs =~= s.dialogs.insert(uuid, t.state.dialogs[uuid]));
}

/// Without an RTP port or a codec an offered call is refused: the caller hears that the service is
/// unavailable, CMCE hears nothing, and no call changes.
pub proof fn law_offers_without_audio_are_refused(
    s: EntityModel,
    offer: OfferModel,
    port: Result<u16, Text>,
    codec: bool,
    uuid: u128,
)
    requires
        port is Err || !codec,
    ensures
        ({
            let t = model::accept_inbound_step(s, offer, port, codec, uuid);
            &&& t.state == (EntityModel { next_rtp_port: t.state.next_rtp_port, ..s })
            &&& port is Err ==> t.state == s
            &&& port is Ok && (port->Ok_0 == s.config.rtp_port_max || port->Ok_0 < u16::MAX)
                ==> t.state.next_rtp_port == if port->Ok_0 == s.config.rtp_port_max {
                s.config.rtp_port_min as int
            } else {
                port->Ok_0 + 1
            }
            &&& t.actions.len() == 2
            &&& t.actions[0] == ActionModel::Report(
                match port {
                    Err(err) => "RTP allocation failed for inbound INVITE to "@ + text::decimal(
                        offer.destination as nat,
                    ) + ": "@ + err,
                    Ok(_) => "TETRA codec allocation failed for inbound Asterisk call"@,
                },
            )
            &&& outbound::sends(t.actions[1], offer.ctx.addr, peers::status_line(503))
            &&& peers::reads_as_response(
                t.actions[1]->payload,
                s.config,
                offer.ctx,
                503,
                "Service Unavailable"@,
                Some("flowstation"@),
                None,
            )
        }),
{
    lemma_refused(s, offer.ctx, 503, "Service Unavailable"@);
}

/// A call from the network that is put through is heard at both ends: once its circuit is up, the
/// voice of its timeslot goes to the address and port that the session description of its INVITE
/// gave, and audio from that address, from any port, is taken.
pub proof fn law_put_through_calls_are_heard(
    s: EntityModel,
    offer: OfferModel,
    port: u16,
    uuid: u128,
    circuit: (u16, u16, u8),
    now: u64,
    voice: Seq<u8>,
    from: SocketAddr,
)
    ensures
        ({
            let (call_id, carrier_num, ts) = circuit;
            let a = model::accept_inbound_step(s, offer, Ok(port), true, uuid).state;
            let b = model::station_step(
                a,
                BodyModel::Control(
                    ControlModel::MediaReady { brew_uuid: uuid, call_id, carrier_num, ts },
                ),
                now,
            ).0.state;
            let (c, rest) = model::station_step(
                b,
                BodyModel::Uplink { carrier_num, ts, data: voice },
                now,
            );
            &&& rest == FollowUpModel::Voice { uuid, remote: offer.remote_rtp, ts, data: voice }
            &&& c.state == b && c.actions.len() == 0
            &&& from.ip == offer.remote_rtp.ip ==> model::audio_step(b, uuid, 0, from).1
        }),
{
}

// ---------------------------------------------------------------------------------------------
// What the caller hears of the radio

/// Whether an action answers the INVITE of a call from the network, with that status.
pub open spec fn answers_caller(
    a: ActionModel,
    s: EntityModel,
    d: DialogModel,
    code: u16,
    sdp: Option<Text>,
) -> bool {
    &&& outbound::sends(
        a,
        d.request_context->0.addr,
        outbound::of_call(peers::status_line(code), d.uuid),
    )
    &&& peers::reads_as_response(
        a->payload,
        s.config,
        d.request_context->0,
        code,
        peers::reason_of(code),
        Some(d.local_tag),
        sdp,
    )
}

/// The answer to the INVITE of a call from the network is read as such.
proof fn lemma_answers_caller(
    s: EntityModel,
    uuid: u128,
    code: u16,
    reason: Text,
    sdp: Option<Text>,
)
    requires
        s.dialogs.contains_key(uuid),
        s.dialogs[uuid].inv(uuid),
        model::named(s.config, s.dialogs[uuid]),
        s.dialogs[uuid].inbound,
        reason == peers::reason_of(code),
    ensures
        ({
            let t = model::invite_response_step(s, uuid, code, reason, sdp);
            &&& t.state == s
            &&& t.actions.len() == 1
            &&& answers_caller(t.actions[0], s, s.dialogs[uuid], code, sdp)
        }),
{
    let d = s.dialogs[uuid];
    lemma_reasons();
    peers::lemma_plain_uuid(uuid);
    peers::law_responses_are_understood(
        s.config,
        d.request_context->0,
        code,
        reason,
        Some(d.local_tag),
        sdp,
    );
}

/// Where the station ends a call from the network before it has answered it, ringing or not, the
/// caller's INVITE is refused with one response, which says that the radio is temporarily
/// unavailable; nothing else is sent, and the call is forgotten.
pub proof fn law_unanswered_callers_are_refused(
    s: EntityModel,
    uuid: u128,
    cause: u8,
    now: u64,
)
    requires
        s.inv(),
        s.dialogs.contains_key(uuid),
        s.dialogs[uuid].inbound,
        s.dialogs[uuid].state != DialogState::Established,
    ensures
        ({
            let (t, rest) = model::station_step(
                s,
                BodyModel::Control(ControlModel::Release { brew_uuid: uuid, cause }),
                now,
            );
            &&& rest is Done
            &&& outbound::forgotten(s, t.state, uuid, s.branch_counter)
            &&& t.actions.len() == 2
            &&& answers_caller(t.actions[0], s, s.dialogs[uuid], 480, None)
            &&& t.actions[1] == ActionModel::CloseMedia(uuid)
        }),
{
    assert(s.dialogs[uuid].inv(uuid));
    lemma_reasons();
    lemma_answers_caller(s, uuid, 480, "Temporarily Unavailable"@, None);
}

/// Where CMCE rejects a call from the network, the caller hears why: that the radio is busy, not
/// there, that the service is unavailable, or else that the radio is; the call is then forgotten.
/// The rejection of any other call has no consequence.
pub proof fn law_rejections_are_passed_on(s: EntityModel, uuid: u128, cause: u8, now: u64)
    requires
        s.inv(),
    ensures
        ({
            let (t, rest) = model::station_step(
                s,
                BodyModel::Control(ControlModel::SetupReject { brew_uuid: uuid, cause }),
                now,
            );
            let code: u16 = if cause == 2 {
                486
            } else if cause == 3 {
                404
            } else if cause == 5 {
                503
            } else {
                480
            };
            &&& rest is Done
            &&& if s.dialogs.contains_key(uuid) && s.dialogs[uuid].inbound {
                &&& outbound::forgotten(s, t.state, uuid, s.branch_counter)
                &&& t.actions.len() == 2
                &&& answers_caller(t.actions[0], s, s.dialogs[uuid], code, None)
                &&& t.actions[1] == ActionModel::CloseMedia(uuid)
            } else {
                t.state == s && t.actions.len() == 0
            }
        }),
{
    if s.dialogs.contains_key(uuid) && s.dialogs[uuid].inbound {
        assert(s.dialogs[uuid].inv(uuid));
        lemma_reasons();
        let (code, reason) = model::reject_status(cause);
        lemma_answers_caller(s, uuid, code, reason, None);
    }
}

/// Where the radio of a call from the network rings, the caller hears so. That the radio of any
/// other call rings has no consequence.
pub proof fn law_callers_hear_ringing(s: EntityModel, uuid: u128, now: u64)
    requires
        s.inv(),
    ensures
        ({
            let (t, rest) = model::station_step(
                s,
                BodyModel::Control(ControlModel::Alert { brew_uuid: uuid }),
                now,
            );
            let d = s.dialogs[uuid];
            &&& rest is Done
            &&& if s.dialogs.contains_key(uuid) && d.inbound {
                &&& t.state == (EntityModel {
                    dialogs: s.dialogs.insert(
                        uuid,
                        DialogModel { state: DialogState::Ringing, ..d },
                    ),
                    ..s
                })
                &&& t.actions.len() == 1
                &&& answers_caller(t.actions[0], s, d, 180, None)
            } else {
                t.state == s && t.actions.len() == 0
            }
        }),
{
    if s.dialogs.contains_key(uuid) && s.dialogs[uuid].inbound {
        let d = s.dialogs[uuid];
        assert(d.inv(uuid));
        lemma_reasons();
        let s1 = s.with_dialog(uuid, DialogModel { state: DialogState::Ringing, ..d });
        lemma_answers_caller(s1, uuid, 180, "Ringing"@, None);
    }
}

/// Where the radio of a call from the network answers, the caller hears so, with an offer of audio
/// at the port of the call, CMCE hears that the call is through, and the call is established with
/// what CMCE says of it. That the radio of any other call answers has no consequence.
pub proof fn law_callers_hear_answers(s: EntityModel, uuid: u128, call: CallModel, now: u64)
    requires
        s.inv(),
    ensures
        ({
            let (t, rest) = model::station_step(
                s,
                BodyModel::Control(ControlModel::ConnectRequest { brew_uuid: uuid, call }),
                now,
            );
            let d = s.dialogs[uuid];
            &&& rest is Done
            &&& if s.dialogs.contains_key(uuid) && d.inbound {
                &&& t.state == (EntityModel {
                    dialogs: s.dialogs.insert(
                        uuid,
                        DialogModel { state: DialogState::Established, call, ..d },
                    ),
                    ..s
                })
                &&& t.actions.len() == 2
                &&& exists|sdp: Text| #[trigger]
                    answers_caller(t.actions[0], s, d, 200, Some(sdp)) && (reading::is_word(
                        s.config.contact_host@,
                    ) ==> offers::offers_audio(sdp, s.config, d.rtp.local_port)
                        && offers::offers_audio(
                        text::unix_lines(sdp),
                        s.config,
                        d.rtp.local_port,
                    ))
                &&& outbound::tells(
                    t.actions[1],
                    ControlModel::ConnectConfirm { brew_uuid: uuid, grant: 0, permission: 0 },
                )
            } else {
                t.state == s && t.actions.len() == 0
            }
        }),
{
    if s.dialogs.contains_key(uuid) && s.dialogs[uuid].inbound {
        let d = s.dialogs[uuid];
        assert(d.inv(uuid));
        lemma_reasons();
        let s1 = s.with_dialog(
            uuid,
            DialogModel { state: DialogState::Established, call, ..d },
        );
        let sdp = request::sdp_text(s.config, d.rtp.local_port);
        lemma_answers_caller(s1, uuid, 200, "OK"@, Some(sdp));
        let t = model::connect_request_step(s, uuid, call);
        assert(answers_caller(t.actions[0], s, d, 200, Some(sdp)));
        if reading::is_word(s.config.contact_host@) {
            offers::law_own_offer_is_complete(s.config, d.rtp.local_port);
        }
    }
}

// ---------------------------------------------------------------------------------------------
// Responses on their own

/// Whatever the status, a response to the INVITE of a call from the network goes to where the
/// INVITE came from, with the tag of the call and the session description that it is given. For
/// any other call there is nothing to answer.
pub proof fn law_invites_of_callers_are_answered(
    s: EntityModel,
    uuid: u128,
    code: u16,
    reason: Text,
    sdp: Option<Text>,
)
    requires
        s.inv(),
        wire::one_line(reason),
    ensures
        ({
            let t = model::invite_response_step(s, uuid, code, reason, sdp);
            let d = s.dialogs[uuid];
            &&& t.state == s
            &&& if s.dialogs.contains_key(uuid) && d.inbound {
                &&& t.actions.len() == 1
                &&& outbound::sends(
                    t.actions[0],
                    d.request_context->0.addr,
                    outbound::of_call(text::decimal(code as nat) + " "@ + reason, uuid),
                )
                &&& peers::reads_as_response(
                    t.actions[0]->payload,
                    s.config,
                    d.request_context->0,
                    code,
                    reason,
                    Some(d.local_tag),
                    sdp,
                )
            } else {
                t.actions.len() == 0
            }
        }),
{
    if s.dialogs.contains_key(uuid) {
        let d = s.dialogs[uuid];
        assert(d.inv(uuid));
        if d.inbound {
            peers::lemma_plain_uuid(uuid);
            peers::law_responses_are_understood(
                s.config,
                d.request_context->0,
                code,
                reason,
                Some(d.local_tag),
                sdp,
            );
        }
    }
}

/// Whatever the status, a request that has the headers for it is answered where it came from, with
/// a tag of the bridge unless it is only being tried; a request without them is not answered.
pub proof fn law_any_request_can_be_answered(
    s: EntityModel,
    msg: MessageModel,
    at: ArrivalModel,
    code: u16,
    reason: Text,
    ctx: ContextModel,
)
    requires
        wire::one_line(reason),
    ensures
        ({
            let t = model::answer_step(s, msg, at.addr, code, reason);
            &&& t.state == s
            &&& has_context(msg, at, ctx) ==> {
                &&& t.actions.len() == 1
                &&& outbound::sends(
                    t.actions[0],
                    at.addr,
                    text::decimal(code as nat) + " "@ + reason,
                )
                &&& peers::reads_as_response(
                    t.actions[0]->payload,
                    s.config,
                    ctx,
                    code,
                    reason,
                    if code == 100 {
                        None
                    } else {
                        Some("flowstation"@)
                    },
                    None,
                )
            }
            &&& msg.header("Via"@) is None || msg.header("From"@) is None || msg.header(
                "To"@,
            ) is None || msg.header("Call-ID"@) is None || msg.header("CSeq"@) is None
                ==> t.actions.len() == 0
        }),
{
    lemma_reasons();
    let tag = if code == 100 {
        None
    } else {
        Some("flowstation"@)
    };
    if has_context(msg, at, ctx) {
        assert(fields::context_of(msg, at.addr) == Some(ctx));
        peers::law_responses_are_understood(s.config, ctx, code, reason, tag, None);
    }
}

/// A call is from the network if the bridge knows it as such.
pub proof fn law_calls_from_the_network_are_known(s: EntityModel, uuid: u128)
    ensures
        model::is_inbound(s, uuid) <==> s.dialogs.contains_key(uuid) && s.dialogs[uuid].inbound,
{
}

} // verus!

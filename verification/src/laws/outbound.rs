//! What becomes of a call from a radio to the network: it is placed or rejected, and every
//! response to its INVITE has the consequence that it should have, at the peer and at the station.
use vstd::prelude::*;
use crate::dialog;
use crate::dialog::{DialogModel, DialogState, RtpSession};
use crate::digest;
use crate::fields;
use crate::ident;
use crate::laws::authentication;
use crate::laws::peers;
use crate::media;
use crate::model;
use crate::model::{ArrivalModel, EntityModel, FollowUpModel};
use crate::net::{IpAddr, SocketAddr};
use crate::request;
use crate::signal::{
    ActionModel, BodyModel, CallModel, ControlModel, Sap, SapModel, TetraEntity,
};
use crate::sip::MessageModel;
use crate::text;
use crate::text::Text;
use crate::wire;

verus! {

// ---------------------------------------------------------------------------------------------
// Actions

/// Whether an action tells CMCE something.
pub open spec fn tells(a: ActionModel, control: ControlModel) -> bool {
    a == ActionModel::Enqueue(
        SapModel {
            sap: Sap::Control,
            src: TetraEntity::Asterisk,
            dest: TetraEntity::Cmce,
            msg: BodyModel::Control(control),
        },
    )
}

/// Whether an action sends a datagram to `dest`, and has it logged as `summary`.
pub open spec fn sends(a: ActionModel, dest: SocketAddr, summary: Text) -> bool {
    a is SendSip && a->dest == dest && a->summary == summary
}

/// How a message about a call is logged.
pub open spec fn of_call(what: Text, uuid: u128) -> Text {
    what + " "@ + ident::uuid_text(uuid)
}

/// The number of the transaction after the one with that number.
pub open spec fn counted_on(n: u64) -> u64 {
    if n < u64::MAX {
        (n + 1) as u64
    } else {
        0
    }
}

/// Whether a message is the response with that status to an INVITE.
pub open spec fn answers_invite(msg: MessageModel, code: u16) -> bool {
    &&& msg.method() is None
    &&& msg.status_code() == Some(code as nat)
    &&& msg.cseq_method() == Some("INVITE"@)
}

/// Where a message asks for audio: at the address and port of its session description, at the
/// server if that gives a port alone, and as before if it gives no port.
pub open spec fn audio_peer(
    msg: MessageModel,
    at: ArrivalModel,
    server: IpAddr,
    before: Option<SocketAddr>,
) -> Option<SocketAddr> {
    match media::sdp_port(msg.body) {
        Some(port) => Some(
            SocketAddr {
                ip: match at.sdp_ip {
                    Some(ip) => ip,
                    None => server,
                },
                port: port as u16,
                flowinfo: 0,
                scope_id: 0,
            },
        ),
        None => before,
    }
}

/// Whether `after` is `before` without the timeslot that a call held.
pub open spec fn gives_back(
    before: Map<(u16, u8), u128>,
    after: Map<(u16, u8), u128>,
    held: Option<(u16, u16, u8)>,
) -> bool {
    forall|slot: (u16, u8)| #![trigger after.contains_key(slot)]
        {
            let kept = before.contains_key(slot) && !(held matches Some((_, carrier_num, ts))
                && slot == (carrier_num, ts));
            &&& after.contains_key(slot) <==> kept
            &&& kept ==> after[slot] == before[slot]
        }
}

/// Whether nothing is left of a call in `t` but what it had in common with the others: the call
/// is gone, its timeslot is given back, and all else is as in `s`, up to the number of the next
/// transaction.
pub open spec fn forgotten(s: EntityModel, t: EntityModel, uuid: u128, counter: u64) -> bool {
    &&& t == (EntityModel {
        dialogs: s.dialogs.remove(uuid),
        rtp_by_ts: t.rtp_by_ts,
        branch_counter: counter,
        ..s
    })
    &&& gives_back(s.rtp_by_ts, t.rtp_by_ts, s.dialogs[uuid].media_ready)
}

// ---------------------------------------------------------------------------------------------
// Placing a call

/// Where a radio calls a number, an RTP port and a codec are to be found for the call to that
/// number, without the white space around it; where it calls none, CMCE hears at once that the
/// call is rejected. Nothing else happens.
pub proof fn law_calls_of_radios_are_taken_up(
    s: EntityModel,
    uuid: u128,
    call: CallModel,
    now: u64,
)
    ensures
        ({
            let (t, rest) = model::station_step(
                s,
                BodyModel::Control(ControlModel::SetupRequest { brew_uuid: uuid, call }),
                now,
            );
            let number = text::trimmed(call.number);
            &&& t.state == s
            &&& if number.len() > 0 {
                &&& t.actions.len() == 0
                &&& rest == FollowUpModel::Place { uuid, call, number }
            } else {
                &&& t.actions.len() == 2
                &&& t.actions[0] == ActionModel::Report(
                    "empty Asterisk destination for uuid="@ + ident::uuid_text(uuid),
                )
                &&& tells(t.actions[1], ControlModel::SetupReject { brew_uuid: uuid, cause: 34 })
                &&& rest is Done
            }
        }),
{
}

/// A call from a radio is placed: CMCE hears that it is accepted, and the server gets an INVITE
/// for the number, from the radio, with an offer of audio at the port that was opened. The call
/// is then known under its UUID, waits for an answer, and has no audio peer yet.
pub proof fn law_calls_are_placed(
    s: EntityModel,
    uuid: u128,
    call: CallModel,
    number: Text,
    port: u16,
)
    ensures
        ({
            let t = model::place_outbound_step(s, uuid, call, number, Ok(port), true);
            let e = t.state.dialogs[uuid];
            let branch = request::branch(s.branch_counter);
            &&& t.state == (EntityModel {
                dialogs: s.dialogs.insert(uuid, e),
                branch_counter: counted_on(s.branch_counter),
                next_rtp_port: t.state.next_rtp_port,
                ..s
            })
            &&& e.uuid == uuid && e.call == call && e.number == number
            &&& e.state == DialogState::Inviting && !e.inbound && e.request_context is None
            &&& e.rtp == (RtpSession { local_port: port, remote: None, last_tx: None })
            &&& e.call_id_header == "flow-"@ + ident::uuid_text(uuid) + "@"@
                + s.config.contact_host@
            &&& e.local_uri == peers::sip_address(
                s.config.local_user@,
                s.config.from_domain@,
            )
            &&& e.local_tag == "flow"@ + ident::uuid_text(uuid).take(8)
            &&& e.cseq == 1 && e.invite_branch == branch
            &&& e.remote_tag is None && e.remote_target is None && e.media_ready is None
            &&& e.auth is None && !e.auth_retry_sent && e.released_at is None
            &&& t.actions.len() == 2
            &&& tells(t.actions[0], ControlModel::SetupAccept { brew_uuid: uuid })
            &&& sends(t.actions[1], s.remote, of_call("INVITE"@, uuid))
            &&& peers::plain_settings(s.config) && wire::one_line(number)
                ==> peers::reads_as_invite(
                t.actions[1]->payload,
                s.config,
                e,
                branch,
                Seq::empty(),
            )
        }),
{
    let t = model::place_outbound_step(s, uuid, call, number, Ok(port), true);
    let e = t.state.dialogs[uuid];
    let branch = request::branch(s.branch_counter);
    assert(t.state.dialogs =~= s.dialogs.insert(uuid, e));
    if peers::plain_settings(s.config) && wire::one_line(number) {
        peers::law_branches_carry_the_cookie(s.branch_counter);
        peers::lemma_plain_uuid(uuid);
        peers::lemma_plain_call_id("flow-"@, uuid, s.config);
        peers::lemma_plain_uris(s.config, number);
        peers::law_invites_are_understood(s.config, e, branch, Seq::empty());
        reveal(request::invite_text);
    }
}

/// Without an RTP port or a codec a call from a radio is rejected: CMCE hears so, nothing is sent,
/// and no call changes.
pub proof fn law_calls_without_audio_are_rejected(
    s: EntityModel,
    uuid: u128,
    call: CallModel,
    number: Text,
    port: Result<u16, Text>,
    codec: bool,
)
    requires
        port is Err || !codec,
    ensures
        ({
            let t = model::place_outbound_step(s, uuid, call, number, port, codec);
            &&& t.state == (EntityModel { next_rtp_port: t.state.next_rtp_port, ..s })
            &&& port is Err ==> t.state == s
            &&& t.actions.len() == 2
            &&& t.actions[0] == ActionModel::Report(
                match port {
                    Err(err) => "RTP allocation failed for uuid="@ + ident::uuid_text(uuid) + ": "@
                        + err,
                    Ok(_) => "TETRA codec allocation failed for uuid="@ + ident::uuid_text(uuid),
                },
            )
            &&& tells(t.actions[1], ControlModel::SetupReject { brew_uuid: uuid, cause: 34 })
        }),
{
}

/// The next call tries the port after the one that was taken, and the least one after the
/// greatest.
pub proof fn law_taken_ports_move_on(
    s: EntityModel,
    uuid: u128,
    call: CallModel,
    number: Text,
    port: u16,
    codec: bool,
)
    requires
        port == s.config.rtp_port_max || port < u16::MAX,
    ensures
        ({
            let next = model::place_outbound_step(
                s,
                uuid,
                call,
                number,
                Ok(port),
                codec,
            ).state.next_rtp_port;
            next == if port == s.config.rtp_port_max {
                s.config.rtp_port_min as int
            } else {
                port + 1
            }
        }),
{
}

// ---------------------------------------------------------------------------------------------
// Responses

/// A response to an INVITE is handled as such.
pub(crate) proof fn lemma_dispatch(
    s: EntityModel,
    found: Option<u128>,
    msg: MessageModel,
    code: u16,
    at: ArrivalModel,
    cnonce: Text,
)
    requires
        answers_invite(msg, code),
    ensures
        model::message_step(s, msg, at, found, cnonce) == (
            model::invite_result_step(s, found, msg, code, at.sdp_ip, cnonce),
            None::<model::OfferModel>,
        ),
{
    reveal_strlit("INVITE");
    reveal_strlit("REGISTER");
    reveal_strlit("OPTIONS");
    assert("INVITE"@[0] == 'I' && "REGISTER"@[0] == 'R' && "OPTIONS"@[0] == 'O');
}

/// Where the peer rings, CMCE hears of it and nothing is sent; where it has early media, the audio
/// peer of the call is the address that its session description gives.
pub proof fn law_ringing_is_passed_on(
    s: EntityModel,
    uuid: u128,
    msg: MessageModel,
    code: u16,
    at: ArrivalModel,
    cnonce: Text,
)
    requires
        s.dialogs.contains_key(uuid),
        s.dialogs[uuid].state != DialogState::Cancelling,
        answers_invite(msg, code),
        code == 180 || code == 183,
    ensures
        ({
            let (t, offer) = model::message_step(s, msg, at, Some(uuid), cnonce);
            let d = s.dialogs[uuid];
            let audio = audio_peer(msg, at, s.remote.ip, d.rtp.remote);
            &&& offer is None
            &&& t.state == (EntityModel {
                dialogs: s.dialogs.insert(
                    uuid,
                    DialogModel {
                        state: DialogState::Ringing,
                        remote_tag: fields::to_tag(msg.header("To"@)),
                        rtp: RtpSession { remote: audio, ..d.rtp },
                        ..d
                    },
                ),
                ..s
            })
            &&& t.actions.len() == 1
            &&& tells(t.actions[0], ControlModel::Alert { brew_uuid: uuid })
        }),
{
    lemma_dispatch(s, Some(uuid), msg, code, at, cnonce);
}

/// The dialog that an answer makes of a call: established, with the tag and the contact of the
/// answer, and with the audio peer that its session description gives.
pub open spec fn taken_up(
    s: EntityModel,
    d: DialogModel,
    msg: MessageModel,
    at: ArrivalModel,
) -> DialogModel {
    let target = fields::contact_uri(msg.header("Contact"@));
    DialogModel {
        state: DialogState::Established,
        remote_tag: fields::to_tag(msg.header("To"@)),
        remote_target: if target is Some {
            target
        } else {
            d.remote_target
        },
        rtp: RtpSession { remote: audio_peer(msg, at, s.remote.ip, d.rtp.remote), ..d.rtp },
        ..d
    }
}

/// Where the peer answers, its answer is acknowledged in a transaction of its own and CMCE is
/// told to connect the call; from then on the call is established and its audio peer is the
/// address and port that the session description of the answer gives.
pub proof fn law_answers_connect_the_call(
    s: EntityModel,
    uuid: u128,
    msg: MessageModel,
    code: u16,
    at: ArrivalModel,
    cnonce: Text,
)
    requires
        s.dialogs.contains_key(uuid),
        s.dialogs[uuid].state != DialogState::Cancelling,
        answers_invite(msg, code),
        200 <= code <= 299,
    ensures
        ({
            let (t, offer) = model::message_step(s, msg, at, Some(uuid), cnonce);
            let d = s.dialogs[uuid];
            let e = taken_up(s, d, msg, at);
            &&& offer is None
            &&& t.state == (EntityModel {
                dialogs: s.dialogs.insert(uuid, e),
                branch_counter: counted_on(s.branch_counter),
                ..s
            })
            &&& t.actions.len() == 2
            &&& sends(t.actions[0], s.remote, of_call("ACK"@, uuid))
            &&& peers::plain_settings(s.config) && peers::plain_dialog(e) ==> peers::reads_as_ack(
                t.actions[0]->payload,
                s.config,
                e,
                peers::target_of(s.config, e),
                request::branch(s.branch_counter),
                e.remote_tag,
            )
            &&& tells(
                t.actions[1],
                ControlModel::ConnectRequest {
                    brew_uuid: uuid,
                    call: CallModel { grant: 0, permission: 0, ..d.call },
                },
            )
        }),
{
    lemma_dispatch(s, Some(uuid), msg, code, at, cnonce);
    let t = model::message_step(s, msg, at, Some(uuid), cnonce).0;
    let e = taken_up(s, s.dialogs[uuid], msg, at);
    assert(model::answered(s, uuid, msg, at.sdp_ip) == e);
    assert(t.state.dialogs =~= s.dialogs.insert(uuid, e));
    if peers::plain_settings(s.config) && peers::plain_dialog(e) {
        lemma_ack_2xx(s, e);
    }
}

/// The ACK of an answer is read as such.
proof fn lemma_ack_2xx(s: EntityModel, e: DialogModel)
    requires
        peers::plain_settings(s.config),
        peers::plain_dialog(e),
    ensures
        peers::reads_as_ack(
            request::ack_2xx_text(
                s.config,
                dialog::snapshot(e),
                request::branch(s.branch_counter),
                e.cseq,
            ),
            s.config,
            e,
            peers::target_of(s.config, e),
            request::branch(s.branch_counter),
            e.remote_tag,
        ),
{
    let shot = dialog::snapshot(e);
    peers::law_branches_carry_the_cookie(s.branch_counter);
    peers::lemma_plain_uris(s.config, e.number);
    peers::law_acks_are_understood(
        s.config,
        e,
        peers::target_of(s.config, e),
        request::branch(s.branch_counter),
        e.remote_tag,
    );
    assert((dialog::SnapshotModel { remote_tag: e.remote_tag, ..shot }) == shot);
}

/// A call that is answered is heard at both ends: once its circuit is up, the voice of its
/// timeslot goes to the address and port that the session description of the answer gave, and
/// audio from that address, from any port, is taken.
pub proof fn law_answered_calls_are_heard(
    s: EntityModel,
    uuid: u128,
    msg: MessageModel,
    code: u16,
    at: ArrivalModel,
    cnonce: Text,
    circuit: (u16, u16, u8),
    now: u64,
    voice: Seq<u8>,
    from: SocketAddr,
)
    requires
        s.dialogs.contains_key(uuid),
        s.dialogs[uuid].state != DialogState::Cancelling,
        answers_invite(msg, code),
        200 <= code <= 299,
        media::sdp_port(msg.body) is Some,
    ensures
        ({
            let ip = match at.sdp_ip {
                Some(ip) => ip,
                None => s.remote.ip,
            };
            let port = media::sdp_port(msg.body)->0 as u16;
            let (call_id, carrier_num, ts) = circuit;
            let a = model::message_step(s, msg, at, Some(uuid), cnonce).0.state;
            let b = model::station_step(
                a,
                BodyModel::Control(
                    ControlModel::MediaReady { brew_uuid: uuid, call_id, carrier_num, ts },
                ),
                now,
            ).0.state;
            let (c, rest) = model::station_step(
                b,
                BodyModel::Uplink { carrier_num, ts, data: voice },
                now,
            );
            &&& rest == FollowUpModel::Voice {
                uuid,
                remote: SocketAddr { ip, port, flowinfo: 0, scope_id: 0 },
                ts,
                data: voice,
            }
            &&& c.state == b && c.actions.len() == 0
            &&& from.ip == ip ==> model::audio_step(b, uuid, 0, from).1
        }),
{
    lemma_dispatch(s, Some(uuid), msg, code, at, cnonce);
}

/// The tag that the ACK of a failure repeats: that of the response, or the one known before.
pub open spec fn failure_tag(d: DialogModel, msg: MessageModel) -> Option<Text> {
    match fields::to_tag(msg.header("To"@)) {
        Some(tag) => Some(tag),
        None => d.remote_tag,
    }
}

/// Whether a datagram acknowledges a response that ended the INVITE of a call: in the INVITE's
/// own transaction, to the server.
pub open spec fn acknowledges(
    a: ActionModel,
    s: EntityModel,
    d: DialogModel,
    msg: MessageModel,
    summary: Text,
) -> bool {
    &&& sends(a, s.remote, summary)
    &&& peers::plain_settings(s.config) && peers::plain_dialog(d) && (
    failure_tag(d, msg) matches Some(tag) ==> wire::one_line(tag)) ==> peers::reads_as_ack(
        a->payload,
        s.config,
        d,
        peers::sip_address(d.number, s.config.remote_host@),
        d.invite_branch,
        failure_tag(d, msg),
    )
}

/// A final response that ended the INVITE of a call is acknowledged in the INVITE's own
/// transaction.
pub proof fn law_failures_are_acknowledged(
    s: EntityModel,
    uuid: u128,
    msg: MessageModel,
    summary: Text,
)
    requires
        s.dialogs.contains_key(uuid),
    ensures
        model::ack_non_2xx_step(s, uuid, msg, summary).state == s,
        model::ack_non_2xx_step(s, uuid, msg, summary).actions.len() == 1,
        acknowledges(
            model::ack_non_2xx_step(s, uuid, msg, summary).actions[0],
            s,
            s.dialogs[uuid],
            msg,
            summary,
        ),
{
    let d = s.dialogs[uuid];
    let tag = failure_tag(d, msg);
    if peers::plain_settings(s.config) && peers::plain_dialog(d) && (tag matches Some(t)
        ==> wire::one_line(t)) {
        peers::lemma_plain_uris(s.config, d.number);
        peers::law_acks_are_understood(
            s.config,
            d,
            peers::sip_address(d.number, s.config.remote_host@),
            d.invite_branch,
            tag,
        );
    }
}

/// Where a call fails, with whatever status, the response is acknowledged, CMCE hears exactly
/// once that the call is released, and the call is forgotten: no call that the station knows of
/// disappears without the station hearing of it.
pub proof fn law_failures_release_the_call(
    s: EntityModel,
    uuid: u128,
    msg: MessageModel,
    code: u16,
    at: ArrivalModel,
    cnonce: Text,
)
    requires
        s.dialogs.contains_key(uuid),
        s.dialogs[uuid].state != DialogState::Cancelling,
        answers_invite(msg, code),
        300 <= code <= 699,
        code != 401,
        code != 407,
    ensures
        ({
            let (t, offer) = model::message_step(s, msg, at, Some(uuid), cnonce);
            &&& offer is None
            &&& forgotten(s, t.state, uuid, s.branch_counter)
            &&& t.actions.len() == 4
            &&& acknowledges(
                t.actions[0],
                s,
                s.dialogs[uuid],
                msg,
                of_call("ACK failure"@, uuid),
            )
            &&& t.actions[1] == ActionModel::Report(
                "INVITE uuid="@ + ident::uuid_text(uuid) + " failed with SIP "@ + text::decimal(
                    code as nat,
                ),
            )
            &&& tells(t.actions[2], ControlModel::Release { brew_uuid: uuid, cause: 34 })
            &&& t.actions[3] == ActionModel::CloseMedia(uuid)
        }),
{
    lemma_dispatch(s, Some(uuid), msg, code, at, cnonce);
    law_failures_are_acknowledged(s, uuid, msg, model::about("ACK failure"@, uuid));
}

/// Where the server asks for the password for the first time, its response is acknowledged and
/// the INVITE is sent once more, in a new transaction with the next sequence number, with an
/// answer that proves the password. CMCE hears nothing: the call goes on.
pub proof fn law_challenges_are_answered_once(
    s: EntityModel,
    uuid: u128,
    msg: MessageModel,
    code: u16,
    at: ArrivalModel,
    cnonce: Text,
)
    requires
        s.inv(),
        s.dialogs.contains_key(uuid),
        s.dialogs[uuid].state != DialogState::Cancelling,
        answers_invite(msg, code),
        code == 401 || code == 407,
    ensures
        ({
            let (t, offer) = model::message_step(s, msg, at, Some(uuid), cnonce);
            let d = s.dialogs[uuid];
            let challenge = digest::challenge_of(msg);
            let branch = request::branch(s.branch_counter);
            let e = DialogModel {
                auth: challenge,
                auth_retry_sent: true,
                cseq: 2,
                invite_branch: branch,
                ..d
            };
            &&& offer is None
            &&& t.actions.len() >= 1
            &&& acknowledges(t.actions[0], s, d, msg, of_call("ACK auth"@, uuid))
            &&& if challenge is Some && !d.auth_retry_sent {
                &&& t.state == (EntityModel {
                    dialogs: s.dialogs.insert(uuid, e),
                    branch_counter: counted_on(s.branch_counter),
                    ..s
                })
                &&& t.actions.len() == 2
                &&& sends(t.actions[1], s.remote, of_call("INVITE"@, uuid))
                &&& peers::plain_settings(s.config) && peers::plain_dialog(d)
                    && authentication::plain_challenge(s.config, challenge->0, cnonce)
                    ==> peers::reads_as_invite(t.actions[1]->payload, s.config, e, branch, cnonce)
            } else {
                &&& t.state == s
                &&& t.actions.len() == 1
            }
        }),
{
    lemma_dispatch(s, Some(uuid), msg, code, at, cnonce);
    let t = model::message_step(s, msg, at, Some(uuid), cnonce).0;
    let d = s.dialogs[uuid];
    let challenge = digest::challenge_of(msg);
    let branch = request::branch(s.branch_counter);
    assert(d.inv(uuid));
    law_failures_are_acknowledged(s, uuid, msg, model::about("ACK auth"@, uuid));
    if challenge is Some && !d.auth_retry_sent {
        let e = DialogModel {
            auth: challenge,
            auth_retry_sent: true,
            cseq: 2,
            invite_branch: branch,
            ..d
        };
        assert(t.state.dialogs =~= s.dialogs.insert(uuid, e));
        if peers::plain_settings(s.config) && peers::plain_dialog(d)
            && authentication::plain_challenge(s.config, challenge->0, cnonce) {
            peers::law_branches_carry_the_cookie(s.branch_counter);
            peers::law_invites_are_understood(s.config, e, branch, cnonce);
            reveal(request::invite_text);
        }
    }
}

/// Any other response to an INVITE changes nothing and has no consequence.
pub proof fn law_other_responses_are_ignored(
    s: EntityModel,
    uuid: u128,
    msg: MessageModel,
    code: u16,
    at: ArrivalModel,
    cnonce: Text,
)
    requires
        answers_invite(msg, code),
        code < 180 || 181 <= code <= 182 || 184 <= code <= 199 || code >= 700,
    ensures
        model::message_step(s, msg, at, Some(uuid), cnonce).0.state == s,
        model::message_step(s, msg, at, Some(uuid), cnonce).0.actions.len() == 0,
        model::message_step(s, msg, at, Some(uuid), cnonce).1 is None,
{
    lemma_dispatch(s, Some(uuid), msg, code, at, cnonce);
}

// ---------------------------------------------------------------------------------------------
// Hanging up

/// Where the station ends a call to the network before it is answered, a CANCEL that matches the
/// INVITE goes to the server, and the call waits for its final response without its timeslot.
pub proof fn law_unanswered_calls_are_cancelled(
    s: EntityModel,
    uuid: u128,
    cause: u8,
    now: u64,
)
    requires
        s.inv(),
        s.dialogs.contains_key(uuid),
        !s.dialogs[uuid].inbound,
        s.dialogs[uuid].state != DialogState::Established,
    ensures
        ({
            let (t, rest) = model::station_step(
                s,
                BodyModel::Control(ControlModel::Release { brew_uuid: uuid, cause }),
                now,
            );
            let d = s.dialogs[uuid];
            &&& rest is Done
            &&& t.state == (EntityModel {
                dialogs: s.dialogs.insert(
                    uuid,
                    DialogModel {
                        state: DialogState::Cancelling,
                        released_at: Some(now),
                        media_ready: None,
                        ..d
                    },
                ),
                rtp_by_ts: t.state.rtp_by_ts,
                branch_counter: counted_on(s.branch_counter),
                ..s
            })
            &&& gives_back(s.rtp_by_ts, t.state.rtp_by_ts, d.media_ready)
            &&& t.actions.len() == 1
            &&& sends(t.actions[0], s.remote, of_call("CANCEL"@, uuid))
            &&& peers::plain_settings(s.config) && peers::plain_dialog(d)
                ==> peers::reads_as_cancel(t.actions[0]->payload, s.config, d)
        }),
{
    let d = s.dialogs[uuid];
    assert(d.inv(uuid));
    if peers::plain_settings(s.config) && peers::plain_dialog(d) {
        peers::law_cancels_are_understood(s.config, d, s.fresh_branch());
    }
}

/// Where the station ends a call that is answered, whoever began it, a BYE goes to the peer and
/// the call is forgotten.
pub proof fn law_answered_calls_are_hung_up(
    s: EntityModel,
    uuid: u128,
    cause: u8,
    now: u64,
)
    requires
        s.dialogs.contains_key(uuid),
        s.dialogs[uuid].state == DialogState::Established,
    ensures
        ({
            let (t, rest) = model::station_step(
                s,
                BodyModel::Control(ControlModel::Release { brew_uuid: uuid, cause }),
                now,
            );
            let d = s.dialogs[uuid];
            &&& rest is Done
            &&& forgotten(s, t.state, uuid, counted_on(s.branch_counter))
            &&& t.actions.len() == 2
            &&& sends(
                t.actions[0],
                match d.request_context {
                    Some(ctx) => ctx.addr,
                    None => s.remote,
                },
                of_call("BYE"@, uuid),
            )
            &&& peers::plain_settings(s.config) && peers::plain_dialog(d) ==> peers::reads_as_bye(
                t.actions[0]->payload,
                s.config,
                d,
                request::branch(s.branch_counter),
            )
            &&& t.actions[1] == ActionModel::CloseMedia(uuid)
        }),
{
    let d = s.dialogs[uuid];
    if peers::plain_settings(s.config) && peers::plain_dialog(d) {
        peers::law_branches_carry_the_cookie(s.branch_counter);
        peers::law_byes_are_understood(s.config, d, request::branch(s.branch_counter));
    }
}

/// The end of a call that the bridge does not know has no consequence.
pub proof fn law_unknown_calls_end_without_consequence(
    s: EntityModel,
    uuid: u128,
    cause: u8,
    now: u64,
)
    requires
        !s.dialogs.contains_key(uuid),
    ensures
        ({
            let (t, rest) = model::station_step(
                s,
                BodyModel::Control(ControlModel::Release { brew_uuid: uuid, cause }),
                now,
            );
            t.state == s && t.actions.len() == 0 && rest is Done
        }),
{
}

/// A call that is cancelled is closed by whatever final response comes: an answer is acknowledged
/// and hung up at once, any other response is acknowledged; then the call is forgotten. CMCE hears
/// nothing, and ringing changes nothing.
pub proof fn law_cancelled_calls_are_closed(
    s: EntityModel,
    uuid: u128,
    msg: MessageModel,
    code: u16,
    at: ArrivalModel,
    cnonce: Text,
)
    requires
        s.inv(),
        s.dialogs.contains_key(uuid),
        s.dialogs[uuid].state == DialogState::Cancelling,
        answers_invite(msg, code),
    ensures
        ({
            let (t, offer) = model::message_step(s, msg, at, Some(uuid), cnonce);
            let d = s.dialogs[uuid];
            let e = DialogModel { state: d.state, ..taken_up(s, d, msg, at) };
            let next = counted_on(s.branch_counter);
            &&& offer is None
            &&& code < 200 || code >= 700 ==> t.state == s && t.actions.len() == 0
            &&& 200 <= code <= 299 ==> {
                &&& forgotten(s, t.state, uuid, counted_on(next))
                &&& t.actions.len() == 3
                &&& sends(t.actions[0], s.remote, of_call("ACK"@, uuid))
                &&& sends(t.actions[1], s.remote, of_call("BYE"@, uuid))
                &&& peers::plain_settings(s.config) && peers::plain_dialog(e) ==> {
                    &&& peers::reads_as_ack(
                        t.actions[0]->payload,
                        s.config,
                        e,
                        peers::target_of(s.config, e),
                        request::branch(s.branch_counter),
                        e.remote_tag,
                    )
                    &&& peers::reads_as_bye(
                        t.actions[1]->payload,
                        s.config,
                        e,
                        request::branch(next),
                    )
                }
                &&& t.actions[2] == ActionModel::CloseMedia(uuid)
            }
            &&& 300 <= code <= 699 ==> {
                &&& forgotten(s, t.state, uuid, s.branch_counter)
                &&& t.actions.len() == 2
                &&& acknowledges(
                    t.actions[0],
                    s,
                    d,
                    msg,
                    of_call(
                        if code == 401 || code == 407 {
                            "ACK auth"@
                        } else {
                            "ACK failure"@
                        },
                        uuid,
                    ),
                )
                &&& t.actions[1] == ActionModel::CloseMedia(uuid)
            }
        }),
{
    lemma_dispatch(s, Some(uuid), msg, code, at, cnonce);
    let t = model::message_step(s, msg, at, Some(uuid), cnonce).0;
    let d = s.dialogs[uuid];
    assert(d.inv(uuid));
    if 200 <= code <= 299 {
        let e = DialogModel { state: d.state, ..taken_up(s, d, msg, at) };
        assert(model::answered(s, uuid, msg, at.sdp_ip) == e);
        let a = s.with_dialog(uuid, e);
        assert(a.dialogs[uuid] == e);
        let ack = model::ack_2xx_step(a, uuid);
        let bye = model::teardown_step(ack.state, uuid, false);
        assert(ack.state.dialogs[uuid] == e);
        assert(t.actions =~= ack.actions + bye.actions + seq![ActionModel::CloseMedia(uuid)]);
        assert(t.state.dialogs =~= s.dialogs.remove(uuid));
        if peers::plain_settings(s.config) && peers::plain_dialog(e) {
            lemma_ack_2xx(s, e);
            let next = counted_on(s.branch_counter);
            peers::law_branches_carry_the_cookie(next);
            peers::law_byes_are_understood(s.config, e, request::branch(next));
        }
    } else if code == 401 || code == 407 {
        law_failures_are_acknowledged(s, uuid, msg, model::about("ACK auth"@, uuid));
    } else if 300 <= code <= 699 {
        law_failures_are_acknowledged(s, uuid, msg, model::about("ACK failure"@, uuid));
    }
}

// ---------------------------------------------------------------------------------------------
// Requests of calls

/// The INVITE of a call goes to the server, in a new transaction that the call remembers.
pub proof fn law_invites_go_to_the_server(s: EntityModel, uuid: u128, cnonce: Text)
    requires
        s.dialogs.contains_key(uuid),
    ensures
        ({
            let t = model::invite_step(s, uuid, cnonce);
            let d = s.dialogs[uuid];
            let branch = request::branch(s.branch_counter);
            &&& t.state == (EntityModel {
                dialogs: s.dialogs.insert(uuid, DialogModel { invite_branch: branch, ..d }),
                branch_counter: counted_on(s.branch_counter),
                ..s
            })
            &&& t.actions.len() == 1
            &&& sends(t.actions[0], s.remote, of_call("INVITE"@, uuid))
            &&& t.actions[0]->payload == model::invite_request(s, uuid, cnonce)
            &&& peers::plain_settings(s.config) && peers::plain_dialog(d) && (
            d.auth matches Some(c) ==> authentication::plain_challenge(s.config, c, cnonce))
                ==> peers::reads_as_invite(t.actions[0]->payload, s.config, d, branch, cnonce)
        }),
{
    let d = s.dialogs[uuid];
    if peers::plain_settings(s.config) && peers::plain_dialog(d) && (d.auth matches Some(c)
        ==> authentication::plain_challenge(s.config, c, cnonce)) {
        peers::law_branches_carry_the_cookie(s.branch_counter);
        peers::law_invites_are_understood(
            s.config,
            d,
            request::branch(s.branch_counter),
            cnonce,
        );
    }
}

/// The CANCEL or BYE of a call goes to whoever began the call if that came from the network, and
/// to the server otherwise. The call itself stays as it is.
pub proof fn law_teardowns_go_to_the_peer(s: EntityModel, uuid: u128, cancel: bool)
    requires
        s.dialogs.contains_key(uuid),
    ensures
        ({
            let t = model::teardown_step(s, uuid, cancel);
            let d = s.dialogs[uuid];
            let payload = t.actions[0]->payload;
            &&& t.state == (EntityModel { branch_counter: counted_on(s.branch_counter), ..s })
            &&& t.actions.len() == 1
            &&& sends(
                t.actions[0],
                match d.request_context {
                    Some(ctx) => ctx.addr,
                    None => s.remote,
                },
                of_call(
                    if cancel {
                        "CANCEL"@
                    } else {
                        "BYE"@
                    },
                    uuid,
                ),
            )
            &&& peers::plain_settings(s.config) && peers::plain_dialog(d) ==> {
                &&& cancel ==> peers::reads_as_cancel(payload, s.config, d)
                &&& !cancel ==> peers::reads_as_bye(
                    payload,
                    s.config,
                    d,
                    request::branch(s.branch_counter),
                )
            }
        }),
{
    let d = s.dialogs[uuid];
    if peers::plain_settings(s.config) && peers::plain_dialog(d) {
        peers::law_branches_carry_the_cookie(s.branch_counter);
        peers::law_cancels_are_understood(s.config, d, s.fresh_branch());
        peers::law_byes_are_understood(s.config, d, request::branch(s.branch_counter));
    }
}

/// A call that ends at the other side, in whatever state, is forgotten without a word, and its
/// port is closed.
pub proof fn law_ended_calls_are_forgotten(s: EntityModel, uuid: u128, now: u64)
    requires
        s.dialogs.contains_key(uuid),
    ensures
        ({
            let t = model::release_step(s, uuid, false, now);
            &&& forgotten(s, t.state, uuid, s.branch_counter)
            &&& t.actions.len() == 1
            &&& t.actions[0] == ActionModel::CloseMedia(uuid)
        }),
        ({
            let t = model::drop_step(s, uuid);
            &&& forgotten(s, t.state, uuid, s.branch_counter)
            &&& t.actions.len() == 1
            &&& t.actions[0] == ActionModel::CloseMedia(uuid)
        }),
{
}

/// Nothing is sent for a call that the bridge does not know, and nothing changes.
pub proof fn law_unknown_calls_send_nothing(
    s: EntityModel,
    uuid: u128,
    msg: MessageModel,
    code: u16,
    other: Text,
    at: ArrivalModel,
    flag: bool,
    now: u64,
)
    requires
        !s.dialogs.contains_key(uuid),
    ensures
        quiet(s, model::invite_step(s, uuid, other)),
        quiet(s, model::teardown_step(s, uuid, flag)),
        quiet(s, model::ack_non_2xx_step(s, uuid, msg, other)),
        quiet(s, model::invite_response_step(s, uuid, code, other, None)),
        quiet(s, model::drop_step(s, uuid)),
        quiet(s, model::release_step(s, uuid, flag, now)),
        quiet(s, model::invite_result_step(s, Some(uuid), msg, code, at.sdp_ip, other)),
        quiet(s, model::invite_result_step(s, None, msg, code, at.sdp_ip, other)),
{
}

/// Whether nothing happens.
pub open spec fn quiet(s: EntityModel, t: model::Step) -> bool {
    t.state == s && t.actions.len() == 0
}

} // verus!

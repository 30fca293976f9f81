//! What the bridge does outside of calls: it registers, answers requests, asks whether the server
//! is there, and keeps house as time passes.
use vstd::prelude::*;
use crate::config::CfgAsterisk;
use crate::dialog::DialogState;
use crate::digest;
use crate::fields::ContextModel;
use crate::ident;
use crate::laws::authentication;
use crate::laws::inbound;
use crate::laws::outbound;
use crate::laws::peers;
use crate::laws::time;
use crate::model;
use crate::model::{ArrivalModel, EntityModel};
use crate::net::{IpAddr, SocketAddr};
use crate::request;
use crate::signal::{ActionModel, ControlModel};
use crate::sip::MessageModel;
use crate::station;
use crate::text;
use crate::text::Text;
use crate::wire;

verus! {

// ---------------------------------------------------------------------------------------------
// The start

/// A bridge that has done nothing yet knows no calls, has counted nobody, and has neither
/// registered nor asked for the server.
pub proof fn law_bridges_start_afresh(
    cfg: CfgAsterisk,
    remote: SocketAddr,
    allowed: Seq<IpAddr>,
    id: u128,
)
    ensures
        ({
            let s = model::initial(cfg, remote, allowed, id);
            &&& s.config == cfg && s.remote == remote && s.allowed_peers == allowed
            &&& forall|u: u128| !(#[trigger] s.dialogs.contains_key(u))
            &&& forall|slot: (u16, u8)| !(#[trigger] s.rtp_by_ts.contains_key(slot))
            &&& forall|ip: IpAddr| !(#[trigger] s.invite_rate.contains_key(ip))
            &&& s.next_rtp_port == cfg.rtp_port_min
            &&& s.register_call_id == "flow-reg-"@ + ident::uuid_text(id) + "@"@
                + cfg.contact_host@
            &&& s.register_cseq == 1 && s.branch_counter == 1
            &&& s.register_auth is None && s.register_status == "not registered"@
            &&& s.last_register is None && s.last_options is None
            &&& s.last_rx is None && s.last_tx is None && s.last_error is None
        }),
{
}

/// Only the server and the hosts that are configured may speak SIP to the bridge, from any port.
pub proof fn law_only_known_hosts_may_speak(s: EntityModel, addr: SocketAddr)
    ensures
        model::peer_allowed(s, addr) <==> addr.ip == s.remote.ip || exists|i: int|
            0 <= i < s.allowed_peers.len() && #[trigger] s.allowed_peers[i] == addr.ip,
{
}

/// The calls that count as active are those that are not cancelled.
pub proof fn law_active_calls(s: EntityModel, uuid: u128)
    requires
        s.inv(),
    ensures
        model::active(s).contains(uuid) <==> s.dialogs.contains_key(uuid)
            && s.dialogs[uuid].state != DialogState::Cancelling,
{
    if s.dialogs.contains_key(uuid) {
        assert(s.dialogs[uuid].inv(uuid));
    }
}

/// What the bridge notes of a message that arrives, of an error, and shows of its addresses.
pub proof fn law_notes(
    s: EntityModel,
    msg: MessageModel,
    at: ArrivalModel,
    error: Text,
    host: Text,
    port: u16,
)
    ensures
        model::message_noted(s, msg, at) == (EntityModel {
            last_rx: Some(msg.start_line + " from "@ + at.addr_text),
            ..s
        }),
        model::error_noted(s, error) == (EntityModel { last_error: Some(error), ..s }),
        request::host_port(host, port) == host + ":"@ + text::decimal(port as nat),
        request::port_range(s.config) == text::decimal(s.config.rtp_port_min as nat) + "-"@
            + text::decimal(s.config.rtp_port_max as nat),
{
}

// ---------------------------------------------------------------------------------------------
// Registration

/// Whether a message is the response with that status to a REGISTER.
pub open spec fn answers_register(msg: MessageModel, code: u16) -> bool {
    &&& msg.method() is None
    &&& msg.status_code() == Some(code as nat)
    &&& msg.cseq_method() == Some("REGISTER"@)
}

/// Whether `t` is `s` after a REGISTER has gone out: in a new transaction, under the Call-ID of all
/// registrations, with the next sequence number, and with the answer to the challenge if there is
/// one.
pub open spec fn registers(
    s: EntityModel,
    t: EntityModel,
    a: ActionModel,
    auth: Option<digest::ChallengeModel>,
    now: u64,
    cnonce: Text,
) -> bool {
    &&& t == (EntityModel {
        register_cseq: if s.register_cseq < u32::MAX {
            (s.register_cseq + 1) as u32
        } else {
            s.register_cseq
        },
        branch_counter: outbound::counted_on(s.branch_counter),
        register_auth: auth,
        register_status: "registering"@,
        last_register: Some(now),
        ..s
    })
    &&& outbound::sends(a, s.remote, "REGISTER"@)
    &&& peers::plain_settings(s.config) && wire::one_line(s.register_call_id) && (
    auth matches Some(c) ==> authentication::plain_challenge(s.config, c, cnonce))
        ==> peers::reads_as_register(
        a->payload,
        s.config,
        request::branch(s.branch_counter),
        s.register_call_id,
        s.register_cseq,
        auth,
        cnonce,
    )
}

/// A REGISTER goes out as it should.
proof fn lemma_registers(
    s: EntityModel,
    auth: Option<digest::ChallengeModel>,
    status: Text,
    now: u64,
    cnonce: Text,
)
    requires
        s.config.register,
    ensures
        ({
            let t = model::register_step(
                EntityModel { register_auth: auth, register_status: status, ..s },
                now,
                cnonce,
            );
            &&& t.actions.len() == 1
            &&& registers(s, t.state, t.actions[0], auth, now, cnonce)
        }),
{
    if peers::plain_settings(s.config) && wire::one_line(s.register_call_id) && (
    auth matches Some(c) ==> authentication::plain_challenge(s.config, c, cnonce)) {
        peers::law_branches_carry_the_cookie(s.branch_counter);
        peers::law_registers_are_understood(
            s.config,
            request::branch(s.branch_counter),
            s.register_call_id,
            s.register_cseq,
            auth,
            cnonce,
        );
    }
}

/// What becomes of the response to a REGISTER: success is noted, a challenge is answered at once
/// with a REGISTER that proves the password if the bridge is to register, and a failure is noted
/// with its status.
pub proof fn law_registrations_are_followed_up(
    s: EntityModel,
    msg: MessageModel,
    code: u16,
    at: ArrivalModel,
    found: Option<u128>,
    cnonce: Text,
)
    requires
        answers_register(msg, code),
    ensures
        ({
            let (t, offer) = model::message_step(s, msg, at, found, cnonce);
            let challenge = digest::challenge_of(msg);
            &&& offer is None
            &&& if 200 <= code <= 299 {
                &&& t.state == (EntityModel { register_status: "registered"@, ..s })
                &&& t.actions.len() == 0
            } else if code == 401 || code == 407 {
                if challenge is Some && s.config.register {
                    &&& t.actions.len() == 1
                    &&& registers(s, t.state, t.actions[0], challenge, at.now, cnonce)
                } else if challenge is Some {
                    &&& t.state == (EntityModel {
                        register_auth: challenge,
                        register_status: "disabled"@,
                        ..s
                    })
                    &&& t.actions.len() == 0
                } else {
                    t.state == s && t.actions.len() == 0
                }
            } else {
                &&& t.state == (EntityModel {
                    register_status: "failed "@ + text::decimal(code as nat),
                    last_error: Some("REGISTER failed with SIP "@ + text::decimal(code as nat)),
                    ..s
                })
                &&& t.actions.len() == 0
            }
        }),
{
    if s.config.register {
        lemma_registers(s, digest::challenge_of(msg), "auth challenge"@, at.now, cnonce);
    }
}

// ---------------------------------------------------------------------------------------------
// Requests and responses outside of calls

/// Whether a request is answered with that status, and nothing else happens.
pub open spec fn only_answered(
    s: EntityModel,
    t: model::Step,
    at: ArrivalModel,
    ctx: ContextModel,
    code: u16,
) -> bool {
    &&& t.state == s
    &&& t.actions.len() == 1
    &&& outbound::sends(t.actions[0], at.addr, peers::status_line(code))
    &&& peers::reads_as_response(
        t.actions[0]->payload,
        s.config,
        ctx,
        code,
        peers::reason_of(code),
        Some("flowstation"@),
        None,
    )
}

/// The methods that the bridge handles are told apart.
proof fn lemma_methods()
    ensures
        "INVITE"@[0] == 'I' && "INVITE"@.len() == 6,
        "OPTIONS"@[0] == 'O' && "OPTIONS"@.len() == 7,
        "BYE"@[0] == 'B' && "BYE"@.len() == 3,
        "CANCEL"@[0] == 'C' && "CANCEL"@.len() == 6,
        "ACK"@[0] == 'A' && "ACK"@.len() == 3,
        "REGISTER"@[0] == 'R' && "REGISTER"@.len() == 8,
{
    reveal_strlit("INVITE");
    reveal_strlit("OPTIONS");
    reveal_strlit("BYE");
    reveal_strlit("CANCEL");
    reveal_strlit("ACK");
    reveal_strlit("REGISTER");
}

/// A request outside of calls is answered where it came from: OPTIONS with success, an ACK not at
/// all, and what the bridge does not know as not implemented. Nothing changes by it.
pub proof fn law_requests_are_answered(
    s: EntityModel,
    msg: MessageModel,
    at: ArrivalModel,
    found: Option<u128>,
    cnonce: Text,
    ctx: ContextModel,
)
    requires
        inbound::has_context(msg, at, ctx),
    ensures
        ({
            let (t, offer) = model::message_step(s, msg, at, found, cnonce);
            let method = msg.method();
            &&& method == Some("OPTIONS"@) ==> offer is None && only_answered(s, t, at, ctx, 200)
            &&& method == Some("ACK"@) ==> offer is None && t.state == s && t.actions.len() == 0
            &&& method is Some && method != Some("INVITE"@) && method != Some("OPTIONS"@)
                && method != Some("BYE"@) && method != Some("CANCEL"@) && method != Some("ACK"@)
                ==> offer is None && only_answered(s, t, at, ctx, 501)
        }),
{
    lemma_methods();
    inbound::lemma_refused(s, ctx, 200, "OK"@);
    inbound::lemma_refused(s, ctx, 501, "Not Implemented"@);
}

/// Where the peer of a call hangs up or cancels, its request is answered with success, CMCE hears
/// exactly once that the call is released unless the station had ended it before, and the call is
/// forgotten.
pub proof fn law_hangups_release_the_call(
    s: EntityModel,
    msg: MessageModel,
    at: ArrivalModel,
    uuid: u128,
    cnonce: Text,
    ctx: ContextModel,
)
    requires
        msg.method() == Some("BYE"@) || msg.method() == Some("CANCEL"@),
        inbound::has_context(msg, at, ctx),
        s.dialogs.contains_key(uuid),
    ensures
        ({
            let (t, offer) = model::message_step(s, msg, at, Some(uuid), cnonce);
            let told = s.dialogs[uuid].state != DialogState::Cancelling;
            let n = t.actions.len() as int;
            &&& offer is None
            &&& outbound::forgotten(s, t.state, uuid, s.branch_counter)
            &&& n == if told {
                3int
            } else {
                2
            }
            &&& outbound::sends(t.actions[0], at.addr, "200 OK"@)
            &&& peers::reads_as_response(
                t.actions[0]->payload,
                s.config,
                ctx,
                200,
                "OK"@,
                Some("flowstation"@),
                None,
            )
            &&& told ==> outbound::tells(
                t.actions[1],
                ControlModel::Release { brew_uuid: uuid, cause: 16 },
            )
            &&& t.actions[n - 1] == ActionModel::CloseMedia(uuid)
        }),
{
    lemma_methods();
    inbound::lemma_refused(s, ctx, 200, "OK"@);
    lemma_ok();
    lemma_hangup(s, msg, at, uuid, cnonce);
}

/// How success is logged.
proof fn lemma_ok()
    ensures
        peers::status_line(200) == "200 OK"@,
{
    reveal_strlit("200 OK");
    reveal_strlit("OK");
    reveal_strlit(" ");
    assert(text::decimal(2) =~= seq!['2']);
    assert(text::decimal(20) =~= seq!['2', '0']);
    assert(text::decimal(200) =~= seq!['2', '0', '0']);
    assert(peers::status_line(200) =~= "200 OK"@);
}

/// A hang-up ends its call, whether it can be answered or not.
proof fn lemma_hangup(
    s: EntityModel,
    msg: MessageModel,
    at: ArrivalModel,
    uuid: u128,
    cnonce: Text,
)
    requires
        msg.method() == Some("BYE"@) || msg.method() == Some("CANCEL"@),
        s.dialogs.contains_key(uuid),
    ensures
        model::message_step(s, msg, at, Some(uuid), cnonce) == (
            model::hangup_step(s, msg, at.addr, Some(uuid)),
            None::<model::OfferModel>,
        ),
        outbound::forgotten(
            s,
            model::hangup_step(s, msg, at.addr, Some(uuid)).state,
            uuid,
            s.branch_counter,
        ),
{
    lemma_methods();
}

/// A hang-up that cannot be answered still ends its call, and CMCE still hears of it.
pub proof fn law_unanswerable_hangups_release_the_call(
    s: EntityModel,
    msg: MessageModel,
    at: ArrivalModel,
    uuid: u128,
    cnonce: Text,
)
    requires
        msg.method() == Some("BYE"@) || msg.method() == Some("CANCEL"@),
        msg.header("Via"@) is None || msg.header("From"@) is None || msg.header("To"@) is None
            || msg.header("Call-ID"@) is None || msg.header("CSeq"@) is None,
        s.dialogs.contains_key(uuid),
    ensures
        ({
            let (t, offer) = model::message_step(s, msg, at, Some(uuid), cnonce);
            let told = s.dialogs[uuid].state != DialogState::Cancelling;
            &&& offer is None
            &&& outbound::forgotten(s, t.state, uuid, s.branch_counter)
            &&& t.actions.len() == if told {
                2int
            } else {
                1
            }
            &&& told ==> outbound::tells(
                t.actions[0],
                ControlModel::Release { brew_uuid: uuid, cause: 16 },
            )
            &&& t.actions.last() == ActionModel::CloseMedia(uuid)
        }),
{
    lemma_methods();
    lemma_hangup(s, msg, at, uuid, cnonce);
}

/// A hang-up of a call that the bridge does not know is answered with success all the same.
pub proof fn law_strange_hangups_are_answered(
    s: EntityModel,
    msg: MessageModel,
    at: ArrivalModel,
    cnonce: Text,
    ctx: ContextModel,
)
    requires
        msg.method() == Some("BYE"@) || msg.method() == Some("CANCEL"@),
        inbound::has_context(msg, at, ctx),
    ensures
        model::message_step(s, msg, at, None, cnonce).1 is None,
        only_answered(s, model::message_step(s, msg, at, None, cnonce).0, at, ctx, 200),
{
    lemma_methods();
    inbound::lemma_refused(s, ctx, 200, "OK"@);
}

/// Requests outside of calls that cannot be answered have no consequence.
pub proof fn law_unanswerable_requests_are_ignored(
    s: EntityModel,
    msg: MessageModel,
    at: ArrivalModel,
    found: Option<u128>,
    cnonce: Text,
)
    requires
        msg.method() is Some,
        msg.method() != Some("BYE"@) && msg.method() != Some("CANCEL"@),
        msg.header("Via"@) is None || msg.header("From"@) is None || msg.header("To"@) is None
            || msg.header("Call-ID"@) is None || msg.header("CSeq"@) is None,
    ensures
        ({
            let (t, offer) = model::message_step(s, msg, at, found, cnonce);
            t.state == s && t.actions.len() == 0 && offer is None
        }),
{
}

/// That the server is there is noted when it answers an OPTIONS with success. Any other response
/// outside of calls and registrations has no consequence, nor has a message that is neither a
/// request nor a response, nor a response for a call that the bridge does not know.
pub proof fn law_other_responses_have_no_consequence(
    s: EntityModel,
    msg: MessageModel,
    at: ArrivalModel,
    found: Option<u128>,
    cnonce: Text,
)
    requires
        msg.method() is None,
        msg.cseq_method() != Some("REGISTER"@) || msg.status_code() is None,
        msg.cseq_method() != Some("INVITE"@) || msg.status_code() is None || found is None,
    ensures
        ({
            let (t, offer) = model::message_step(s, msg, at, found, cnonce);
            &&& offer is None
            &&& t.actions.len() == 0
            &&& if msg.cseq_method() == Some("OPTIONS"@) && (msg.status_code() matches Some(code)
                && 200 <= code <= 299) {
                t.state == (EntityModel {
                    last_rx: Some(
                        "OPTIONS "@ + text::decimal(msg.status_code()->0) + " from "@
                            + at.addr_text,
                    ),
                    ..s
                })
            } else {
                t.state == s
            }
        }),
{
    lemma_methods();
    lemma_status_range(msg);
}

/// A status code is a number of sixteen bits.
proof fn lemma_status_range(msg: MessageModel)
    ensures
        msg.status_code() matches Some(code) ==> code <= u16::MAX,
{
}

// ---------------------------------------------------------------------------------------------
// Time

/// Whether something is due that was last done at `last`, and is done every `secs` seconds.
pub open spec fn is_due(last: Option<u64>, now: u64, secs: int) -> bool {
    last matches Some(t) ==> now >= t + secs * 1_000_000_000
}

/// The time between two OPTIONS, in seconds.
pub open spec fn options_pause(s: EntityModel) -> int {
    if s.config.options_interval_secs > 5 {
        s.config.options_interval_secs as int
    } else {
        5
    }
}

/// As time passes, a REGISTER goes out every minute if the bridge is to register, and an OPTIONS
/// after every pause, to the server; neither goes out before it is due.
pub proof fn law_the_server_hears_from_the_bridge(
    s: EntityModel,
    now: u64,
    order: Seq<u128>,
    cnonce: Text,
    id: u128,
)
    ensures
        ({
            let t = model::periodic_step(s, now, order, cnonce, id);
            let closed = model::drop_all(s, order);
            let n = closed.actions.len() as int;
            let registering = s.config.register && is_due(s.last_register, now, 60);
            let asking = is_due(s.last_options, now, options_pause(s));
            let next = if registering {
                outbound::counted_on(s.branch_counter)
            } else {
                s.branch_counter
            };
            let m = if registering {
                n + 1
            } else {
                n
            };
            &&& t.actions.take(n) == closed.actions
            &&& t.actions.len() == if asking {
                m + 1
            } else {
                m
            }
            &&& registering ==> outbound::sends(t.actions[n], s.remote, "REGISTER"@)
            &&& registering && peers::plain_settings(s.config) && wire::one_line(
                s.register_call_id,
            ) && (s.register_auth matches Some(c) ==> authentication::plain_challenge(
                s.config,
                c,
                cnonce,
            )) ==> peers::reads_as_register(
                t.actions[n]->payload,
                s.config,
                request::branch(s.branch_counter),
                s.register_call_id,
                s.register_cseq,
                s.register_auth,
                cnonce,
            )
            &&& asking ==> outbound::sends(t.actions[m], s.remote, "OPTIONS"@)
            &&& asking && peers::plain_settings(s.config) ==> peers::reads_as_options(
                t.actions[m]->payload,
                s.config,
                request::branch(next),
                id,
            )
            &&& t.state == (EntityModel {
                dialogs: closed.state.dialogs,
                rtp_by_ts: closed.state.rtp_by_ts,
                invite_rate: t.state.invite_rate,
                branch_counter: if asking {
                    outbound::counted_on(next)
                } else {
                    next
                },
                register_cseq: if registering && s.register_cseq < u32::MAX {
                    (s.register_cseq + 1) as u32
                } else {
                    s.register_cseq
                },
                register_status: if registering {
                    "registering"@
                } else {
                    s.register_status
                },
                last_register: if registering {
                    Some(now)
                } else {
                    s.last_register
                },
                last_options: if asking {
                    Some(now)
                } else {
                    s.last_options
                },
                ..s
            })
        }),
{
    station::lemma_drop_all_frame(s, order);
    lemma_due(s, now);
    let t = model::periodic_step(s, now, order, cnonce, id);
    let closed = model::drop_all(s, order);
    let n = closed.actions.len() as int;
    let registering = s.config.register && is_due(s.last_register, now, 60);
    let asking = is_due(s.last_options, now, options_pause(s));
    assert(t.actions.take(n) =~= closed.actions);
    if registering {
        peers::law_branches_carry_the_cookie(s.branch_counter);
        if peers::plain_settings(s.config) && wire::one_line(s.register_call_id) && (
        s.register_auth matches Some(c) ==> authentication::plain_challenge(
            s.config,
            c,
            cnonce,
        )) {
            peers::law_registers_are_understood(
                s.config,
                request::branch(s.branch_counter),
                s.register_call_id,
                s.register_cseq,
                s.register_auth,
                cnonce,
            );
        }
    }
    if asking && peers::plain_settings(s.config) {
        let next = if registering {
            outbound::counted_on(s.branch_counter)
        } else {
            s.branch_counter
        };
        peers::law_branches_carry_the_cookie(next);
        peers::law_options_are_understood(s.config, request::branch(next), id);
    }
}

/// What is due is due.
proof fn lemma_due(s: EntityModel, now: u64)
    ensures
        model::register_due(s, now) <==> s.config.register && is_due(s.last_register, now, 60),
        model::options_due(s, now) <==> is_due(s.last_options, now, options_pause(s)),
{
    let secs = options_pause(s);
    assert(model::options_interval(s.config) == secs);
    if let Some(last) = s.last_options {
        assert(secs * 1_000_000_000 > 0) by (nonlinear_arith)
            requires
                secs >= 5,
        ;
    }
}

/// As time passes, a call is forgotten exactly if it was cancelled at least thirty-two seconds ago,
/// and its port is closed; every other call stays as it is.
pub proof fn law_only_old_cancelled_calls_are_forgotten(
    s: EntityModel,
    now: u64,
    order: Seq<u128>,
    cnonce: Text,
    id: u128,
    uuid: u128,
)
    requires
        s.inv(),
        model::lists(order, model::reapable(s, now)),
    ensures
        ({
            let t = model::periodic_step(s, now, order, cnonce, id);
            let d = s.dialogs[uuid];
            let old = d.state == DialogState::Cancelling && now >= d.released_at->0
                + 32_000_000_000;
            &&& t.state.dialogs.contains_key(uuid) <==> s.dialogs.contains_key(uuid) && !old
            &&& t.state.dialogs.contains_key(uuid) ==> t.state.dialogs[uuid] == d
            &&& s.dialogs.contains_key(uuid) && old ==> exists|i: int|
                0 <= i < t.actions.len() && #[trigger] t.actions[i] == ActionModel::CloseMedia(
                    uuid,
                )
        }),
{
    time::law_cancelled_calls_are_reaped(s, now, order, cnonce, id, uuid);
    let t = model::periodic_step(s, now, order, cnonce, id);
    if s.dialogs.contains_key(uuid) {
        let d = s.dialogs[uuid];
        assert(d.inv(uuid));
        if d.state == DialogState::Cancelling && now >= d.released_at->0 + 32_000_000_000 {
            assert(model::reapable(s, now).contains(uuid));
            assert(order.to_set().contains(uuid));
            lemma_closed(s, order, uuid);
            let closed = model::drop_all(s, order);
            let i = choose|i: int|
                0 <= i < closed.actions.len() && #[trigger] closed.actions[i]
                    == ActionModel::CloseMedia(uuid);
            assert(t.actions[i] == closed.actions[i]);
        }
    }
}

/// The port of every call that is forgotten is closed.
proof fn lemma_closed(s: EntityModel, order: Seq<u128>, uuid: u128)
    requires
        order.no_duplicates(),
        order.contains(uuid),
        s.dialogs.contains_key(uuid),
    ensures
        exists|i: int|
            0 <= i < model::drop_all(s, order).actions.len() && #[trigger] model::drop_all(
                s,
                order,
            ).actions[i] == ActionModel::CloseMedia(uuid),
    decreases order.len(),
{
    let most = order.drop_last();
    let a = model::drop_all(s, most);
    let t = model::drop_all(s, order);
    let b = model::drop_step(a.state, order.last());
    assert(t.actions == a.actions + b.actions);
    if order.last() == uuid {
        time::law_forgetting_several(s, most);
        assert(!most.to_set().contains(uuid)) by {
            if most.contains(uuid) {
                let i = choose|i: int| 0 <= i < most.len() && most[i] == uuid;
                assert(order[i] == order[order.len() - 1]);
            }
        }
        assert(a.state.dialogs.contains_key(uuid));
        assert(t.actions[a.actions.len() as int] == ActionModel::CloseMedia(uuid));
    } else {
        let i = choose|i: int| 0 <= i < order.len() && order[i] == uuid;
        assert(most[i] == uuid);
        lemma_closed(s, most, uuid);
        let j = choose|j: int|
            0 <= j < a.actions.len() && #[trigger] a.actions[j] == ActionModel::CloseMedia(uuid);
        assert(t.actions[j] == a.actions[j]);
    }
}

/// Where several calls are forgotten, their ports are closed one after the other, and nothing else
/// is done: nobody hears of it.
pub proof fn law_forgotten_calls_are_only_closed(s: EntityModel, order: Seq<u128>)
    requires
        order.no_duplicates(),
        forall|i: int| 0 <= i < order.len() ==> s.dialogs.contains_key(#[trigger] order[i]),
    ensures
        model::drop_all(s, order).actions == order.map_values(
            |u: u128| ActionModel::CloseMedia(u),
        ),
    decreases order.len(),
{
    let f = |u: u128| ActionModel::CloseMedia(u);
    if order.len() == 0 {
        assert(model::drop_all(s, order).actions =~= order.map_values(f));
    } else {
        let most = order.drop_last();
        let last = order.last();
        assert forall|i: int| 0 <= i < most.len() implies s.dialogs.contains_key(
            #[trigger] most[i],
        ) by {
            assert(s.dialogs.contains_key(order[i]));
        }
        law_forgotten_calls_are_only_closed(s, most);
        time::law_forgetting_several(s, most);
        assert(!most.to_set().contains(last)) by {
            if most.contains(last) {
                let i = choose|i: int| 0 <= i < most.len() && most[i] == last;
                assert(order[i] == order[order.len() - 1]);
            }
        }
        assert(s.dialogs.contains_key(order[order.len() - 1]));
        assert(order.map_values(f) =~= most.map_values(f).push(f(last)));
        assert(model::drop_all(s, order).actions =~= order.map_values(f));
    }
}

/// As time passes, a source is forgotten two minutes after its window began, and not before; so no
/// window is forgotten in which INVITEs still count.
pub proof fn law_old_windows_are_forgotten(
    s: EntityModel,
    now: u64,
    order: Seq<u128>,
    cnonce: Text,
    id: u128,
    ip: IpAddr,
)
    ensures
        ({
            let t = model::periodic_step(s, now, order, cnonce, id).state;
            let kept = s.invite_rate.contains_key(ip) && now < s.invite_rate[ip].0
                + 120_000_000_000;
            &&& t.invite_rate.contains_key(ip) <==> kept
            &&& kept ==> t.invite_rate[ip] == s.invite_rate[ip]
        }),
{
    station::lemma_drop_all_frame(s, order);
}

} // verus!

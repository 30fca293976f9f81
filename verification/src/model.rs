//! The bridge as a state machine: its state, what each event makes of it, and what it asks to
//! be done.
use vstd::prelude::*;
use crate::config::CfgAsterisk;
use crate::dialog;
use crate::dialog::{DialogModel, DialogState, RtpSession};
use crate::digest;
use crate::digest::ChallengeModel;
use crate::fields;
use crate::fields::ContextModel;
use crate::ident;
use crate::media;
use crate::media::{MediaTask, TdmaTime};
use crate::net::{IpAddr, SocketAddr};
use crate::request;
use crate::signal;
use crate::signal::{ActionModel, BodyModel, CallModel, CallTimeout, ControlModel};
use crate::sip::MessageModel;
use crate::tables;
use crate::tables::SECOND;
use crate::text;
use crate::text::Text;

verus! {

/// The state of the bridge.
#[verifier::ext_equal]
pub struct EntityModel {
    pub config: CfgAsterisk,
    /// The SIP address of the server.
    pub remote: SocketAddr,
    /// Further hosts that may speak SIP to the bridge.
    pub allowed_peers: Seq<IpAddr>,
    /// The INVITEs of each source: when its window began, and how many have come since.
    pub invite_rate: Map<IpAddr, (u64, u32)>,
    pub dialogs: Map<u128, DialogModel>,
    /// The call that each carrier and timeslot carries.
    pub rtp_by_ts: Map<(u16, u8), u128>,
    pub next_rtp_port: u16,
    pub branch_counter: u64,
    pub register_call_id: Text,
    pub register_cseq: u32,
    pub register_auth: Option<ChallengeModel>,
    pub register_status: Text,
    pub last_register: Option<u64>,
    pub last_options: Option<u64>,
    pub last_rx: Option<Text>,
    pub last_tx: Option<Text>,
    pub last_error: Option<Text>,
}

/// What an event makes of the bridge: its next state, and the actions that it asks for.
#[verifier::ext_equal]
pub struct Step {
    pub state: EntityModel,
    pub actions: Seq<ActionModel>,
}

impl Step {
    /// This step and then another one from the state that it leads to.
    pub open spec fn and(self, next: Step) -> Step {
        Step { state: next.state, actions: self.actions + next.actions }
    }
}

impl EntityModel {
    /// What holds of every state that the bridge reaches.
    pub open spec fn inv(self) -> bool {
        &&& self.dialogs.dom().finite()
        &&& forall|u: u128| #[trigger]
            self.dialogs.contains_key(u) ==> self.dialogs[u].inv(u) && named(
                self.config,
                self.dialogs[u],
            )
    }

    /// Nothing happens.
    pub open spec fn stay(self) -> Step {
        Step { state: self, actions: Seq::empty() }
    }

    /// Nothing changes, and one action is asked for.
    pub open spec fn act(self, action: ActionModel) -> Step {
        Step { state: self, actions: seq![action] }
    }

    /// A datagram is sent.
    pub open spec fn send(self, payload: Text, dest: SocketAddr, summary: Text) -> Step {
        self.act(ActionModel::SendSip { payload, dest, summary })
    }

    /// CMCE is told something.
    pub open spec fn tell(self, control: ControlModel) -> Step {
        self.act(told(control))
    }

    /// An error is reported.
    pub open spec fn report(self, msg: Text) -> Step {
        self.act(ActionModel::Report(msg))
    }

    /// The state with one dialog replaced.
    pub open spec fn with_dialog(self, uuid: u128, d: DialogModel) -> EntityModel {
        EntityModel { dialogs: self.dialogs.insert(uuid, d), ..self }
    }

    /// The branch of the next transaction.
    pub open spec fn fresh_branch(self) -> Text {
        request::branch(self.branch_counter)
    }

    /// The state after a branch has been used.
    pub open spec fn branch_used(self) -> EntityModel {
        EntityModel {
            branch_counter: if self.branch_counter < u64::MAX {
                (self.branch_counter + 1) as u64
            } else {
                0
            },
            ..self
        }
    }
}

/// Whether a dialog is known by what the bridge gave it: its address and tag, and its Call-ID,
/// which a call from the network has from its INVITE.
pub open spec fn named(cfg: CfgAsterisk, d: DialogModel) -> bool {
    &&& d.local_uri == request::local_uri(cfg)
    &&& d.local_tag == local_tag(d.uuid)
    &&& d.call_id_header == match d.request_context {
        Some(ctx) => ctx.call_id,
        None => outbound_call_id(cfg, d.uuid),
    }
}

/// What tells CMCE something.
pub open spec fn told(control: ControlModel) -> ActionModel {
    ActionModel::Enqueue(signal::to_cmce(control))
}

/// Two texts with a space between them.
pub open spec fn spaced(a: Text, b: Text) -> Text {
    a + " "@ + b
}

/// How a message about a call is logged.
pub open spec fn about(what: Text, uuid: u128) -> Text {
    spaced(what, ident::uuid_text(uuid))
}

/// A status code and its reason.
pub open spec fn status(code: u16, reason: Text) -> Text {
    spaced(text::decimal(code as nat), reason)
}

/// The Call-ID of the registrations.
pub open spec fn register_call_id(cfg: CfgAsterisk, id: u128) -> Text {
    "flow-reg-"@ + ident::uuid_text(id) + "@"@ + cfg.contact_host@
}

/// The state in which the bridge starts; its registrations are made from `id`.
pub open spec fn initial(
    config: CfgAsterisk,
    remote: SocketAddr,
    allowed_peers: Seq<IpAddr>,
    id: u128,
) -> EntityModel {
    EntityModel {
        config,
        remote,
        allowed_peers,
        invite_rate: Map::empty(),
        dialogs: Map::empty(),
        rtp_by_ts: Map::empty(),
        next_rtp_port: config.rtp_port_min,
        branch_counter: 1,
        register_call_id: register_call_id(config, id),
        register_cseq: 1,
        register_auth: None,
        register_status: "not registered"@,
        last_register: None,
        last_options: None,
        last_rx: None,
        last_tx: None,
        last_error: None,
    }
}

/// The state after an error has been reported.
pub open spec fn error_noted(s: EntityModel, msg: Text) -> EntityModel {
    EntityModel { last_error: Some(msg), ..s }
}

// ---------------------------------------------------------------------------------------------
// Registration and keep-alive

/// A REGISTER is sent, if the bridge is to register.
pub open spec fn register_step(s: EntityModel, now: u64, cnonce: Text) -> Step {
    if !s.config.register {
        EntityModel { register_status: "disabled"@, ..s }.stay()
    } else {
        EntityModel {
            register_cseq: request::next_cseq(s.register_cseq),
            register_status: "registering"@,
            last_register: Some(now),
            ..s.branch_used()
        }.send(
            request::register_text(
                s.config,
                s.fresh_branch(),
                s.register_call_id,
                s.register_cseq,
                s.register_auth,
                cnonce,
            ),
            s.remote,
            "REGISTER"@,
        )
    }
}

/// An OPTIONS is sent, whose Call-ID is made from `id`.
pub open spec fn options_step(s: EntityModel, now: u64, id: u128) -> Step {
    EntityModel { last_options: Some(now), ..s.branch_used() }.send(
        request::options_text(s.config, s.fresh_branch(), id),
        s.remote,
        "OPTIONS"@,
    )
}

/// A response to a REGISTER arrives.
pub open spec fn register_response_step(
    s: EntityModel,
    msg: MessageModel,
    code: u16,
    now: u64,
    cnonce: Text,
) -> Step {
    if 200 <= code <= 299 {
        EntityModel { register_status: "registered"@, ..s }.stay()
    } else if code == 401 || code == 407 {
        match digest::challenge_of(msg) {
            Some(challenge) => register_step(
                EntityModel {
                    register_auth: Some(challenge),
                    register_status: "auth challenge"@,
                    ..s
                },
                now,
                cnonce,
            ),
            None => s.stay(),
        }
    } else {
        EntityModel {
            register_status: "failed "@ + text::decimal(code as nat),
            last_error: Some("REGISTER failed with SIP "@ + text::decimal(code as nat)),
            ..s
        }.stay()
    }
}

// ---------------------------------------------------------------------------------------------
// Requests and responses in dialogs

/// The INVITE of a dialog.
pub open spec fn invite_request(s: EntityModel, uuid: u128, cnonce: Text) -> Text {
    let d = s.dialogs[uuid];
    request::invite_text(
        s.config,
        dialog::snapshot(d),
        s.fresh_branch(),
        d.rtp.local_port,
        d.auth,
        cnonce,
    )
}

/// The INVITE of a dialog is sent, in a transaction that the dialog then remembers.
pub open spec fn invite_step(s: EntityModel, uuid: u128, cnonce: Text) -> Step {
    if s.dialogs.contains_key(uuid) {
        s.branch_used().with_dialog(
            uuid,
            DialogModel { invite_branch: s.fresh_branch(), ..s.dialogs[uuid] },
        ).send(invite_request(s, uuid, cnonce), s.remote, about("INVITE"@, uuid))
    } else {
        s.stay()
    }
}

/// Where the requests of a dialog go: to whoever sent the INVITE, or to the server.
pub open spec fn dialog_peer(s: EntityModel, d: DialogModel) -> SocketAddr {
    match d.peer_addr() {
        Some(addr) => addr,
        None => s.remote,
    }
}

/// The CANCEL or BYE of a dialog is sent.
pub open spec fn teardown_step(s: EntityModel, uuid: u128, cancel: bool) -> Step {
    if s.dialogs.contains_key(uuid) {
        let d = s.dialogs[uuid];
        s.branch_used().send(
            request::dialog_teardown_text(
                s.config,
                dialog::snapshot(d),
                cancel,
                s.fresh_branch(),
            ),
            dialog_peer(s, d),
            about(
                if cancel {
                    "CANCEL"@
                } else {
                    "BYE"@
                },
                uuid,
            ),
        )
    } else {
        s.stay()
    }
}

/// A request is answered without a body.
pub open spec fn refuse(s: EntityModel, ctx: ContextModel, code: u16, reason: Text) -> Step {
    s.send(
        request::response_text(
            s.config,
            ctx,
            code,
            reason,
            if code == 100 {
                None
            } else {
                Some("flowstation"@)
            },
            Seq::empty(),
            Seq::empty(),
        ),
        ctx.addr,
        status(code, reason),
    )
}

/// A request is answered, if it has the headers that a response repeats.
pub open spec fn answer_step(
    s: EntityModel,
    msg: MessageModel,
    addr: SocketAddr,
    code: u16,
    reason: Text,
) -> Step {
    match fields::context_of(msg, addr) {
        Some(ctx) => refuse(s, ctx, code, reason),
        None => s.stay(),
    }
}

/// The INVITE of a call that came in is answered.
pub open spec fn invite_response_step(
    s: EntityModel,
    uuid: u128,
    code: u16,
    reason: Text,
    sdp: Option<Text>,
) -> Step {
    if s.dialogs.contains_key(uuid) && s.dialogs[uuid].request_context is Some {
        let d = s.dialogs[uuid];
        let ctx = d.request_context->0;
        s.send(
            match sdp {
                Some(body) => request::response_text(
                    s.config,
                    ctx,
                    code,
                    reason,
                    Some(d.local_tag),
                    "application/sdp"@,
                    body,
                ),
                None => request::response_text(
                    s.config,
                    ctx,
                    code,
                    reason,
                    Some(d.local_tag),
                    Seq::empty(),
                    Seq::empty(),
                ),
            },
            ctx.addr,
            about(status(code, reason), uuid),
        )
    } else {
        s.stay()
    }
}

/// A final response that ended the INVITE transaction is acknowledged in that transaction, with
/// the tag of the response.
pub open spec fn ack_non_2xx_step(
    s: EntityModel,
    uuid: u128,
    msg: MessageModel,
    summary: Text,
) -> Step {
    if s.dialogs.contains_key(uuid) {
        let d = s.dialogs[uuid];
        let tag = fields::to_tag(msg.header("To"@));
        let shot = dialog::SnapshotModel {
            remote_tag: if tag is Some {
                tag
            } else {
                d.remote_tag
            },
            ..dialog::snapshot(d)
        };
        s.send(request::ack_text(s.config, shot, d.invite_branch, d.cseq), s.remote, summary)
    } else {
        s.stay()
    }
}

// ---------------------------------------------------------------------------------------------
// The end of calls

/// The timeslots without the one that a circuit used.
pub open spec fn freed(
    slots: Map<(u16, u8), u128>,
    media_ready: Option<(u16, u16, u8)>,
) -> Map<(u16, u8), u128> {
    match media_ready {
        Some((_, carrier_num, ts)) => slots.remove((carrier_num, ts)),
        None => slots,
    }
}

/// A dialog is forgotten, with its timeslot and its RTP port.
pub open spec fn drop_step(s: EntityModel, uuid: u128) -> Step {
    if s.dialogs.contains_key(uuid) {
        EntityModel {
            dialogs: s.dialogs.remove(uuid),
            rtp_by_ts: freed(s.rtp_by_ts, s.dialogs[uuid].media_ready),
            ..s
        }.act(ActionModel::CloseMedia(uuid))
    } else {
        s.stay()
    }
}

/// Several dialogs are forgotten, one after the other.
pub open spec fn drop_all(s: EntityModel, order: Seq<u128>) -> Step
    decreases order.len(),
{
    if order.len() == 0 {
        s.stay()
    } else {
        let a = drop_all(s, order.drop_last());
        a.and(drop_step(a.state, order.last()))
    }
}

/// A cancelled call gives up its circuit and waits for the final response.
pub open spec fn cancelling(s: EntityModel, uuid: u128, now: u64) -> EntityModel {
    let d = s.dialogs[uuid];
    EntityModel { rtp_by_ts: freed(s.rtp_by_ts, d.media_ready), ..s }.with_dialog(
        uuid,
        DialogModel {
            media_ready: None,
            state: DialogState::Cancelling,
            released_at: Some(now),
            ..d
        },
    )
}

/// A call ends. If it is the station that ends it, the peer is told: a call that came in and
/// was not answered is refused, another one is cancelled if it was not answered and hung up if
/// it was. A cancelled call waits for the final response; any other is forgotten.
pub open spec fn release_step(s: EntityModel, uuid: u128, from_cmce: bool, now: u64) -> Step {
    if !s.dialogs.contains_key(uuid) {
        s.stay()
    } else {
        let d = s.dialogs[uuid];
        let unanswered = d.state != DialogState::Established;
        let told = if !from_cmce {
            s.stay()
        } else if d.inbound && unanswered {
            invite_response_step(s, uuid, 480, "Temporarily Unavailable"@, None)
        } else {
            teardown_step(s, uuid, unanswered)
        };
        if from_cmce && unanswered && !d.inbound {
            told.and(cancelling(told.state, uuid, now).stay())
        } else {
            told.and(drop_step(told.state, uuid))
        }
    }
}

// ---------------------------------------------------------------------------------------------
// Calls from the network

/// The INVITEs that are not yet answered.
pub open spec fn pending(s: EntityModel) -> Set<u128> {
    dialog::select(
        s.dialogs,
        |d: DialogModel| d.state == DialogState::Inviting || d.state == DialogState::Ringing,
    )
}

/// The calls that are alive and not cancelled.
pub open spec fn active(s: EntityModel) -> Set<u128> {
    dialog::select(
        s.dialogs,
        |d: DialogModel|
            d.state != DialogState::Released && d.state != DialogState::Cancelling,
    )
}

/// A call from the network that can be put through once it has an RTP port and a codec.
#[verifier::ext_equal]
pub struct OfferModel {
    pub ctx: ContextModel,
    pub destination: u32,
    pub remote_rtp: SocketAddr,
    pub caller: Text,
    pub remote_tag: Option<Text>,
    pub remote_target: Option<Text>,
}

/// What the outside world adds to a SIP message: where it came from and how that is written,
/// the address in its session description where that could be read, and the time.
#[verifier::ext_equal]
pub struct ArrivalModel {
    pub addr: SocketAddr,
    pub addr_text: Text,
    pub sdp_ip: Option<IpAddr>,
    pub now: u64,
}

/// The state after an INVITE from `ip` has been counted.
pub open spec fn invite_counted(s: EntityModel, ip: IpAddr, now: u64) -> EntityModel {
    if s.config.max_invites_per_minute == 0 {
        s
    } else {
        EntityModel { invite_rate: tables::rate_after(s.invite_rate, ip, now), ..s }
    }
}

/// Whether the INVITEs of `ip` are within the limit.
pub open spec fn invite_rate_ok(s: EntityModel, ip: IpAddr) -> bool {
    s.config.max_invites_per_minute == 0 || s.invite_rate[ip].1 <= s.config.max_invites_per_minute
}

/// The radio that a request is for, after the configured prefix.
pub open spec fn destination(s: EntityModel, msg: MessageModel) -> Option<nat> {
    fields::destination_issi(msg, text::trimmed(s.config.inbound_prefix@))
}

/// Whether a host may speak SIP to the bridge: the server, and those that are configured.
pub open spec fn peer_allowed(s: EntityModel, addr: SocketAddr) -> bool {
    addr.ip == s.remote.ip || s.allowed_peers.contains(addr.ip)
}

/// An INVITE arrives. It is ignored without the headers that a response repeats; it is refused
/// beyond the rate limit, with too many calls pending, without a radio to call, if it is a
/// duplicate, or without a port for audio; and it is put through otherwise.
pub open spec fn inbound_step(
    s: EntityModel,
    msg: MessageModel,
    at: ArrivalModel,
    duplicate: bool,
) -> (Step, Option<OfferModel>) {
    match fields::context_of(msg, at.addr) {
        None => (s.stay(), None),
        Some(ctx) => {
            let s1 = invite_counted(s, at.addr.ip, at.now);
            let issi = destination(s, msg);
            let audio = media::sdp_remote(msg.body, at.sdp_ip, s.remote.ip);
            if !invite_rate_ok(s1, at.addr.ip) {
                (refuse(s1, ctx, 503, "Service Unavailable"@), None)
            } else if pending(s1).len() >= s.config.max_pending_dialogs {
                (refuse(s1, ctx, 486, "Busy Here"@), None)
            } else if issi is None {
                (refuse(s1, ctx, 404, "Not Found"@), None)
            } else if duplicate {
                (refuse(s1, ctx, 486, "Busy Here"@), None)
            } else if audio is None {
                (refuse(s1, ctx, 488, "Not Acceptable Here"@), None)
            } else {
                (
                    s1.stay(),
                    Some(
                        OfferModel {
                            ctx,
                            destination: issi->0 as u32,
                            remote_rtp: audio->0,
                            caller: fields::caller_number(msg),
                            remote_tag: fields::to_tag(msg.header("From"@)),
                            remote_target: fields::contact_uri(msg.header("Contact"@)),
                        },
                    ),
                )
            }
        },
    }
}

/// The call to the radio that an offer asks for.
pub open spec fn inbound_call(offer: OfferModel) -> CallModel {
    CallModel {
        source_issi: 0,
        destination: offer.destination,
        number: offer.caller,
        priority: 0,
        service: 0,
        mode: 0,
        duplex: 1,
        method: 0,
        communication: 0,
        grant: 0,
        permission: 0,
        timeout: CallTimeout::Infinite,
        ownership: 0,
        queued: 0,
    }
}

/// The tag of a dialog: the first eight digits of its UUID.
pub open spec fn local_tag(uuid: u128) -> Text {
    "flow"@ + ident::uuid_text(uuid).take(8)
}

/// The dialog of a call from the network.
pub open spec fn inbound_dialog(
    cfg: CfgAsterisk,
    offer: OfferModel,
    port: u16,
    uuid: u128,
) -> DialogModel {
    DialogModel {
        uuid,
        call: inbound_call(offer),
        number: offer.caller,
        call_id_header: offer.ctx.call_id,
        local_uri: request::local_uri(cfg),
        local_tag: local_tag(uuid),
        remote_tag: offer.remote_tag,
        cseq: 1,
        invite_branch: Seq::empty(),
        remote_target: offer.remote_target,
        auth: None,
        auth_retry_sent: false,
        state: DialogState::Inviting,
        rtp: RtpSession { local_port: port, remote: Some(offer.remote_rtp), last_tx: None },
        media_ready: None,
        inbound: true,
        request_context: Some(offer.ctx),
        released_at: None,
    }
}

/// The state after an RTP port has been taken.
pub open spec fn port_taken(s: EntityModel, port: u16) -> EntityModel {
    EntityModel {
        next_rtp_port: media::port_after(port, s.config.rtp_port_min, s.config.rtp_port_max),
        ..s
    }
}

/// An offered call is put through under `uuid`: with an RTP port and a codec it is announced to
/// CMCE, and without either it is refused.
pub open spec fn accept_inbound_step(
    s: EntityModel,
    offer: OfferModel,
    port: Result<u16, Text>,
    codec: bool,
    uuid: u128,
) -> Step {
    match port {
        Err(err) => {
            let a = s.report(
                "RTP allocation failed for inbound INVITE to "@ + text::decimal(
                    offer.destination as nat,
                ) + ": "@ + err,
            );
            a.and(refuse(s, offer.ctx, 503, "Service Unavailable"@))
        },
        Ok(port) => {
            let s1 = port_taken(s, port);
            if !codec {
                let a = s1.report("TETRA codec allocation failed for inbound Asterisk call"@);
                a.and(refuse(s1, offer.ctx, 503, "Service Unavailable"@))
            } else {
                let s2 = s1.with_dialog(uuid, inbound_dialog(s.config, offer, port, uuid));
                let a = s2.send(
                    request::response_text(
                        s.config,
                        offer.ctx,
                        100,
                        "Trying"@,
                        None,
                        Seq::empty(),
                        Seq::empty(),
                    ),
                    offer.ctx.addr,
                    about("100 Trying"@, uuid),
                );
                a.and(
                    s2.tell(
                        ControlModel::SetupRequest { brew_uuid: uuid, call: inbound_call(offer) },
                    ),
                )
            }
        },
    }
}

/// The status that tells a SIP peer why CMCE rejected a call.
pub open spec fn reject_status(cause: u8) -> (u16, Text) {
    if cause == 2 {
        (486, "Busy Here"@)
    } else if cause == 3 {
        (404, "Not Found"@)
    } else if cause == 5 {
        (503, "Service Unavailable"@)
    } else {
        (480, "Temporarily Unavailable"@)
    }
}

/// Whether `uuid` is a call from the network.
pub open spec fn is_inbound(s: EntityModel, uuid: u128) -> bool {
    s.dialogs.contains_key(uuid) && s.dialogs[uuid].inbound
}

/// CMCE rejects a call from the network.
pub open spec fn setup_reject_step(s: EntityModel, uuid: u128, cause: u8) -> Step {
    if is_inbound(s, uuid) {
        let (code, reason) = reject_status(cause);
        let a = invite_response_step(s, uuid, code, reason, None);
        a.and(release_step(a.state, uuid, false, 0))
    } else {
        s.stay()
    }
}

/// The radio of a call from the network rings.
pub open spec fn alert_step(s: EntityModel, uuid: u128) -> Step {
    if is_inbound(s, uuid) {
        let s1 = s.with_dialog(
            uuid,
            DialogModel { state: DialogState::Ringing, ..s.dialogs[uuid] },
        );
        invite_response_step(s1, uuid, 180, "Ringing"@, None)
    } else {
        s.stay()
    }
}

/// The radio of a call from the network answers.
pub open spec fn connect_request_step(s: EntityModel, uuid: u128, call: CallModel) -> Step {
    if is_inbound(s, uuid) {
        let d = s.dialogs[uuid];
        let s1 = s.with_dialog(uuid, DialogModel { call, state: DialogState::Established, ..d });
        let a = invite_response_step(
            s1,
            uuid,
            200,
            "OK"@,
            Some(request::sdp_text(s.config, d.rtp.local_port)),
        );
        a.and(
            s1.tell(ControlModel::ConnectConfirm { brew_uuid: uuid, grant: 0, permission: 0 }),
        )
    } else {
        s.stay()
    }
}

// ---------------------------------------------------------------------------------------------
// Calls from radios

/// A call from a radio is rejected, for a reason.
pub open spec fn reject_outbound(s: EntityModel, uuid: u128, why: Text) -> Step {
    s.report(why).and(s.tell(ControlModel::SetupReject { brew_uuid: uuid, cause: 34 }))
}

/// A radio calls: the number to call, or a rejection if there is none.
pub open spec fn outbound_step(s: EntityModel, uuid: u128, call: CallModel) -> (
    Step,
    Option<Text>,
) {
    let number = text::trimmed(call.number);
    if number.len() == 0 {
        (
            reject_outbound(
                s,
                uuid,
                "empty Asterisk destination for uuid="@ + ident::uuid_text(uuid),
            ),
            None,
        )
    } else {
        (s.stay(), Some(number))
    }
}

/// The Call-ID of a call from a radio.
pub open spec fn outbound_call_id(cfg: CfgAsterisk, uuid: u128) -> Text {
    "flow-"@ + ident::uuid_text(uuid) + "@"@ + cfg.contact_host@
}

/// The dialog of a call from a radio.
pub open spec fn outbound_dialog(
    cfg: CfgAsterisk,
    call: CallModel,
    number: Text,
    port: u16,
    uuid: u128,
) -> DialogModel {
    DialogModel {
        uuid,
        call,
        number,
        call_id_header: outbound_call_id(cfg, uuid),
        local_uri: request::local_uri(cfg),
        local_tag: local_tag(uuid),
        remote_tag: None,
        cseq: 1,
        invite_branch: Seq::empty(),
        remote_target: None,
        auth: None,
        auth_retry_sent: false,
        state: DialogState::Inviting,
        rtp: RtpSession { local_port: port, remote: None, last_tx: None },
        media_ready: None,
        inbound: false,
        request_context: None,
        released_at: None,
    }
}

/// A call from a radio is placed: with an RTP port and a codec CMCE is told so and the INVITE
/// goes out, and without either the call is rejected.
pub open spec fn place_outbound_step(
    s: EntityModel,
    uuid: u128,
    call: CallModel,
    number: Text,
    port: Result<u16, Text>,
    codec: bool,
) -> Step {
    match port {
        Err(err) => reject_outbound(
            s,
            uuid,
            "RTP allocation failed for uuid="@ + ident::uuid_text(uuid) + ": "@ + err,
        ),
        Ok(port) => {
            let s1 = port_taken(s, port);
            if !codec {
                reject_outbound(
                    s1,
                    uuid,
                    "TETRA codec allocation failed for uuid="@ + ident::uuid_text(uuid),
                )
            } else {
                let s2 = s1.with_dialog(
                    uuid,
                    outbound_dialog(s.config, call, number, port, uuid),
                );
                s2.tell(ControlModel::SetupAccept { brew_uuid: uuid }).and(
                    invite_step(s2, uuid, Seq::empty()),
                )
            }
        },
    }
}

// ---------------------------------------------------------------------------------------------
// Responses to INVITE

/// The peer of a call rings, perhaps with early media.
pub open spec fn ringing_step(
    s: EntityModel,
    uuid: u128,
    msg: MessageModel,
    sdp_ip: Option<IpAddr>,
) -> Step {
    let d = s.dialogs[uuid];
    let audio = media::sdp_remote(msg.body, sdp_ip, s.remote.ip);
    s.with_dialog(
        uuid,
        DialogModel {
            state: DialogState::Ringing,
            remote_tag: fields::to_tag(msg.header("To"@)),
            rtp: RtpSession {
                remote: if audio is Some {
                    audio
                } else {
                    d.rtp.remote
                },
                ..d.rtp
            },
            ..d
        },
    ).tell(ControlModel::Alert { brew_uuid: uuid })
}

/// The dialog after its INVITE has been answered.
pub open spec fn answered(
    s: EntityModel,
    uuid: u128,
    msg: MessageModel,
    sdp_ip: Option<IpAddr>,
) -> DialogModel {
    let d = s.dialogs[uuid];
    let audio = media::sdp_remote(msg.body, sdp_ip, s.remote.ip);
    let target = fields::contact_uri(msg.header("Contact"@));
    DialogModel {
        remote_tag: fields::to_tag(msg.header("To"@)),
        remote_target: if target is Some {
            target
        } else {
            d.remote_target
        },
        rtp: RtpSession {
            remote: if audio is Some {
                audio
            } else {
                d.rtp.remote
            },
            ..d.rtp
        },
        state: if d.state == DialogState::Cancelling {
            d.state
        } else {
            DialogState::Established
        },
        ..d
    }
}

/// The answer to an INVITE is acknowledged, in a transaction of its own.
pub open spec fn ack_2xx_step(s: EntityModel, uuid: u128) -> Step {
    let d = s.dialogs[uuid];
    s.branch_used().send(
        request::ack_2xx_text(s.config, dialog::snapshot(d), s.fresh_branch(), d.cseq),
        s.remote,
        about("ACK"@, uuid),
    )
}

/// The peer of a call answers. The answer is acknowledged; CMCE is then told to connect, unless
/// the call was cancelled meanwhile: then it is hung up.
pub open spec fn answered_step(
    s: EntityModel,
    uuid: u128,
    msg: MessageModel,
    sdp_ip: Option<IpAddr>,
) -> Step {
    let d = s.dialogs[uuid];
    let a = ack_2xx_step(s.with_dialog(uuid, answered(s, uuid, msg, sdp_ip)), uuid);
    if d.state == DialogState::Cancelling {
        let b = a.and(teardown_step(a.state, uuid, false));
        b.and(drop_step(b.state, uuid))
    } else {
        a.and(
            a.state.tell(
                ControlModel::ConnectRequest {
                    brew_uuid: uuid,
                    call: CallModel { grant: 0, permission: 0, ..d.call },
                },
            ),
        )
    }
}

/// The peer of a call asks for authentication. The response is acknowledged; a cancelled call
/// is then forgotten, and any other is tried once more with an answer to the challenge.
pub open spec fn challenged_step(
    s: EntityModel,
    uuid: u128,
    msg: MessageModel,
    cnonce: Text,
) -> Step {
    let d = s.dialogs[uuid];
    let a = ack_non_2xx_step(s, uuid, msg, about("ACK auth"@, uuid));
    let challenge = digest::challenge_of(msg);
    if d.state == DialogState::Cancelling {
        a.and(drop_step(a.state, uuid))
    } else if challenge is Some && !d.auth_retry_sent {
        let s1 = a.state.with_dialog(
            uuid,
            DialogModel {
                auth: challenge,
                auth_retry_sent: true,
                cseq: request::next_cseq(d.cseq),
                ..d
            },
        );
        a.and(invite_step(s1, uuid, cnonce))
    } else {
        a
    }
}

/// A call fails. The response is acknowledged and the call is forgotten; CMCE is told, unless
/// the call was cancelled.
pub open spec fn failed_step(s: EntityModel, uuid: u128, msg: MessageModel, code: u16) -> Step {
    let d = s.dialogs[uuid];
    let a = ack_non_2xx_step(s, uuid, msg, about("ACK failure"@, uuid));
    if d.state == DialogState::Cancelling {
        a.and(drop_step(a.state, uuid))
    } else {
        let b = a.and(
            a.state.report(
                "INVITE uuid="@ + ident::uuid_text(uuid) + " failed with SIP "@ + text::decimal(
                    code as nat,
                ),
            ),
        );
        let c = b.and(b.state.tell(ControlModel::Release { brew_uuid: uuid, cause: 34 }));
        c.and(release_step(c.state, uuid, false, 0))
    }
}

/// A response to the INVITE of `found` arrives.
pub open spec fn invite_result_step(
    s: EntityModel,
    found: Option<u128>,
    msg: MessageModel,
    code: u16,
    sdp_ip: Option<IpAddr>,
    cnonce: Text,
) -> Step {
    match found {
        Some(uuid) if s.dialogs.contains_key(uuid) => {
            if code == 180 || code == 183 {
                if s.dialogs[uuid].state == DialogState::Cancelling {
                    s.stay()
                } else {
                    ringing_step(s, uuid, msg, sdp_ip)
                }
            } else if 200 <= code <= 299 {
                answered_step(s, uuid, msg, sdp_ip)
            } else if code == 401 || code == 407 {
                challenged_step(s, uuid, msg, cnonce)
            } else if 300 <= code <= 699 {
                failed_step(s, uuid, msg, code)
            } else {
                s.stay()
            }
        },
        _ => s.stay(),
    }
}

// ---------------------------------------------------------------------------------------------
// SIP messages

/// Whether `found` is a dialog with that Call-ID, or there is none.
pub open spec fn located(s: EntityModel, call_id: Option<Text>, found: Option<u128>) -> bool {
    match found {
        Some(u) => call_id is Some && s.dialogs.contains_key(u) && text::same_ignoring_case(
            s.dialogs[u].call_id_header,
            call_id->0,
        ),
        None => call_id is Some ==> forall|u: u128| #[trigger]
            s.dialogs.contains_key(u) ==> !text::same_ignoring_case(
                s.dialogs[u].call_id_header,
                call_id->0,
            ),
    }
}

/// The peer hangs up or cancels: the request is answered, CMCE is told unless the call was
/// already cancelled, and the call is forgotten.
pub open spec fn hangup_step(
    s: EntityModel,
    msg: MessageModel,
    addr: SocketAddr,
    found: Option<u128>,
) -> Step {
    let a = answer_step(s, msg, addr, 200, "OK"@);
    match found {
        Some(uuid) => {
            let b = if s.dialogs.contains_key(uuid) && s.dialogs[uuid].state
                != DialogState::Cancelling {
                a.and(s.tell(ControlModel::Release { brew_uuid: uuid, cause: 16 }))
            } else {
                a
            };
            b.and(release_step(s, uuid, false, 0))
        },
        None => a,
    }
}

/// A SIP message arrives; `found` is a dialog with its Call-ID, if there is one.
pub open spec fn message_step(
    s: EntityModel,
    msg: MessageModel,
    at: ArrivalModel,
    found: Option<u128>,
    cnonce: Text,
) -> (Step, Option<OfferModel>) {
    match msg.method() {
        Some(method) => {
            if method == "INVITE"@ {
                inbound_step(s, msg, at, found is Some)
            } else if method == "OPTIONS"@ {
                (answer_step(s, msg, at.addr, 200, "OK"@), None)
            } else if method == "BYE"@ || method == "CANCEL"@ {
                (hangup_step(s, msg, at.addr, found), None)
            } else if method == "ACK"@ {
                (s.stay(), None)
            } else {
                (answer_step(s, msg, at.addr, 501, "Not Implemented"@), None)
            }
        },
        None => match msg.status_code() {
            Some(code) => {
                let code = code as u16;
                let of = msg.cseq_method();
                if of == Some("REGISTER"@) {
                    (register_response_step(s, msg, code, at.now, cnonce), None)
                } else if of == Some("OPTIONS"@) {
                    if 200 <= code <= 299 {
                        (
                            EntityModel {
                                last_rx: Some(
                                    "OPTIONS "@ + text::decimal(code as nat) + " from "@
                                        + at.addr_text,
                                ),
                                ..s
                            }.stay(),
                            None,
                        )
                    } else {
                        (s.stay(), None)
                    }
                } else if of == Some("INVITE"@) {
                    (invite_result_step(s, found, msg, code, at.sdp_ip, cnonce), None)
                } else {
                    (s.stay(), None)
                }
            },
            None => (s.stay(), None),
        },
    }
}

/// Whether a message may ask for authentication, so that a client nonce is needed.
pub open spec fn may_challenge(msg: MessageModel) -> bool {
    msg.status_code() matches Some(code) && (code == 401 || code == 407)
}

/// The state after the arrival of a message has been noted.
pub open spec fn message_noted(s: EntityModel, msg: MessageModel, at: ArrivalModel) -> EntityModel {
    EntityModel { last_rx: Some(msg.start_line + " from "@ + at.addr_text), ..s }
}

// ---------------------------------------------------------------------------------------------
// Messages of the station

/// The circuit of a call is up: its audio so far is dropped and its timeslot is noted.
pub open spec fn media_ready_step(
    s: EntityModel,
    uuid: u128,
    call_id: u16,
    carrier_num: u16,
    ts: u8,
) -> Step {
    if s.dialogs.contains_key(uuid) {
        EntityModel { rtp_by_ts: s.rtp_by_ts.insert((carrier_num, ts), uuid), ..s }.with_dialog(
            uuid,
            DialogModel { media_ready: Some((call_id, carrier_num, ts)), ..s.dialogs[uuid] },
        ).act(ActionModel::ResetDownlink(uuid))
    } else {
        s.stay()
    }
}

/// Where the voice of a timeslot goes: the call that it carries, and the peer of that call.
pub open spec fn uplink_target(s: EntityModel, carrier_num: u16, ts: u8) -> Option<
    (u128, SocketAddr),
> {
    if s.rtp_by_ts.contains_key((carrier_num, ts)) {
        let uuid = s.rtp_by_ts[(carrier_num, ts)];
        if s.dialogs.contains_key(uuid) {
            match s.dialogs[uuid].rtp.remote {
                Some(remote) => Some((uuid, remote)),
                None => None,
            }
        } else {
            None
        }
    } else {
        None
    }
}

/// A block of voice of a call goes out: the state, and whether a talkspurt begins.
pub open spec fn voice_step(s: EntityModel, uuid: u128, now: u64) -> (EntityModel, bool) {
    if s.dialogs.contains_key(uuid) {
        let d = s.dialogs[uuid];
        (
            s.with_dialog(
                uuid,
                DialogModel { rtp: RtpSession { last_tx: Some(now), ..d.rtp }, ..d },
            ),
            media::begins_talkspurt(d.rtp.last_tx, now),
        )
    } else {
        (s, false)
    }
}

/// An RTP packet arrives on the port of a call: the state, and whether its audio is taken. Only
/// the host that was negotiated may feed a call; where it changes its port, audio follows.
pub open spec fn audio_step(s: EntityModel, uuid: u128, payload_type: u8, from: SocketAddr) -> (
    EntityModel,
    bool,
) {
    if s.dialogs.contains_key(uuid) && media::audio_accepted(
        s.dialogs[uuid].rtp.remote,
        payload_type,
        from,
    ) {
        let d = s.dialogs[uuid];
        (
            s.with_dialog(
                uuid,
                DialogModel { rtp: RtpSession { remote: Some(from), ..d.rtp }, ..d },
            ),
            true,
        )
    } else {
        (s, false)
    }
}

/// What is to be done with the RTP port of a dialog at `now`.
pub open spec fn media_task(d: DialogModel, now: TdmaTime) -> MediaTask {
    MediaTask {
        uuid: d.uuid,
        circuit: match d.media_ready {
            Some((_, carrier_num, ts)) => Some((carrier_num, ts)),
            None => None,
        },
        take_block: d.media_ready matches Some((_, _, ts)) && media::takes_block(now, ts),
    }
}

/// That a block of voice could not be decoded.
pub open spec fn voice_dropped_text(uuid: u128, ts: u8, len: nat) -> Text {
    "AsteriskEntity: dropping unsupported TETRA audio block uuid="@ + ident::uuid_text(uuid)
        + " ts="@ + text::decimal(ts as nat) + " len="@ + text::decimal(len)
}

/// That audio could not be sent.
pub open spec fn rtp_send_failed_text(uuid: u128, ts: u8, err: Text) -> Text {
    "RTP send failed uuid="@ + ident::uuid_text(uuid) + " ts="@ + text::decimal(ts as nat) + ": "@
        + err
}

/// That audio could not be received.
pub open spec fn rtp_receive_failed_text(uuid: u128, err: Text) -> Text {
    "RTP receive failed uuid="@ + ident::uuid_text(uuid) + ": "@ + err
}

/// What is left to do outside the bridge after a message of the station.
#[verifier::ext_equal]
pub enum FollowUpModel {
    /// Nothing.
    Done,
    /// Find an RTP port and a codec for a call from a radio.
    Place { uuid: u128, call: CallModel, number: Text },
    /// Send a block of voice to the peer of a call.
    Voice { uuid: u128, remote: SocketAddr, ts: u8, data: Seq<u8> },
}

/// A message of the station arrives.
pub open spec fn station_step(s: EntityModel, msg: BodyModel, now: u64) -> (Step, FollowUpModel) {
    match msg {
        BodyModel::Control(control) => match control {
            ControlModel::SetupRequest { brew_uuid, call } => {
                let (step, number) = outbound_step(s, brew_uuid, call);
                match number {
                    Some(number) => (
                        step,
                        FollowUpModel::Place { uuid: brew_uuid, call, number },
                    ),
                    None => (step, FollowUpModel::Done),
                }
            },
            ControlModel::SetupReject { brew_uuid, cause } => (
                setup_reject_step(s, brew_uuid, cause),
                FollowUpModel::Done,
            ),
            ControlModel::Alert { brew_uuid } => (alert_step(s, brew_uuid), FollowUpModel::Done),
            ControlModel::ConnectRequest { brew_uuid, call } => (
                connect_request_step(s, brew_uuid, call),
                FollowUpModel::Done,
            ),
            ControlModel::MediaReady { brew_uuid, call_id, carrier_num, ts } => (
                media_ready_step(s, brew_uuid, call_id, carrier_num, ts),
                FollowUpModel::Done,
            ),
            ControlModel::Release { brew_uuid, .. } => (
                release_step(s, brew_uuid, true, now),
                FollowUpModel::Done,
            ),
            _ => (s.stay(), FollowUpModel::Done),
        },
        BodyModel::Uplink { carrier_num, ts, data } => match uplink_target(s, carrier_num, ts) {
            Some((uuid, remote)) => (
                s.stay(),
                FollowUpModel::Voice { uuid, remote, ts, data },
            ),
            None => (s.stay(), FollowUpModel::Done),
        },
        BodyModel::Downlink { .. } => (s.stay(), FollowUpModel::Done),
    }
}

// ---------------------------------------------------------------------------------------------
// Time

/// Whether something is due at `now` that was last done at `last`, every `secs` seconds.
pub open spec fn due(last: Option<u64>, now: u64, secs: nat) -> bool {
    match last {
        Some(last) => tables::elapsed(now, last) >= secs * SECOND,
        None => true,
    }
}

/// Whether a REGISTER is due: every minute, if the bridge is to register.
pub open spec fn register_due(s: EntityModel, now: u64) -> bool {
    s.config.register && due(s.last_register, now, 60)
}

/// The time between two OPTIONS, in seconds: what is configured, and at least five.
pub open spec fn options_interval(cfg: CfgAsterisk) -> nat {
    if cfg.options_interval_secs >= 5 {
        cfg.options_interval_secs as nat
    } else {
        5
    }
}

/// Whether an OPTIONS is due.
pub open spec fn options_due(s: EntityModel, now: u64) -> bool {
    due(s.last_options, now, options_interval(s.config))
}

/// The calls that were cancelled too long ago.
pub open spec fn reapable(s: EntityModel, now: u64) -> Set<u128> {
    dialog::select(
        s.dialogs,
        |d: DialogModel| dialog::overdue(d, now, media::CANCEL_REAP_AFTER),
    )
}

/// Whether `order` lists each member of `set` once.
pub open spec fn lists(order: Seq<u128>, set: Set<u128>) -> bool {
    order.no_duplicates() && order.to_set() == set
}

/// Whether two UUIDs are random ones.
pub open spec fn drawn(a: u128, b: u128) -> bool {
    ident::is_random_uuid(a) && ident::is_random_uuid(b)
}

/// Time passes: the calls in `reaped` are forgotten, old INVITEs are no longer counted, and a
/// REGISTER and an OPTIONS are sent if they are due.
pub open spec fn periodic_step(
    s: EntityModel,
    now: u64,
    reaped: Seq<u128>,
    cnonce: Text,
    options_id: u128,
) -> Step {
    let a = drop_all(s, reaped);
    let s1 = EntityModel { invite_rate: tables::rate_pruned(a.state.invite_rate, now), ..a.state };
    let b = if register_due(s, now) {
        register_step(s1, now, cnonce)
    } else {
        s1.stay()
    };
    let c = if options_due(s, now) {
        options_step(b.state, now, options_id)
    } else {
        b.state.stay()
    };
    a.and(b).and(c)
}

} // verus!

//! How calls are set up, from the network and from radios.
use vstd::prelude::*;
use crate::calls;
use crate::dialog;
use crate::dialog::{DialogModel, DialogState, RtpSession, SipDialog};
use crate::entity::AsteriskEntity;
use crate::fields::SipRequestContext;
use crate::ident;
use crate::media;
use crate::model;
use crate::model::{ArrivalModel, OfferModel};
use crate::net::{IpAddr, SocketAddr};
use crate::signal::{Action, CallControl, CallTimeout, ControlModel, NetworkCircuitCall, Outbox};
use crate::sip;
use crate::sip::SipMessage;
use crate::text;
use crate::text::Text;

verus! {

/// What the outside world adds to a SIP message: where it came from and how that is written,
/// the address in its session description where that could be read, and the time.
pub struct Arrival {
    pub addr: SocketAddr,
    pub addr_text: String,
    pub sdp_ip: Option<IpAddr>,
    pub now: u64,
}

impl View for Arrival {
    type V = ArrivalModel;

    open spec fn view(&self) -> ArrivalModel {
        ArrivalModel {
            addr: self.addr,
            addr_text: self.addr_text@,
            sdp_ip: self.sdp_ip,
            now: self.now,
        }
    }
}

/// A call from the network that can be put through once it has an RTP port and a codec.
pub struct InboundOffer {
    pub ctx: SipRequestContext,
    pub destination: u32,
    pub remote_rtp: SocketAddr,
    pub caller: String,
    pub remote_tag: Option<String>,
    pub remote_target: Option<String>,
}

impl View for InboundOffer {
    type V = OfferModel;

    open spec fn view(&self) -> OfferModel {
        OfferModel {
            ctx: self.ctx@,
            destination: self.destination,
            remote_rtp: self.remote_rtp,
            caller: self.caller@,
            remote_tag: sip::opt_string(self.remote_tag),
            remote_target: sip::opt_string(self.remote_target),
        }
    }
}

/// What an optional offer says.
pub open spec fn opt_offer(o: Option<InboundOffer>) -> Option<OfferModel> {
    match o {
        Some(offer) => Some(offer@),
        None => None,
    }
}

/// What the attempt to open an RTP port says: the port, or why there is none.
pub open spec fn port_result(r: Result<u16, String>) -> Result<u16, Text> {
    match r {
        Ok(port) => Ok(port),
        Err(err) => Err(err@),
    }
}

/// The tag of a dialog.
fn format_local_tag(uuid: u128) -> (r: String)
    ensures
        r@ == model::local_tag(uuid),
{
    let id: String = ident::format_uuid(uuid);
    proof {
        reveal(ident::uuid_text);
        reveal_strlit("-");
        assert(id@.len() == 36);
        assert(id@.subrange(0, 8) =~= id@.take(8));
    }
    let mut out: String = "flow".to_owned();
    out.append(id.as_str().substring_char(0, 8));
    out
}

impl AsteriskEntity {
    /// Where a session description asks for audio; `ip` is the address that it gives, where
    /// that could be read.
    pub fn parse_sdp_remote(&self, body: &str, ip: Option<IpAddr>) -> (r: Option<SocketAddr>)
        ensures
            r == media::sdp_remote(body@, ip, self@.remote.ip),
    {
        media::sdp_audio_remote(body, ip, self.remote.ip)
    }

    /// The radio that a request is for.
    pub fn inbound_destination_issi(&self, msg: &SipMessage) -> (r: Option<u32>)
        ensures
            match r {
                Some(n) => model::destination(self@, msg@) == Some(n as nat),
                None => model::destination(self@, msg@) is None,
            },
    {
        Self::inbound_destination(msg, self.config.inbound_prefix.as_str())
    }

    /// Whether a host may speak SIP to the bridge. The port is not pinned: Asterisk answers from
    /// whatever source port it likes.
    pub fn peer_allowed(&self, addr: SocketAddr) -> (r: bool)
        ensures
            r == model::peer_allowed(self@, addr),
    {
        if addr.ip == self.remote.ip {
            return true;
        }
        let mut i: usize = 0;
        while i < self.allowed_peers.len()
            invariant
                i <= self.allowed_peers@.len(),
                forall|j: int| 0 <= j < i ==> self.allowed_peers@[j] != addr.ip,
            decreases self.allowed_peers@.len() - i,
        {
            if self.allowed_peers[i] == addr.ip {
                assert(self@.allowed_peers.contains(addr.ip));
                return true;
            }
            i = i + 1;
        }
        false
    }

    /// Counts an INVITE, and says whether its source is within the limit. Each INVITE costs an
    /// RTP port, a codec and a CMCE setup, so an unthrottled peer could exhaust the ports and
    /// ring the whole cell.
    pub fn invite_rate_ok(&mut self, addr: SocketAddr, now: u64) -> (r: bool)
        requires
            old(self).wf(),
        ensures
            final(self).wf(),
            final(self)@ == model::invite_counted(old(self)@, addr.ip, now),
            r == model::invite_rate_ok(final(self)@, addr.ip),
    {
        let limit: u32 = self.config.max_invites_per_minute;
        if limit == 0 {
            return true;
        }
        let n: u32 = self.invite_rate.count(addr.ip, now);
        n <= limit
    }

    /// How many calls are not yet answered.
    pub fn pending_dialogs(&self) -> (r: usize)
        ensures
            r == model::pending(self@).len(),
    {
        let mut wanted: Vec<DialogState> = Vec::new();
        wanted.push(DialogState::Inviting);
        wanted.push(DialogState::Ringing);
        proof {
            let p = |d: DialogModel| wanted@.contains(d.state);
            assert forall|s: DialogState| #[trigger]
                wanted@.contains(s) == (s == DialogState::Inviting || s
                    == DialogState::Ringing) by {
                assert(wanted@[0] == DialogState::Inviting);
                assert(wanted@[1] == DialogState::Ringing);
            }
            assert(dialog::select(self@.dialogs, p) =~= model::pending(self@));
        }
        self.dialogs.count(&wanted)
    }

    /// An INVITE arrives: it is refused, or it is offered to be put through. `duplicate` tells
    /// whether a dialog has its Call-ID already.
    pub fn start_inbound_call(
        &mut self,
        msg: &SipMessage,
        at: &Arrival,
        duplicate: bool,
        out: &mut Outbox,
    ) -> (r: Option<InboundOffer>)
        requires
            old(self).wf(),
        ensures
            final(self).took(
                *final(out),
                old(out)@,
                model::inbound_step(old(self)@, msg@, at@, duplicate).0,
            ),
            opt_offer(r) == model::inbound_step(old(self)@, msg@, at@, duplicate).1,
    {
        let ctx: SipRequestContext = match Self::request_context(msg, at.addr) {
            Some(ctx) => ctx,
            None => return None,
        };
        if !self.invite_rate_ok(at.addr, at.now) {
            self.refuse(&ctx, 503, "Service Unavailable", out);
            return None;
        }
        if self.pending_dialogs() >= self.config.max_pending_dialogs {
            self.refuse(&ctx, 486, "Busy Here", out);
            return None;
        }
        let destination: u32 = match self.inbound_destination_issi(msg) {
            Some(destination) => destination,
            None => {
                self.refuse(&ctx, 404, "Not Found", out);
                return None;
            },
        };
        if duplicate {
            self.refuse(&ctx, 486, "Busy Here", out);
            return None;
        }
        let remote_rtp: SocketAddr = match self.parse_sdp_remote(msg.body.as_str(), at.sdp_ip) {
            Some(remote_rtp) => remote_rtp,
            None => {
                self.refuse(&ctx, 488, "Not Acceptable Here", out);
                return None;
            },
        };
        Some(
            InboundOffer {
                ctx,
                destination,
                remote_rtp,
                caller: Self::inbound_caller_number(msg),
                remote_tag: Self::parse_to_tag(msg.header("From")),
                remote_target: Self::parse_contact_uri(msg.header("Contact")),
            },
        )
    }

    /// Notes that an RTP port has been taken.
    fn take_port(&mut self, port: u16)
        requires
            old(self).wf(),
            port == old(self)@.config.rtp_port_max || port < u16::MAX,
        ensures
            final(self).wf(),
            final(self)@ == model::port_taken(old(self)@, port),
    {
        self.next_rtp_port = if port == self.config.rtp_port_max {
            self.config.rtp_port_min
        } else {
            port + 1
        };
    }

    /// Puts an offered call through under a fresh UUID, which is returned if there is a call.
    /// `port` is the RTP port that was opened for it, and `codec` tells whether there is a codec.
    pub fn accept_inbound_call(
        &mut self,
        offer: InboundOffer,
        port: Result<u16, String>,
        codec: bool,
        out: &mut Outbox,
    ) -> (r: Option<u128>)
        requires
            old(self).wf(),
            port matches Ok(p) ==> p == old(self)@.config.rtp_port_max || p < u16::MAX,
        ensures
            r is Some <==> port is Ok && codec,
            exists|uuid: u128| #[trigger]
                ident::is_random_uuid(uuid) && (r is Some ==> r == Some(uuid)) && final(self).took(
                    *final(out),
                    old(out)@,
                    model::accept_inbound_step(
                        old(self)@,
                        offer@,
                        port_result(port),
                        codec,
                        uuid,
                    ),
                ),
    {
        let uuid: u128 = ident::new_v4();
        let there_is_a_call: bool = port.is_ok() && codec;
        self.accept_inbound_call_as(offer, port, codec, uuid, out);
        if there_is_a_call {
            Some(uuid)
        } else {
            None
        }
    }

    /// Puts an offered call through under `uuid`.
    pub fn accept_inbound_call_as(
        &mut self,
        offer: InboundOffer,
        port: Result<u16, String>,
        codec: bool,
        uuid: u128,
        out: &mut Outbox,
    )
        requires
            old(self).wf(),
            port matches Ok(p) ==> p == old(self)@.config.rtp_port_max || p < u16::MAX,
        ensures
            final(self).took(
                *final(out),
                old(out)@,
                model::accept_inbound_step(old(self)@, offer@, port_result(port), codec, uuid),
            ),
    {
        let port: u16 = match port {
            Ok(port) => port,
            Err(err) => {
                let mut text: String = "RTP allocation failed for inbound INVITE to ".to_owned();
                text.append(text::decimal_string(offer.destination as u64).as_str());
                text.append(": ");
                text.append(err.as_str());
                out.push(Action::Report(text));
                self.refuse(&offer.ctx, 503, "Service Unavailable", out);
                return;
            },
        };
        self.take_port(port);
        if !codec {
            out.push(
                Action::Report(
                    "TETRA codec allocation failed for inbound Asterisk call".to_owned(),
                ),
            );
            self.refuse(&offer.ctx, 503, "Service Unavailable", out);
            return;
        }
        let call = NetworkCircuitCall {
            source_issi: 0,
            destination: offer.destination,
            number: offer.caller.clone(),
            priority: 0,
            service: 0,
            mode: 0,
            duplex: 1,
            method: 0,
            communication: 0,
            grant: 0,
            permission: 0,
            timeout: CallTimeout::Infinite,
            ownership: 0,
            queued: 0,
        };
        let ctx: SipRequestContext = offer.ctx.clone();
        let dialog = SipDialog {
            uuid,
            call: call.clone(),
            number: offer.caller,
            call_id_header: ctx.call_id.clone(),
            local_uri: self.local_uri(),
            local_tag: format_local_tag(uuid),
            remote_tag: offer.remote_tag,
            cseq: 1,
            invite_branch: String::new(),
            remote_target: offer.remote_target,
            auth: None,
            auth_retry_sent: false,
            state: DialogState::Inviting,
            rtp: RtpSession { local_port: port, remote: Some(offer.remote_rtp), last_tx: None },
            media_ready: None,
            inbound: true,
            request_context: Some(offer.ctx),
            released_at: None,
        };
        self.dialogs.insert(uuid, dialog);
        let response: String = self.build_response(&ctx, 100, "Trying", None, None);
        out.send(response, ctx.addr, calls::format_about("100 Trying", uuid));
        out.control(CallControl::NetworkCircuitSetupRequest { brew_uuid: uuid, call });
    }

    /// A radio calls: the number to call, or a rejection if there is none.
    pub fn start_outbound_call(
        &self,
        uuid: u128,
        call: &NetworkCircuitCall,
        out: &mut Outbox,
    ) -> (r: Option<String>)
        ensures
            final(out)@ == old(out)@ + model::outbound_step(self@, uuid, call@).0.actions,
            sip::opt_string(r) == model::outbound_step(self@, uuid, call@).1,
    {
        let chars: Vec<char> = text::chars_of(call.number.as_str());
        let number: &[char] = text::trim(&chars);
        if number.len() == 0 {
            let mut why: String = "empty Asterisk destination for uuid=".to_owned();
            why.append(ident::format_uuid(uuid).as_str());
            Self::reject_outbound(uuid, why, out);
            return None;
        }
        Some(text::string_of(number))
    }

    /// Rejects a call from a radio, for a reason.
    fn reject_outbound(uuid: u128, why: String, out: &mut Outbox)
        ensures
            forall|s: model::EntityModel|
                final(out)@ == old(out)@ + (#[trigger] model::reject_outbound(
                    s,
                    uuid,
                    why@,
                )).actions,
    {
        out.push(Action::Report(why));
        Self::reject_setup(uuid, 34, out);
        assert forall|s: model::EntityModel|
            out@ == old(out)@ + (#[trigger] model::reject_outbound(s, uuid, why@)).actions by {
            assert(out@ =~= old(out)@ + model::reject_outbound(s, uuid, why@).actions);
        }
    }

    /// Places a call from a radio. `port` is the RTP port that was opened for it, and `codec`
    /// tells whether there is a codec.
    pub fn place_outbound_call(
        &mut self,
        uuid: u128,
        call: NetworkCircuitCall,
        number: String,
        port: Result<u16, String>,
        codec: bool,
        out: &mut Outbox,
    )
        requires
            old(self).wf(),
            port matches Ok(p) ==> p == old(self)@.config.rtp_port_max || p < u16::MAX,
        ensures
            final(self).took(
                *final(out),
                old(out)@,
                model::place_outbound_step(
                    old(self)@,
                    uuid,
                    call@,
                    number@,
                    port_result(port),
                    codec,
                ),
            ),
    {
        let port: u16 = match port {
            Ok(port) => port,
            Err(err) => {
                let mut why: String = "RTP allocation failed for uuid=".to_owned();
                why.append(ident::format_uuid(uuid).as_str());
                why.append(": ");
                why.append(err.as_str());
                Self::reject_outbound(uuid, why, out);
                return;
            },
        };
        self.take_port(port);
        if !codec {
            let mut why: String = "TETRA codec allocation failed for uuid=".to_owned();
            why.append(ident::format_uuid(uuid).as_str());
            Self::reject_outbound(uuid, why, out);
            return;
        }
        let mut call_id_header: String = "flow-".to_owned();
        call_id_header.append(ident::format_uuid(uuid).as_str());
        call_id_header.append("@");
        call_id_header.append(self.config.contact_host.as_str());
        let dialog = SipDialog {
            uuid,
            call,
            number,
            call_id_header,
            local_uri: self.local_uri(),
            local_tag: format_local_tag(uuid),
            remote_tag: None,
            cseq: 1,
            invite_branch: String::new(),
            remote_target: None,
            auth: None,
            auth_retry_sent: false,
            state: DialogState::Inviting,
            rtp: RtpSession { local_port: port, remote: None, last_tx: None },
            media_ready: None,
            inbound: false,
            request_context: None,
            released_at: None,
        };
        self.dialogs.insert(uuid, dialog);
        Self::send_setup_accept(uuid, out);
        proof {
            reveal_strlit("");
            assert(""@ =~= Seq::<char>::empty());
        }
        self.send_invite(uuid, "", out);
    }

    /// Tells CMCE that a call is rejected.
    pub fn reject_setup(uuid: u128, cause: u8, out: &mut Outbox)
        ensures
            final(out)@ == old(out)@.push(
                model::told(ControlModel::SetupReject { brew_uuid: uuid, cause }),
            ),
    {
        out.control(CallControl::NetworkCircuitSetupReject { brew_uuid: uuid, cause });
    }

    /// Tells CMCE that a call is accepted.
    pub fn send_setup_accept(uuid: u128, out: &mut Outbox)
        ensures
            final(out)@ == old(out)@.push(
                model::told(ControlModel::SetupAccept { brew_uuid: uuid }),
            ),
    {
        out.control(CallControl::NetworkCircuitSetupAccept { brew_uuid: uuid });
    }

    /// Tells CMCE that the peer of a call rings.
    pub fn send_alert(uuid: u128, out: &mut Outbox)
        ensures
            final(out)@ == old(out)@.push(model::told(ControlModel::Alert { brew_uuid: uuid })),
    {
        out.control(CallControl::NetworkCircuitAlert { brew_uuid: uuid });
    }

    /// Tells CMCE that a call is over.
    pub fn send_release_to_cmce(uuid: u128, cause: u8, out: &mut Outbox)
        ensures
            final(out)@ == old(out)@.push(
                model::told(ControlModel::Release { brew_uuid: uuid, cause }),
            ),
    {
        out.control(CallControl::NetworkCircuitRelease { brew_uuid: uuid, cause });
    }
}

} // verus!

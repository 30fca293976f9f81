//! What the bridge does when a SIP message arrives.
use vstd::prelude::*;
use crate::calls;
use crate::dialog::{DialogState, SipDialog, SipDialogSnapshot};
use crate::entity::AsteriskEntity;
use crate::ident;
use crate::model;
use crate::model::EntityModel;
use crate::net::{IpAddr, SocketAddr};
use crate::setup;
use crate::setup::{Arrival, InboundOffer};
use crate::signal::{Action, CallControl, NetworkCircuitCall, Outbox};
use crate::sip;
use crate::sip::SipMessage;
use crate::text;

verus! {

/// Whether two texts are the same.
fn is_text(a: &str, b: &str) -> (r: bool)
    ensures
        r == (a@ == b@),
{
    text::same(&text::chars_of(a), &text::chars_of(b))
}

impl AsteriskEntity {
    // -----------------------------------------------------------------------------------------
    // SIP messages

    /// Reads a datagram as a SIP message, if its sender may speak SIP to the bridge: anything
    /// else that reaches the port could call an arbitrary radio, or tear down a dialog by
    /// guessing its Call-ID.
    pub fn screen_datagram(&self, bytes: &[u8], addr: SocketAddr) -> (r: Option<SipMessage>)
        ensures
            match r {
                Some(m) => model::peer_allowed(self@, addr) && sip::message_of(
                    sip::lossy_text(bytes@),
                ) == Some(m@),
                None => !model::peer_allowed(self@, addr) || sip::message_of(
                    sip::lossy_text(bytes@),
                ) is None,
            },
    {
        if !self.peer_allowed(addr) {
            return None;
        }
        SipMessage::parse(bytes)
    }

    /// Some dialog with that Call-ID.
    pub fn find_dialog_by_call_id(&self, call_id: Option<&str>) -> (r: Option<u128>)
        ensures
            model::located(self@, sip::opt_text(call_id), r),
    {
        match call_id {
            Some(id) => {
                let r: Option<u128> = self.dialogs.find_by_call_id(id);
                proof {
                    if r is None {
                        assert forall|u: u128| #[trigger]
                            self@.dialogs.contains_key(u) implies !text::same_ignoring_case(
                            self@.dialogs[u].call_id_header,
                            id@,
                        ) by {
                            assert(self.dialogs@[u] == self@.dialogs[u]);
                        }
                    }
                }
                r
            },
            None => None,
        }
    }

    /// A response to a REGISTER arrives.
    pub fn handle_register_response(
        &mut self,
        msg: &SipMessage,
        code: u16,
        now: u64,
        cnonce: &str,
        out: &mut Outbox,
    )
        requires
            old(self).wf(),
        ensures
            final(self).took(
                *final(out),
                old(out)@,
                model::register_response_step(old(self)@, msg@, code, now, cnonce@),
            ),
    {
        if 200 <= code && code <= 299 {
            self.register_status = "registered".to_owned();
        } else if code == 401 || code == 407 {
            if let Some(challenge) = Self::parse_challenge(msg) {
                self.register_auth = Some(challenge);
                self.register_status = "auth challenge".to_owned();
                self.send_register(now, cnonce, out);
            }
        } else {
            let number: String = text::decimal_string(code as u64);
            let mut status: String = "failed ".to_owned();
            status.append(number.as_str());
            self.register_status = status;
            let mut error: String = "REGISTER failed with SIP ".to_owned();
            error.append(number.as_str());
            self.last_error = Some(error);
        }
    }

    /// The peer of a call rings. A 183 carries early media, so its session description counts.
    fn handle_ringing(
        &mut self,
        uuid: u128,
        msg: &SipMessage,
        sdp_ip: Option<IpAddr>,
        out: &mut Outbox,
    )
        requires
            old(self).wf(),
            old(self)@.dialogs.contains_key(uuid),
            old(self)@.dialogs[uuid].state != DialogState::Cancelling,
        ensures
            final(self).took(
                *final(out),
                old(out)@,
                model::ringing_step(old(self)@, uuid, msg@, sdp_ip),
            ),
    {
        let remote_rtp: Option<SocketAddr> = self.parse_sdp_remote(msg.body.as_str(), sdp_ip);
        if let Some(mut dialog) = self.dialogs.remove(uuid) {
            dialog.state = DialogState::Ringing;
            dialog.remote_tag = Self::parse_to_tag(msg.header("To"));
            if remote_rtp.is_some() {
                dialog.rtp.remote = remote_rtp;
            }
            self.dialogs.insert(uuid, dialog);
        }
        Self::send_alert(uuid, out);
    }

    /// The peer of a call answers. The ACK to a 2xx is its own transaction, with a fresh branch;
    /// without it the far end would repeat the 200 OK forever. Where the answer has raced a
    /// CANCEL the leg is up now, so it is acknowledged and then hung up.
    fn handle_answered(
        &mut self,
        uuid: u128,
        msg: &SipMessage,
        sdp_ip: Option<IpAddr>,
        out: &mut Outbox,
    )
        requires
            old(self).wf(),
            old(self)@.dialogs.contains_key(uuid),
        ensures
            final(self).took(
                *final(out),
                old(out)@,
                model::answered_step(old(self)@, uuid, msg@, sdp_ip),
            ),
    {
        let remote_rtp: Option<SocketAddr> = self.parse_sdp_remote(msg.body.as_str(), sdp_ip);
        let remote_target: Option<String> = Self::parse_contact_uri(msg.header("Contact"));
        let mut dialog: SipDialog = match self.dialogs.remove(uuid) {
            Some(dialog) => dialog,
            None => return,
        };
        let cancelling: bool = dialog.state == DialogState::Cancelling;
        dialog.remote_tag = Self::parse_to_tag(msg.header("To"));
        if remote_target.is_some() {
            dialog.remote_target = remote_target;
        }
        if remote_rtp.is_some() {
            dialog.rtp.remote = remote_rtp;
        }
        if !cancelling {
            dialog.state = DialogState::Established;
        }
        let mut call: NetworkCircuitCall = dialog.call.clone();
        let snapshot: SipDialogSnapshot = SipDialogSnapshot::from_dialog(&dialog);
        self.dialogs.insert(uuid, dialog);
        let branch: String = self.next_branch();
        let ack: String = self.build_ack_2xx(&snapshot, branch.as_str(), snapshot.cseq);
        out.send(ack, self.remote, calls::format_about("ACK", uuid));
        if cancelling {
            self.send_bye_or_cancel(uuid, false, out);
            self.drop_dialog(uuid, out);
            return;
        }
        call.grant = 0;
        call.permission = 0;
        out.control(CallControl::NetworkCircuitConnectRequest { brew_uuid: uuid, call });
    }

    /// The peer of a call asks for authentication. The ACK belongs to the challenged INVITE, so
    /// it comes before the sequence number moves on.
    fn handle_challenged(&mut self, uuid: u128, msg: &SipMessage, cnonce: &str, out: &mut Outbox)
        requires
            old(self).wf(),
            old(self)@.dialogs.contains_key(uuid),
        ensures
            final(self).took(
                *final(out),
                old(out)@,
                model::challenged_step(old(self)@, uuid, msg@, cnonce@),
            ),
    {
        self.ack_non_2xx(uuid, msg, calls::format_about("ACK auth", uuid).as_str(), out);
        let (cancelling, retried): (bool, bool) = match self.dialogs.get(uuid) {
            Some(dialog) => (dialog.state == DialogState::Cancelling, dialog.auth_retry_sent),
            None => return,
        };
        if cancelling {
            self.drop_dialog(uuid, out);
            return;
        }
        if let Some(challenge) = Self::parse_challenge(msg) {
            if !retried {
                if let Some(mut dialog) = self.dialogs.remove(uuid) {
                    dialog.auth = Some(challenge);
                    dialog.auth_retry_sent = true;
                    if dialog.cseq < u32::MAX {
                        dialog.cseq = dialog.cseq + 1;
                    }
                    self.dialogs.insert(uuid, dialog);
                }
                self.send_invite(uuid, cnonce, out);
            }
        }
    }

    /// A call fails. Where it was cancelled that was to be expected, and CMCE already knows.
    fn handle_failed(&mut self, uuid: u128, msg: &SipMessage, code: u16, out: &mut Outbox)
        requires
            old(self).wf(),
            old(self)@.dialogs.contains_key(uuid),
        ensures
            final(self).took(
                *final(out),
                old(out)@,
                model::failed_step(old(self)@, uuid, msg@, code),
            ),
    {
        self.ack_non_2xx(uuid, msg, calls::format_about("ACK failure", uuid).as_str(), out);
        let cancelling: bool = match self.dialogs.get(uuid) {
            Some(dialog) => dialog.state == DialogState::Cancelling,
            None => return,
        };
        if cancelling {
            self.drop_dialog(uuid, out);
            return;
        }
        let mut error: String = "INVITE uuid=".to_owned();
        error.append(ident::format_uuid(uuid).as_str());
        error.append(" failed with SIP ");
        error.append(text::decimal_string(code as u64).as_str());
        out.push(Action::Report(error));
        Self::send_release_to_cmce(uuid, 34, out);
        self.release_dialog(uuid, false, 0, out);
    }

    /// A response to the INVITE of the dialog `found` arrives. Where the radio has already hung
    /// up and the call was cancelled, CMCE has been told, and only the SIP leg is left to close.
    pub fn handle_invite_response(
        &mut self,
        found: Option<u128>,
        msg: &SipMessage,
        code: u16,
        sdp_ip: Option<IpAddr>,
        cnonce: &str,
        out: &mut Outbox,
    )
        requires
            old(self).wf(),
        ensures
            final(self).took(
                *final(out),
                old(out)@,
                model::invite_result_step(old(self)@, found, msg@, code, sdp_ip, cnonce@),
            ),
    {
        let uuid: u128 = match found {
            Some(uuid) => uuid,
            None => return,
        };
        let cancelling: bool = match self.dialogs.get(uuid) {
            Some(dialog) => dialog.state == DialogState::Cancelling,
            None => return,
        };
        if code == 180 || code == 183 {
            if !cancelling {
                self.handle_ringing(uuid, msg, sdp_ip, out);
            }
        } else if 200 <= code && code <= 299 {
            self.handle_answered(uuid, msg, sdp_ip, out);
        } else if code == 401 || code == 407 {
            self.handle_challenged(uuid, msg, cnonce, out);
        } else if 300 <= code && code <= 699 {
            self.handle_failed(uuid, msg, code, out);
        }
    }

    /// The peer hangs up or cancels. A dialog that is already cancelled has been released
    /// towards CMCE.
    fn handle_hangup(
        &mut self,
        msg: &SipMessage,
        addr: SocketAddr,
        found: Option<u128>,
        out: &mut Outbox,
    )
        requires
            old(self).wf(),
        ensures
            final(self).took(
                *final(out),
                old(out)@,
                model::hangup_step(old(self)@, msg@, addr, found),
            ),
    {
        self.answer_request(msg, addr, 200, "OK", out);
        if let Some(uuid) = found {
            let tell: bool = match self.dialogs.get(uuid) {
                Some(dialog) => dialog.state != DialogState::Cancelling,
                None => false,
            };
            if tell {
                Self::send_release_to_cmce(uuid, 16, out);
            }
            self.release_dialog(uuid, false, 0, out);
        }
    }

    /// Handles a SIP message, given a dialog with its Call-ID if there is one, and the client
    /// nonce to answer a challenge with. An INVITE that can be put through is returned.
    pub fn dispatch_sip_message(
        &mut self,
        msg: &SipMessage,
        at: &Arrival,
        found: Option<u128>,
        cnonce: &str,
        out: &mut Outbox,
    ) -> (r: Option<InboundOffer>)
        requires
            old(self).wf(),
        ensures
            final(self).took(
                *final(out),
                old(out)@,
                model::message_step(old(self)@, msg@, at@, found, cnonce@).0,
            ),
            setup::opt_offer(r) == model::message_step(
                old(self)@,
                msg@,
                at@,
                found,
                cnonce@,
            ).1,
    {
        if let Some(method) = msg.method() {
            if is_text(method, "INVITE") {
                return self.start_inbound_call(msg, at, found.is_some(), out);
            }
            if is_text(method, "OPTIONS") {
                self.answer_request(msg, at.addr, 200, "OK", out);
            } else if is_text(method, "BYE") || is_text(method, "CANCEL") {
                self.handle_hangup(msg, at.addr, found, out);
            } else if !is_text(method, "ACK") {
                self.answer_request(msg, at.addr, 501, "Not Implemented", out);
            }
            return None;
        }
        let code: u16 = match msg.status_code() {
            Some(code) => code,
            None => return None,
        };
        if let Some(of) = msg.cseq_method() {
            if is_text(of, "REGISTER") {
                self.handle_register_response(msg, code, at.now, cnonce, out);
            } else if is_text(of, "OPTIONS") {
                if 200 <= code && code <= 299 {
                    let mut seen: String = "OPTIONS ".to_owned();
                    seen.append(text::decimal_string(code as u64).as_str());
                    seen.append(" from ");
                    seen.append(at.addr_text.as_str());
                    self.last_rx = Some(seen);
                }
            } else if is_text(of, "INVITE") {
                self.handle_invite_response(found, msg, code, at.sdp_ip, cnonce, out);
            }
        }
        None
    }

    /// Handles a SIP message. An INVITE that can be put through is returned.
    pub fn handle_sip_message(&mut self, msg: &SipMessage, at: &Arrival, out: &mut Outbox) -> (r:
        Option<InboundOffer>)
        requires
            old(self).wf(),
        ensures
            exists|found: Option<u128>, id: u128|
                #[trigger] model::located(old(self)@, msg@.call_id(), found)
                    && #[trigger] ident::is_random_uuid(id) && final(self).took(
                    *final(out),
                    old(out)@,
                    model::message_step(old(self)@, msg@, at@, found, ident::cnonce_of(id)).0,
                ) && setup::opt_offer(r) == model::message_step(
                    old(self)@,
                    msg@,
                    at@,
                    found,
                    ident::cnonce_of(id),
                ).1,
    {
        let found: Option<u128> = self.find_dialog_by_call_id(msg.call_id());
        let challenged: bool = match msg.status_code() {
            Some(code) => code == 401 || code == 407,
            None => false,
        };
        let cnonce: String = if challenged {
            ident::fresh_cnonce()
        } else {
            String::new()
        };
        proof {
            let id = if challenged {
                choose|id: u128| #[trigger]
                    ident::is_random_uuid(id) && cnonce@ == ident::cnonce_of(id)
            } else {
                ident::lemma_some_random_uuid()
            };
            assert(ident::is_random_uuid(id));
            if !challenged {
                lemma_nonce_unused(self@, msg@, at@, found, cnonce@, ident::cnonce_of(id));
            }
        }
        self.dispatch_sip_message(msg, at, found, cnonce.as_str(), out)
    }

    /// Notes that a SIP message has arrived, and handles it.
    pub fn receive(&mut self, msg: &SipMessage, at: &Arrival, out: &mut Outbox) -> (r: Option<
        InboundOffer,
    >)
        requires
            old(self).wf(),
        ensures
            exists|found: Option<u128>, id: u128|
                #[trigger] model::located(old(self)@, msg@.call_id(), found)
                    && #[trigger] ident::is_random_uuid(id) && final(self).took(
                    *final(out),
                    old(out)@,
                    model::message_step(
                        model::message_noted(old(self)@, msg@, at@),
                        msg@,
                        at@,
                        found,
                        ident::cnonce_of(id),
                    ).0,
                ) && setup::opt_offer(r) == model::message_step(
                    model::message_noted(old(self)@, msg@, at@),
                    msg@,
                    at@,
                    found,
                    ident::cnonce_of(id),
                ).1,
    {
        let ghost s = self@;
        let mut seen: String = msg.start_line.clone();
        seen.append(" from ");
        seen.append(at.addr_text.as_str());
        self.last_rx = Some(seen);
        let r = self.handle_sip_message(msg, at, out);
        proof {
            let noted = model::message_noted(s, msg@, at@);
            let (found, id) = choose|found: Option<u128>, id: u128|
                #[trigger] model::located(noted, msg@.call_id(), found)
                    && #[trigger] ident::is_random_uuid(id) && self.took(
                    *out,
                    old(out)@,
                    model::message_step(noted, msg@, at@, found, ident::cnonce_of(id)).0,
                ) && setup::opt_offer(r) == model::message_step(
                    noted,
                    msg@,
                    at@,
                    found,
                    ident::cnonce_of(id),
                ).1;
            assert(model::located(s, msg@.call_id(), found));
            assert(ident::is_random_uuid(id));
        }
        r
    }
}

/// The client nonce matters only to a message that may ask for authentication.
proof fn lemma_nonce_unused(
    s: EntityModel,
    msg: sip::MessageModel,
    at: model::ArrivalModel,
    found: Option<u128>,
    a: text::Text,
    b: text::Text,
)
    requires
        !model::may_challenge(msg),
    ensures
        model::message_step(s, msg, at, found, a) == model::message_step(s, msg, at, found, b),
{
}

} // verus!

//! Calls: the requests and responses of dialogs, and how dialogs begin and end.
use vstd::prelude::*;
use crate::dialog::{DialogState, SipDialog, SipDialogSnapshot};
use crate::entity::AsteriskEntity;
use crate::fields::SipRequestContext;
use crate::ident;
use crate::model;
use crate::net::SocketAddr;
use crate::request;
use crate::signal::{Action, CallControl, NetworkCircuitCall, Outbox};
use crate::sip;
use crate::sip::SipMessage;
use crate::text;

verus! {

/// How a message about a call is logged.
pub(crate) fn format_about(what: &str, uuid: u128) -> (r: String)
    ensures
        r@ == model::about(what@, uuid),
{
    let mut out: String = what.to_owned();
    out.append(" ");
    out.append(ident::format_uuid(uuid).as_str());
    out
}

/// A status code and its reason.
fn format_status(code: u16, reason: &str) -> (r: String)
    ensures
        r@ == model::status(code, reason@),
{
    let mut out: String = text::decimal_string(code as u64);
    out.append(" ");
    out.append(reason);
    out
}

impl AsteriskEntity {
    // -----------------------------------------------------------------------------------------
    // Requests and responses

    /// The INVITE of a dialog, in a transaction that the dialog then remembers: CANCEL and any
    /// non-2xx ACK have to run in this very transaction.
    pub fn build_invite(&mut self, uuid: u128, cnonce: &str) -> (r: Option<String>)
        requires
            old(self).wf(),
        ensures
            final(self).wf(),
            final(self)@ == model::invite_step(old(self)@, uuid, cnonce@).state,
            match r {
                Some(request) => old(self)@.dialogs.contains_key(uuid) && request@
                    == model::invite_request(old(self)@, uuid, cnonce@),
                None => !old(self)@.dialogs.contains_key(uuid),
            },
    {
        let ghost s = self@;
        let mut dialog: SipDialog = match self.dialogs.remove(uuid) {
            Some(dialog) => dialog,
            None => {
                assert(self@ =~= s);
                return None;
            },
        };
        let snapshot: SipDialogSnapshot = SipDialogSnapshot::from_dialog(&dialog);
        let branch: String = self.next_branch();
        let request: String = request::format_invite(
            &self.config,
            &snapshot,
            branch.as_str(),
            dialog.rtp.local_port,
            &dialog.auth,
            cnonce,
        );
        dialog.invite_branch = branch;
        self.dialogs.insert(uuid, dialog);
        Some(request)
    }

    /// Sends the INVITE of a dialog.
    pub fn send_invite(&mut self, uuid: u128, cnonce: &str, out: &mut Outbox)
        requires
            old(self).wf(),
        ensures
            final(self).took(
                *final(out),
                old(out)@,
                model::invite_step(old(self)@, uuid, cnonce@),
            ),
    {
        if let Some(request) = self.build_invite(uuid, cnonce) {
            out.send(request, self.remote, format_about("INVITE", uuid));
        }
    }

    /// Sends the CANCEL or BYE of a dialog. Inbound dialogs answer back to whoever sent the
    /// INVITE, not to the configured peer.
    pub fn send_bye_or_cancel(&mut self, uuid: u128, cancel: bool, out: &mut Outbox)
        requires
            old(self).wf(),
        ensures
            final(self).took(
                *final(out),
                old(out)@,
                model::teardown_step(old(self)@, uuid, cancel),
            ),
    {
        let snapshot: SipDialogSnapshot = match self.dialogs.get(uuid) {
            Some(dialog) => SipDialogSnapshot::from_dialog(dialog),
            None => return,
        };
        let fresh_branch: String = self.next_branch();
        let request: String = request::format_teardown(
            &self.config,
            &snapshot,
            cancel,
            fresh_branch.as_str(),
        );
        let method: &str = if cancel {
            "CANCEL"
        } else {
            "BYE"
        };
        let dest: SocketAddr = match snapshot.peer_addr {
            Some(addr) => addr,
            None => self.remote,
        };
        out.send(request, dest, format_about(method, uuid));
    }

    /// Answers a request without a body.
    pub(crate) fn refuse(&self, ctx: &SipRequestContext, code: u16, reason: &str, out: &mut Outbox)
        ensures
            final(out)@ == old(out)@ + model::refuse(self@, ctx@, code, reason@).actions,
    {
        let tag: Option<&str> = if code == 100 {
            None
        } else {
            Some("flowstation")
        };
        let response: String = self.build_response(ctx, code, reason, tag, None);
        out.send(response, ctx.addr, format_status(code, reason));
    }

    /// Answers a request, if it has the headers that a response repeats.
    pub fn answer_request(
        &self,
        msg: &SipMessage,
        addr: SocketAddr,
        code: u16,
        reason: &str,
        out: &mut Outbox,
    )
        ensures
            final(out)@ == old(out)@ + model::answer_step(
                self@,
                msg@,
                addr,
                code,
                reason@,
            ).actions,
    {
        if let Some(ctx) = Self::request_context(msg, addr) {
            self.refuse(&ctx, code, reason, out);
        }
    }

    /// Answers the INVITE of a call that came in.
    pub fn send_invite_response(
        &self,
        uuid: u128,
        code: u16,
        reason: &str,
        body: Option<&str>,
        out: &mut Outbox,
    )
        ensures
            final(out)@ == old(out)@ + model::invite_response_step(
                self@,
                uuid,
                code,
                reason@,
                sip::opt_text(body),
            ).actions,
    {
        if let Some(dialog) = self.dialogs.get(uuid) {
            if let Some(ctx) = &dialog.request_context {
                let typed: Option<(&str, &str)> = match body {
                    Some(b) => Some(("application/sdp", b)),
                    None => None,
                };
                let response: String = self.build_response(
                    ctx,
                    code,
                    reason,
                    Some(dialog.local_tag.as_str()),
                    typed,
                );
                out.send(
                    response,
                    ctx.addr,
                    format_about(format_status(code, reason).as_str(), uuid),
                );
            }
        }
    }

    /// Acknowledges a final response that ended the INVITE transaction (401, 407, 3xx to 6xx).
    /// The response carries a To tag that was not seen before; the ACK echoes it back.
    pub fn ack_non_2xx(&self, uuid: u128, msg: &SipMessage, summary: &str, out: &mut Outbox)
        ensures
            final(out)@ == old(out)@ + model::ack_non_2xx_step(
                self@,
                uuid,
                msg@,
                summary@,
            ).actions,
    {
        if let Some(dialog) = self.dialogs.get(uuid) {
            let mut snapshot: SipDialogSnapshot = SipDialogSnapshot::from_dialog(dialog);
            if let Some(tag) = Self::parse_to_tag(msg.header("To")) {
                snapshot.remote_tag = Some(tag);
            }
            let ack: String = self.build_ack(
                &snapshot,
                snapshot.invite_branch.as_str(),
                snapshot.cseq,
            );
            out.send(ack, self.remote, summary.to_owned());
        }
    }

    // -----------------------------------------------------------------------------------------
    // The end of calls

    /// Forgets a dialog, with its timeslot and its RTP port.
    pub fn drop_dialog(&mut self, uuid: u128, out: &mut Outbox)
        requires
            old(self).wf(),
        ensures
            final(self).took(*final(out), old(out)@, model::drop_step(old(self)@, uuid)),
    {
        let ghost s = self@;
        match self.dialogs.remove(uuid) {
            Some(dialog) => {
                if let Some((_, carrier_num, ts)) = dialog.media_ready {
                    self.rtp_by_ts.remove(carrier_num, ts);
                }
                out.push(Action::CloseMedia(uuid));
            },
            None => {
                assert(self@ =~= s);
            },
        }
    }

    /// Ends a call. An outbound INVITE that has just been cancelled is still alive at the far
    /// end until its final response arrives: forgetting the dialog here would lose that
    /// response, and if the callee answered in the meantime, the 200 OK would match nothing and
    /// never be acknowledged. So it is kept until the INVITE transaction really ends.
    pub fn release_dialog(&mut self, uuid: u128, from_cmce: bool, now: u64, out: &mut Outbox)
        requires
            old(self).wf(),
        ensures
            final(self).took(
                *final(out),
                old(out)@,
                model::release_step(old(self)@, uuid, from_cmce, now),
            ),
    {
        let (cancel, inbound): (bool, bool) = match self.dialogs.get(uuid) {
            Some(dialog) => (dialog.state != DialogState::Established, dialog.inbound),
            None => return,
        };
        if from_cmce {
            if inbound && cancel {
                self.send_invite_response(uuid, 480, "Temporarily Unavailable", None, out);
            } else {
                self.send_bye_or_cancel(uuid, cancel, out);
            }
        }
        if from_cmce && cancel && !inbound {
            if let Some(mut dialog) = self.dialogs.remove(uuid) {
                if let Some((_, carrier_num, ts)) = dialog.media_ready {
                    self.rtp_by_ts.remove(carrier_num, ts);
                }
                dialog.media_ready = None;
                dialog.state = DialogState::Cancelling;
                dialog.released_at = Some(now);
                self.dialogs.insert(uuid, dialog);
            }
            return;
        }
        self.drop_dialog(uuid, out);
    }

    // -----------------------------------------------------------------------------------------
    // What CMCE says of calls

    /// Whether `uuid` is a call from the network.
    fn is_inbound(&self, uuid: u128) -> (r: bool)
        ensures
            r == model::is_inbound(self@, uuid),
    {
        match self.dialogs.get(uuid) {
            Some(dialog) => dialog.inbound,
            None => false,
        }
    }

    /// CMCE accepts a call: nothing is left to do. Says whether it is a call from the network.
    pub fn handle_inbound_setup_accept(&self, uuid: u128) -> (r: bool)
        ensures
            r == model::is_inbound(self@, uuid),
    {
        self.is_inbound(uuid)
    }

    /// CMCE rejects a call from the network.
    pub fn handle_inbound_setup_reject(&mut self, uuid: u128, cause: u8, out: &mut Outbox)
        requires
            old(self).wf(),
        ensures
            final(self).took(
                *final(out),
                old(out)@,
                model::setup_reject_step(old(self)@, uuid, cause),
            ),
    {
        if !self.is_inbound(uuid) {
            return;
        }
        let (code, reason): (u16, &str) = match cause {
            2 => (486, "Busy Here"),
            3 => (404, "Not Found"),
            5 => (503, "Service Unavailable"),
            _ => (480, "Temporarily Unavailable"),
        };
        self.send_invite_response(uuid, code, reason, None, out);
        self.release_dialog(uuid, false, 0, out);
    }

    /// The radio of a call from the network rings.
    pub fn handle_inbound_alert(&mut self, uuid: u128, out: &mut Outbox)
        requires
            old(self).wf(),
        ensures
            final(self).took(*final(out), old(out)@, model::alert_step(old(self)@, uuid)),
    {
        if !self.is_inbound(uuid) {
            return;
        }
        if let Some(mut dialog) = self.dialogs.remove(uuid) {
            dialog.state = DialogState::Ringing;
            self.dialogs.insert(uuid, dialog);
        }
        self.send_invite_response(uuid, 180, "Ringing", None, out);
    }

    /// The radio of a call from the network answers.
    pub fn handle_inbound_connect_request(
        &mut self,
        uuid: u128,
        call: NetworkCircuitCall,
        out: &mut Outbox,
    )
        requires
            old(self).wf(),
        ensures
            final(self).took(
                *final(out),
                old(out)@,
                model::connect_request_step(old(self)@, uuid, call@),
            ),
    {
        let (inbound, rtp_port): (bool, u16) = match self.dialogs.get(uuid) {
            Some(dialog) => (dialog.inbound, dialog.rtp.local_port),
            None => (false, 0),
        };
        if !inbound {
            return;
        }
        let body: String = self.build_sdp(rtp_port);
        if let Some(mut dialog) = self.dialogs.remove(uuid) {
            dialog.call = call;
            dialog.state = DialogState::Established;
            self.dialogs.insert(uuid, dialog);
        }
        self.send_invite_response(uuid, 200, "OK", Some(body.as_str()), out);
        out.control(
            CallControl::NetworkCircuitConnectConfirm { brew_uuid: uuid, grant: 0, permission: 0 },
        );
    }

    /// The circuit of a call is up. Playout starts now: what arrived while the circuit was still
    /// coming up is dropped.
    pub fn mark_media_ready(
        &mut self,
        uuid: u128,
        call_id: u16,
        carrier_num: u16,
        ts: u8,
        out: &mut Outbox,
    )
        requires
            old(self).wf(),
        ensures
            final(self).took(
                *final(out),
                old(out)@,
                model::media_ready_step(old(self)@, uuid, call_id, carrier_num, ts),
            ),
    {
        let ghost s = self@;
        match self.dialogs.remove(uuid) {
            Some(mut dialog) => {
                out.push(Action::ResetDownlink(uuid));
                dialog.media_ready = Some((call_id, carrier_num, ts));
                self.dialogs.insert(uuid, dialog);
                self.rtp_by_ts.insert(carrier_num, ts, uuid);
            },
            None => {
                assert(self@ =~= s);
            },
        }
    }
}

} // verus!

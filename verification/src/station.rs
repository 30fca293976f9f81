//! What the station asks of the bridge, the audio of calls, and what time brings.
use vstd::prelude::*;
use crate::dialog::SipDialog;
use crate::entity::AsteriskEntity;
use crate::ident;
use crate::media;
use crate::media::{MediaTask, TdmaTime};
use crate::model;
use crate::model::{EntityModel, FollowUpModel};
use crate::net::SocketAddr;
use crate::request;
use crate::signal::{CallControl, NetworkCircuitCall, Outbox, SapMsg, SapMsgInner};
use crate::tables;
use crate::text;
use crate::text::Text;

verus! {

/// What is left to do outside the bridge after a message of the station.
pub enum FollowUp {
    /// Nothing.
    Done,
    /// Find an RTP port and a codec for a call from a radio.
    Place { uuid: u128, call: NetworkCircuitCall, number: String },
    /// Send a block of voice to the peer of a call.
    Voice { uuid: u128, remote: SocketAddr, ts: u8, data: Vec<u8> },
}

impl View for FollowUp {
    type V = FollowUpModel;

    open spec fn view(&self) -> FollowUpModel {
        match self {
            FollowUp::Done => FollowUpModel::Done,
            FollowUp::Place { uuid, call, number } => FollowUpModel::Place {
                uuid: *uuid,
                call: call@,
                number: number@,
            },
            FollowUp::Voice { uuid, remote, ts, data } => FollowUpModel::Voice {
                uuid: *uuid,
                remote: *remote,
                ts: *ts,
                data: data@,
            },
        }
    }
}

/// Whether something is due that is done every `secs` seconds.
fn is_due(last: Option<u64>, now: u64, secs: u64) -> (r: bool)
    ensures
        r == model::due(last, now, secs as nat),
{
    match last {
        Some(last) => tables::time_since(now, last) as u128 >= secs as u128 * 1_000_000_000,
        None => true,
    }
}

impl AsteriskEntity {
    // -----------------------------------------------------------------------------------------
    // Messages of the station

    /// Handles a message of the station, and says what is left to do.
    pub fn rx_prim(&mut self, message: SapMsg, now: u64, out: &mut Outbox) -> (r: FollowUp)
        requires
            old(self).wf(),
        ensures
            final(self).took(
                *final(out),
                old(out)@,
                model::station_step(old(self)@, message@.msg, now).0,
            ),
            r@ == model::station_step(old(self)@, message@.msg, now).1,
    {
        match message.msg {
            SapMsgInner::CmceCallControl(control) => {
                match control {
                    CallControl::NetworkCircuitSetupRequest { brew_uuid, call } => {
                        if let Some(number) = self.start_outbound_call(brew_uuid, &call, out) {
                            return FollowUp::Place { uuid: brew_uuid, call, number };
                        }
                    },
                    CallControl::NetworkCircuitSetupAccept { brew_uuid } => {
                        let _ = self.handle_inbound_setup_accept(brew_uuid);
                    },
                    CallControl::NetworkCircuitSetupReject { brew_uuid, cause } => {
                        self.handle_inbound_setup_reject(brew_uuid, cause, out);
                    },
                    CallControl::NetworkCircuitAlert { brew_uuid } => {
                        self.handle_inbound_alert(brew_uuid, out);
                    },
                    CallControl::NetworkCircuitConnectRequest { brew_uuid, call } => {
                        self.handle_inbound_connect_request(brew_uuid, call, out);
                    },
                    CallControl::NetworkCircuitMediaReady {
                        brew_uuid,
                        call_id,
                        carrier_num,
                        ts,
                    } => {
                        self.mark_media_ready(brew_uuid, call_id, carrier_num, ts, out);
                    },
                    CallControl::NetworkCircuitRelease { brew_uuid, .. } => {
                        self.release_dialog(brew_uuid, true, now, out);
                    },
                    CallControl::NetworkCircuitConnectConfirm { .. }
                    | CallControl::NetworkCircuitDtmf { .. } => {},
                }
                FollowUp::Done
            },
            SapMsgInner::TmdCircuitDataInd(prim) => {
                match self.handle_ul_voice(prim.carrier_num, prim.ts) {
                    Some((uuid, remote)) => FollowUp::Voice {
                        uuid,
                        remote,
                        ts: prim.ts,
                        data: prim.data,
                    },
                    None => FollowUp::Done,
                }
            },
            SapMsgInner::TmdCircuitDataReq(_) => FollowUp::Done,
        }
    }

    // -----------------------------------------------------------------------------------------
    // Audio

    /// Where the voice of a timeslot goes: the call that it carries, and the peer of that call.
    pub fn handle_ul_voice(&self, carrier_num: u16, ts: u8) -> (r: Option<(u128, SocketAddr)>)
        ensures
            r == model::uplink_target(self@, carrier_num, ts),
    {
        match self.rtp_by_ts.get(carrier_num, ts) {
            Some(uuid) => match self.dialogs.get(uuid) {
                Some(dialog) => match dialog.rtp.remote {
                    Some(remote) => Some((uuid, remote)),
                    None => None,
                },
                None => None,
            },
            None => None,
        }
    }

    /// Notes that a block of voice of a call goes out, and says whether a talkspurt begins.
    pub fn voice_goes_out(&mut self, uuid: u128, now: u64) -> (r: bool)
        requires
            old(self).wf(),
        ensures
            final(self).wf(),
            final(self)@ == model::voice_step(old(self)@, uuid, now).0,
            r == model::voice_step(old(self)@, uuid, now).1,
    {
        let ghost s = self@;
        let mut dialog: SipDialog = match self.dialogs.remove(uuid) {
            Some(dialog) => dialog,
            None => {
                assert(self@ =~= s);
                return false;
            },
        };
        let begins: bool = match dialog.rtp.last_tx {
            Some(last) => tables::time_since(now, last) > media::TALKSPURT_GAP,
            None => true,
        };
        dialog.rtp.last_tx = Some(now);
        self.dialogs.insert(uuid, dialog);
        assert(self@ =~= model::voice_step(s, uuid, now).0);
        begins
    }

    /// Decides on an RTP packet that arrives on the port of a call, and says whether its audio
    /// is taken. Latching onto any sender would let anyone who found the port inject or steal
    /// audio; a changed port of the same host is allowed (symmetric RTP).
    pub fn accept_audio(&mut self, uuid: u128, payload_type: u8, from: SocketAddr) -> (r: bool)
        requires
            old(self).wf(),
        ensures
            final(self).wf(),
            final(self)@ == model::audio_step(old(self)@, uuid, payload_type, from).0,
            r == model::audio_step(old(self)@, uuid, payload_type, from).1,
    {
        let ghost s = self@;
        if payload_type != media::PCMU_PAYLOAD_TYPE {
            return false;
        }
        let expected: bool = match self.dialogs.get(uuid) {
            Some(dialog) => match dialog.rtp.remote {
                Some(remote) => remote.ip == from.ip,
                None => false,
            },
            None => false,
        };
        if expected {
            if let Some(mut dialog) = self.dialogs.remove(uuid) {
                dialog.rtp.remote = Some(from);
                self.dialogs.insert(uuid, dialog);
            }
        }
        assert(self@ =~= model::audio_step(s, uuid, payload_type, from).0);
        expected
    }

    /// What is to be done with the RTP ports of the calls at `now`, in some order.
    pub fn poll_rtp(&self, now: TdmaTime) -> (r: Vec<MediaTask>)
        requires
            self.wf(),
        ensures
            r@.map_values(|t: MediaTask| t.uuid).no_duplicates(),
            r@.map_values(|t: MediaTask| t.uuid).to_set() == self@.dialogs.dom(),
            forall|i: int|
                0 <= i < r@.len() ==> #[trigger] r@[i] == model::media_task(
                    self@.dialogs[r@[i].uuid],
                    now,
                ),
    {
        let keys: Vec<u128> = self.dialogs.keys();
        let mut out: Vec<MediaTask> = Vec::new();
        let mut i: usize = 0;
        while i < keys.len()
            invariant
                i <= keys@.len(),
                keys@.to_set() == self@.dialogs.dom(),
                self.wf(),
                out@.map_values(|t: MediaTask| t.uuid) == keys@.take(i as int),
                forall|j: int|
                    0 <= j < out@.len() ==> #[trigger] out@[j] == model::media_task(
                        self@.dialogs[out@[j].uuid],
                        now,
                    ),
            decreases keys@.len() - i,
        {
            let uuid: u128 = keys[i];
            assert(keys@.to_set().contains(uuid));
            let (circuit, take_block): (Option<(u16, u8)>, bool) = match self.dialogs.get(uuid) {
                Some(dialog) => match dialog.media_ready {
                    Some((_, carrier_num, ts)) => (
                        Some((carrier_num, ts)),
                        media::downlink_due(now, ts),
                    ),
                    None => (None, false),
                },
                None => (None, false),
            };
            out.push(MediaTask { uuid, circuit, take_block });
            proof {
                assert(out@.map_values(|t: MediaTask| t.uuid) =~= keys@.take(i as int).push(uuid));
                assert(keys@.take(i as int).push(uuid) =~= keys@.take(i + 1));
            }
            i = i + 1;
        }
        assert(keys@.take(keys@.len() as int) =~= keys@);
        out
    }

    /// Notes that a block of voice could not be decoded.
    pub fn voice_dropped(&mut self, uuid: u128, ts: u8, len: usize)
        requires
            old(self).wf(),
        ensures
            final(self).wf(),
            final(self)@ == model::error_noted(
                old(self)@,
                model::voice_dropped_text(uuid, ts, len as nat),
            ),
    {
        let mut msg: String =
            "AsteriskEntity: dropping unsupported TETRA audio block uuid=".to_owned();
        msg.append(ident::format_uuid(uuid).as_str());
        msg.append(" ts=");
        msg.append(text::decimal_string(ts as u64).as_str());
        msg.append(" len=");
        msg.append(text::decimal_string(len as u64).as_str());
        self.set_error(msg);
    }

    /// Notes that audio could not be sent.
    pub fn rtp_send_failed(&mut self, uuid: u128, ts: u8, err: &str)
        requires
            old(self).wf(),
        ensures
            final(self).wf(),
            final(self)@ == model::error_noted(
                old(self)@,
                model::rtp_send_failed_text(uuid, ts, err@),
            ),
    {
        let mut msg: String = "RTP send failed uuid=".to_owned();
        msg.append(ident::format_uuid(uuid).as_str());
        msg.append(" ts=");
        msg.append(text::decimal_string(ts as u64).as_str());
        msg.append(": ");
        msg.append(err);
        self.set_error(msg);
    }

    /// Notes that audio could not be received.
    pub fn rtp_receive_failed(&mut self, uuid: u128, err: &str)
        requires
            old(self).wf(),
        ensures
            final(self).wf(),
            final(self)@ == model::error_noted(
                old(self)@,
                model::rtp_receive_failed_text(uuid, err@),
            ),
    {
        let mut msg: String = "RTP receive failed uuid=".to_owned();
        msg.append(ident::format_uuid(uuid).as_str());
        msg.append(": ");
        msg.append(err);
        self.set_error(msg);
    }

    /// Notes that a SIP datagram could not be sent.
    pub fn sip_send_failed(&mut self, err: &str)
        requires
            old(self).wf(),
        ensures
            final(self).wf(),
            final(self)@ == model::error_noted(old(self)@, "SIP send failed: "@ + err@),
    {
        let mut msg: String = "SIP send failed: ".to_owned();
        msg.append(err);
        self.set_error(msg);
    }

    /// Notes that no SIP datagram could be received.
    pub fn sip_receive_failed(&mut self, err: &str)
        requires
            old(self).wf(),
        ensures
            final(self).wf(),
            final(self)@ == model::error_noted(old(self)@, "SIP receive failed: "@ + err@),
    {
        let mut msg: String = "SIP receive failed: ".to_owned();
        msg.append(err);
        self.set_error(msg);
    }

    // -----------------------------------------------------------------------------------------
    // Time

    /// Forgets the cancelled calls whose final response never showed up: they would otherwise
    /// pin their RTP ports.
    fn reap(&mut self, now: u64, out: &mut Outbox)
        requires
            old(self).wf(),
        ensures
            exists|order: Seq<u128>|
                #[trigger] model::lists(order, model::reapable(old(self)@, now))
                    && final(self).took(
                    *final(out),
                    old(out)@,
                    model::drop_all(old(self)@, order),
                ),
    {
        let ghost s = self@;
        let ghost asked = out@;
        let stale: Vec<u128> = self.dialogs.cancelled_for(now, media::CANCEL_REAP_AFTER);
        let mut i: usize = 0;
        assert(stale@.take(0) =~= Seq::<u128>::empty());
        while i < stale.len()
            invariant
                i <= stale@.len(),
                asked == old(out)@,
                self.took(*out, asked, model::drop_all(s, stale@.take(i as int))),
            decreases stale@.len() - i,
        {
            let uuid: u128 = stale[i];
            let ghost a = model::drop_all(s, stale@.take(i as int));
            self.drop_dialog(uuid, out);
            proof {
                assert(stale@.take(i + 1).drop_last() =~= stale@.take(i as int));
                assert(stale@.take(i + 1).last() == uuid);
                let b = model::drop_step(a.state, uuid);
                assert(asked + a.actions + b.actions =~= asked + (a.actions + b.actions));
            }
            i = i + 1;
        }
        proof {
            assert(stale@.take(stale@.len() as int) =~= stale@);
            assert(model::lists(stale@, model::reapable(s, now)));
        }
    }

    /// The time between two OPTIONS, in seconds.
    fn options_interval(&self) -> (r: u64)
        ensures
            r == model::options_interval(self@.config),
    {
        if self.config.options_interval_secs >= 5 {
            self.config.options_interval_secs
        } else {
            5
        }
    }

    /// Does what time has made due, with the given client nonce and the given UUID for OPTIONS.
    pub fn run_periodic_sip(&mut self, now: u64, cnonce: &str, id: u128, out: &mut Outbox)
        requires
            old(self).wf(),
        ensures
            exists|order: Seq<u128>|
                #[trigger] model::lists(order, model::reapable(old(self)@, now))
                    && final(self).took(
                    *final(out),
                    old(out)@,
                    model::periodic_step(old(self)@, now, order, cnonce@, id),
                ),
    {
        let ghost s = self@;
        let ghost asked = out@;
        self.reap(now, out);
        let ghost order = choose|order: Seq<u128>|
            #[trigger] model::lists(order, model::reapable(s, now)) && self.took(
                *out,
                asked,
                model::drop_all(s, order),
            );
        proof {
            lemma_drop_all_frame(s, order);
        }
        self.invite_rate.prune(now);
        if self.config.register && is_due(self.last_register, now, 60) {
            self.send_register(now, cnonce, out);
        }
        if is_due(self.last_options, now, self.options_interval()) {
            self.send_options(now, id, out);
        }
        proof {
            assert(model::lists(order, model::reapable(s, now)));
        }
    }

    /// Does what time has made due: forgets cancelled calls that were never answered and old
    /// INVITE counts, and sends a REGISTER and an OPTIONS if they are due.
    pub fn maybe_periodic_sip(&mut self, now: u64, out: &mut Outbox)
        requires
            old(self).wf(),
        ensures
            exists|order: Seq<u128>, nonce_id: u128, id: u128|
                #[trigger] model::lists(order, model::reapable(old(self)@, now))
                    && #[trigger] model::drawn(nonce_id, id) && final(self).took(
                    *final(out),
                    old(out)@,
                    model::periodic_step(
                        old(self)@,
                        now,
                        order,
                        ident::cnonce_of(nonce_id),
                        id,
                    ),
                ),
    {
        let ghost s = self@;
        let ghost asked = out@;
        let cnonce: String = if self.config.register && self.register_auth.is_some() && is_due(
            self.last_register,
            now,
            60,
        ) {
            ident::fresh_cnonce()
        } else {
            String::new()
        };
        let id: u128 = if is_due(self.last_options, now, self.options_interval()) {
            ident::new_v4()
        } else {
            0
        };
        let ghost nonce_id = if register_answers(s, now) {
            choose|n: u128| #[trigger] ident::is_random_uuid(n) && cnonce@ == ident::cnonce_of(n)
        } else {
            ident::lemma_some_random_uuid()
        };
        let ghost options_id = if model::options_due(s, now) {
            id
        } else {
            ident::lemma_some_random_uuid()
        };
        self.run_periodic_sip(now, cnonce.as_str(), id, out);
        proof {
            let order = choose|order: Seq<u128>|
                #[trigger] model::lists(order, model::reapable(s, now)) && self.took(
                    *out,
                    asked,
                    model::periodic_step(s, now, order, cnonce@, id),
                );
            lemma_periodic_draws(
                s,
                now,
                order,
                (cnonce@, id),
                (ident::cnonce_of(nonce_id), options_id),
            );
            assert(model::lists(order, model::reapable(s, now)));
            assert(model::drawn(nonce_id, options_id));
        }
    }
}

/// Whether a REGISTER is due that answers a challenge.
spec fn register_answers(s: EntityModel, now: u64) -> bool {
    model::register_due(s, now) && s.register_auth is Some
}

/// The client nonce matters only to a REGISTER that answers a challenge, and the UUID only to an
/// OPTIONS.
proof fn lemma_periodic_draws(
    s: EntityModel,
    now: u64,
    order: Seq<u128>,
    a: (Text, u128),
    b: (Text, u128),
)
    requires
        register_answers(s, now) ==> a.0 == b.0,
        model::options_due(s, now) ==> a.1 == b.1,
    ensures
        model::periodic_step(s, now, order, a.0, a.1) == model::periodic_step(
            s,
            now,
            order,
            b.0,
            b.1,
        ),
{
    reveal(request::register_text);
    lemma_drop_all_frame(s, order);
}

/// Forgetting dialogs changes nothing but the dialogs and the timeslots.
pub proof fn lemma_drop_all_frame(s: EntityModel, order: Seq<u128>)
    ensures
        ({
            let t = model::drop_all(s, order).state;
            t == (EntityModel { dialogs: t.dialogs, rtp_by_ts: t.rtp_by_ts, ..s })
        }),
    decreases order.len(),
{
    if order.len() > 0 {
        lemma_drop_all_frame(s, order.drop_last());
    }
}

} // verus!

//! The bridge itself.
use vstd::prelude::*;
use crate::config::CfgAsterisk;
use crate::dialog;
use crate::dialog::{DialogModel, DialogState, DialogTable};
use crate::digest;
use crate::digest::DigestChallenge;
use crate::ident;
use crate::model;
use crate::model::EntityModel;
use crate::net::{IpAddr, SocketAddr};
use crate::request;
use crate::signal::{ActionModel, Outbox, TetraEntity};
use crate::sip;
use crate::tables::{RateTable, SlotTable};

verus! {

/// The bridge between the station and an Asterisk server. What it knows of the outside world
/// is handed to it, and what it wants done it asks for.
pub struct AsteriskEntity {
    pub config: CfgAsterisk,
    pub remote: SocketAddr,
    pub allowed_peers: Vec<IpAddr>,
    pub invite_rate: RateTable,
    pub dialogs: DialogTable,
    pub rtp_by_ts: SlotTable,
    pub next_rtp_port: u16,
    pub branch_counter: u64,
    pub register_call_id: String,
    pub register_cseq: u32,
    pub register_auth: Option<DigestChallenge>,
    pub register_status: String,
    pub last_register: Option<u64>,
    pub last_options: Option<u64>,
    pub last_rx: Option<String>,
    pub last_tx: Option<String>,
    pub last_error: Option<String>,
}

impl View for AsteriskEntity {
    type V = EntityModel;

    open spec fn view(&self) -> EntityModel {
        EntityModel {
            config: self.config,
            remote: self.remote,
            allowed_peers: self.allowed_peers@,
            invite_rate: self.invite_rate@,
            dialogs: self.dialogs@,
            rtp_by_ts: self.rtp_by_ts@,
            next_rtp_port: self.next_rtp_port,
            branch_counter: self.branch_counter,
            register_call_id: self.register_call_id@,
            register_cseq: self.register_cseq,
            register_auth: digest::opt_challenge(self.register_auth),
            register_status: self.register_status@,
            last_register: self.last_register,
            last_options: self.last_options,
            last_rx: sip::opt_string(self.last_rx),
            last_tx: sip::opt_string(self.last_tx),
            last_error: sip::opt_string(self.last_error),
        }
    }
}

/// What the bridge shows of itself.
#[derive(Debug)]
pub struct AsteriskRuntimeStatus {
    pub configured: bool,
    pub enabled: bool,
    pub register_status: String,
    pub sip_listen: String,
    pub remote: String,
    pub rtp_port_range: String,
    pub codec: String,
    pub active_dialogs: usize,
    pub last_rx: Option<String>,
    pub last_tx: Option<String>,
    pub last_error: Option<String>,
}

impl AsteriskEntity {
    /// What holds of the bridge between any two events.
    pub open spec fn wf(&self) -> bool {
        self@.inv()
    }

    /// Whether `step` has led here, with its actions asked for in `out` after those in `asked`.
    pub open spec fn took(
        &self,
        out: Outbox,
        asked: Seq<ActionModel>,
        step: model::Step,
    ) -> bool {
        &&& self.wf()
        &&& self@ =~= step.state
        &&& out@ =~= asked + step.actions
    }

    /// A bridge that has done nothing yet. `remote` is the address of the server, and
    /// `allowed_peers` are further hosts that may speak SIP to it.
    pub fn new(config: CfgAsterisk, remote: SocketAddr, allowed_peers: Vec<IpAddr>) -> (r:
        AsteriskEntity)
        ensures
            r.wf(),
            exists|id: u128| #[trigger]
                ident::is_random_uuid(id) && r@ == model::initial(
                    config,
                    remote,
                    allowed_peers@,
                    id,
                ),
    {
        let id: u128 = ident::new_v4();
        Self::with_register_id(config, remote, allowed_peers, id)
    }

    /// A bridge that has done nothing yet, whose registrations are made from `id`.
    pub fn with_register_id(
        config: CfgAsterisk,
        remote: SocketAddr,
        allowed_peers: Vec<IpAddr>,
        id: u128,
    ) -> (r: AsteriskEntity)
        ensures
            r.wf(),
            r@ == model::initial(config, remote, allowed_peers@, id),
    {
        let mut register_call_id: String = "flow-reg-".to_owned();
        register_call_id.append(ident::format_uuid(id).as_str());
        register_call_id.append("@");
        register_call_id.append(config.contact_host.as_str());
        let next_rtp_port: u16 = config.rtp_port_min;
        AsteriskEntity {
            config,
            remote,
            allowed_peers,
            invite_rate: RateTable::new(),
            dialogs: DialogTable::new(),
            rtp_by_ts: SlotTable::new(),
            next_rtp_port,
            branch_counter: 1,
            register_call_id,
            register_cseq: 1,
            register_auth: None,
            register_status: "not registered".to_owned(),
            last_register: None,
            last_options: None,
            last_rx: None,
            last_tx: None,
            last_error: None,
        }
    }

    /// The entity of the station that this is.
    pub fn entity(&self) -> (r: TetraEntity)
        ensures
            r == TetraEntity::Asterisk,
    {
        TetraEntity::Asterisk
    }

    /// What the bridge shows of itself.
    pub fn refresh_status(&self) -> (r: AsteriskRuntimeStatus)
        ensures
            r.configured,
            r.enabled == self@.config.enabled,
            r.register_status@ == self@.register_status,
            r.sip_listen@ == request::host_port(
                self@.config.bind_addr@,
                self@.config.bind_port,
            ),
            r.remote@ == request::host_port(
                self@.config.remote_host@,
                self@.config.remote_port,
            ),
            r.rtp_port_range@ == request::port_range(self@.config),
            r.codec@ == self@.config.codec@,
            r.active_dialogs == model::active(self@).len(),
            sip::opt_string(r.last_rx) == self@.last_rx,
            sip::opt_string(r.last_tx) == self@.last_tx,
            sip::opt_string(r.last_error) == self@.last_error,
    {
        let mut live: Vec<DialogState> = Vec::new();
        live.push(DialogState::Inviting);
        live.push(DialogState::Ringing);
        live.push(DialogState::Established);
        let active_dialogs: usize = self.dialogs.count(&live);
        proof {
            let p = |d: DialogModel| live@.contains(d.state);
            assert forall|s: DialogState| #[trigger]
                live@.contains(s) == (s != DialogState::Released && s
                    != DialogState::Cancelling) by {
                assert(live@[0] == DialogState::Inviting);
                assert(live@[1] == DialogState::Ringing);
                assert(live@[2] == DialogState::Established);
            }
            assert(dialog::select(self@.dialogs, p) =~= model::active(self@));
        }
        AsteriskRuntimeStatus {
            configured: true,
            enabled: self.config.enabled,
            register_status: self.register_status.clone(),
            sip_listen: self.sip_listen(),
            remote: self.remote_display(),
            rtp_port_range: self.rtp_range(),
            codec: self.config.codec.clone(),
            active_dialogs,
            last_rx: digest::copy_opt(&self.last_rx),
            last_tx: digest::copy_opt(&self.last_tx),
            last_error: digest::copy_opt(&self.last_error),
        }
    }

    /// Notes an error.
    pub fn set_error(&mut self, msg: String)
        requires
            old(self).wf(),
        ensures
            final(self).wf(),
            final(self)@ == model::error_noted(old(self)@, msg@),
    {
        self.last_error = Some(msg);
    }

    /// Notes that a datagram has been sent.
    pub fn note_sent(&mut self, summary: String)
        requires
            old(self).wf(),
        ensures
            final(self).wf(),
            final(self)@ == (EntityModel { last_tx: Some(summary@), ..old(self)@ }),
    {
        self.last_tx = Some(summary);
    }

    /// The branch of a new transaction.
    pub fn next_branch(&mut self) -> (r: String)
        requires
            old(self).wf(),
        ensures
            final(self).wf(),
            final(self)@ == old(self)@.branch_used(),
            r@ == old(self)@.fresh_branch(),
    {
        let branch: String = request::format_branch(self.branch_counter);
        self.branch_counter = self.branch_counter.wrapping_add(1);
        branch
    }

    /// Registers with the server, if the bridge is to register; a challenge is answered with
    /// the client nonce `cnonce`.
    pub fn send_register(&mut self, now: u64, cnonce: &str, out: &mut Outbox)
        requires
            old(self).wf(),
        ensures
            final(self).took(
                *final(out),
                old(out)@,
                model::register_step(old(self)@, now, cnonce@),
            ),
    {
        if !self.config.register {
            self.register_status = "disabled".to_owned();
            return;
        }
        let branch: String = self.next_branch();
        let number: u32 = self.register_cseq;
        if self.register_cseq < u32::MAX {
            self.register_cseq = self.register_cseq + 1;
        }
        let request: String = request::format_register(
            &self.config,
            branch.as_str(),
            self.register_call_id.as_str(),
            number,
            &self.register_auth,
            cnonce,
        );
        self.register_status = "registering".to_owned();
        self.last_register = Some(now);
        out.send(request, self.remote, "REGISTER".to_owned());
    }

    /// Asks the server whether it is there, under a Call-ID made from `id`.
    pub fn send_options(&mut self, now: u64, id: u128, out: &mut Outbox)
        requires
            old(self).wf(),
        ensures
            final(self).took(
                *final(out),
                old(out)@,
                model::options_step(old(self)@, now, id),
            ),
    {
        let branch: String = self.next_branch();
        let request: String = request::format_options(&self.config, branch.as_str(), id);
        self.last_options = Some(now);
        out.send(request, self.remote, "OPTIONS".to_owned());
    }
}

} // verus!

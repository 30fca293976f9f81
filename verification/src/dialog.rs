//! SIP dialogs and the table of those that are alive.
use std::collections::HashMap;
use vstd::prelude::*;
use crate::digest;
use crate::digest::{ChallengeModel, DigestChallenge};
use crate::fields::{ContextModel, SipRequestContext};
use crate::net::SocketAddr;
use crate::signal::{CallModel, NetworkCircuitCall};
use crate::sip;
use crate::tables;
use crate::text;
use crate::text::Text;

verus! {

broadcast use vstd::std_specs::hash::group_hash_axioms;

/// How far a dialog has come.
#[derive(Clone, Copy, Debug, PartialEq, Eq, Structural)]
pub enum DialogState {
    Inviting,
    Ringing,
    /// CANCEL sent, still waiting for the INVITE's final response (487, or a 2xx that raced us).
    Cancelling,
    Established,
    Released,
}

/// The RTP leg of a dialog: the local port, the peer that audio goes to and may come from, and
/// when audio was last sent.
#[derive(Clone, Copy, Debug, PartialEq, Eq, Structural)]
pub struct RtpSession {
    pub local_port: u16,
    pub remote: Option<SocketAddr>,
    pub last_tx: Option<u64>,
}

/// One call between a radio and a SIP peer.
pub struct SipDialog {
    pub uuid: u128,
    pub call: NetworkCircuitCall,
    pub number: String,
    pub call_id_header: String,
    pub local_uri: String,
    pub local_tag: String,
    pub remote_tag: Option<String>,
    pub cseq: u32,
    /// Top Via branch of the INVITE. CANCEL and non-2xx ACK belong to that same transaction.
    pub invite_branch: String,
    /// Contact of the answer, i.e. where in-dialog requests must actually go.
    pub remote_target: Option<String>,
    pub auth: Option<DigestChallenge>,
    pub auth_retry_sent: bool,
    pub state: DialogState,
    pub rtp: RtpSession,
    /// Call, carrier and timeslot of the circuit, once it is up.
    pub media_ready: Option<(u16, u16, u8)>,
    pub inbound: bool,
    /// The INVITE, in a call that came in.
    pub request_context: Option<SipRequestContext>,
    /// When the call was cancelled.
    pub released_at: Option<u64>,
}

/// What a [`SipDialog`] says.
#[verifier::ext_equal]
pub struct DialogModel {
    pub uuid: u128,
    pub call: CallModel,
    pub number: Text,
    pub call_id_header: Text,
    pub local_uri: Text,
    pub local_tag: Text,
    pub remote_tag: Option<Text>,
    pub cseq: u32,
    pub invite_branch: Text,
    pub remote_target: Option<Text>,
    pub auth: Option<ChallengeModel>,
    pub auth_retry_sent: bool,
    pub state: DialogState,
    pub rtp: RtpSession,
    pub media_ready: Option<(u16, u16, u8)>,
    pub inbound: bool,
    pub request_context: Option<ContextModel>,
    pub released_at: Option<u64>,
}

/// What an optional context says.
pub open spec fn opt_context(o: Option<SipRequestContext>) -> Option<ContextModel> {
    match o {
        Some(c) => Some(c@),
        None => None,
    }
}

impl View for SipDialog {
    type V = DialogModel;

    open spec fn view(&self) -> DialogModel {
        DialogModel {
            uuid: self.uuid,
            call: self.call@,
            number: self.number@,
            call_id_header: self.call_id_header@,
            local_uri: self.local_uri@,
            local_tag: self.local_tag@,
            remote_tag: sip::opt_string(self.remote_tag),
            cseq: self.cseq,
            invite_branch: self.invite_branch@,
            remote_target: sip::opt_string(self.remote_target),
            auth: digest::opt_challenge(self.auth),
            auth_retry_sent: self.auth_retry_sent,
            state: self.state,
            rtp: self.rtp,
            media_ready: self.media_ready,
            inbound: self.inbound,
            request_context: opt_context(self.request_context),
            released_at: self.released_at,
        }
    }
}

impl DialogModel {
    /// What holds of every dialog that is alive, filed under `uuid`.
    pub open spec fn inv(self, uuid: u128) -> bool {
        &&& self.uuid == uuid
        &&& self.state != DialogState::Released
        &&& self.state == DialogState::Cancelling <==> self.released_at is Some
        &&& self.state == DialogState::Cancelling ==> !self.inbound
        &&& self.inbound <==> self.request_context is Some
        &&& self.cseq == if self.auth_retry_sent { 2u32 } else { 1u32 }
        &&& self.auth is Some <==> self.auth_retry_sent
    }

    /// Where the INVITE came from, in a call that came in.
    pub open spec fn peer_addr(self) -> Option<SocketAddr> {
        match self.request_context {
            Some(ctx) => Some(ctx.addr),
            None => None,
        }
    }
}

/// What in-dialog requests are made from.
pub struct SipDialogSnapshot {
    pub uuid: u128,
    pub number: String,
    pub call_id_header: String,
    pub local_uri: String,
    pub source_issi: Option<u32>,
    pub local_tag: String,
    pub remote_tag: Option<String>,
    pub cseq: u32,
    pub invite_branch: String,
    pub remote_target: Option<String>,
    pub peer_addr: Option<SocketAddr>,
}

/// What a [`SipDialogSnapshot`] says.
#[verifier::ext_equal]
pub struct SnapshotModel {
    pub uuid: u128,
    pub number: Text,
    pub call_id_header: Text,
    pub local_uri: Text,
    pub source_issi: Option<u32>,
    pub local_tag: Text,
    pub remote_tag: Option<Text>,
    pub cseq: u32,
    pub invite_branch: Text,
    pub remote_target: Option<Text>,
    pub peer_addr: Option<SocketAddr>,
}

impl View for SipDialogSnapshot {
    type V = SnapshotModel;

    open spec fn view(&self) -> SnapshotModel {
        SnapshotModel {
            uuid: self.uuid,
            number: self.number@,
            call_id_header: self.call_id_header@,
            local_uri: self.local_uri@,
            source_issi: self.source_issi,
            local_tag: self.local_tag@,
            remote_tag: sip::opt_string(self.remote_tag),
            cseq: self.cseq,
            invite_branch: self.invite_branch@,
            remote_target: sip::opt_string(self.remote_target),
            peer_addr: self.peer_addr,
        }
    }
}

/// The snapshot of a dialog.
pub open spec fn snapshot(d: DialogModel) -> SnapshotModel {
    SnapshotModel {
        uuid: d.uuid,
        number: d.number,
        call_id_header: d.call_id_header,
        local_uri: d.local_uri,
        source_issi: Some(d.call.source_issi),
        local_tag: d.local_tag,
        remote_tag: d.remote_tag,
        cseq: d.cseq,
        invite_branch: d.invite_branch,
        remote_target: d.remote_target,
        peer_addr: d.peer_addr(),
    }
}

impl SipDialogSnapshot {
    /// Takes a snapshot of a dialog.
    pub fn from_dialog(dialog: &SipDialog) -> (r: SipDialogSnapshot)
        ensures
            r@ == snapshot(dialog@),
    {
        let peer_addr: Option<SocketAddr> = match &dialog.request_context {
            Some(ctx) => Some(ctx.addr),
            None => None,
        };
        SipDialogSnapshot {
            uuid: dialog.uuid,
            number: dialog.number.clone(),
            call_id_header: dialog.call_id_header.clone(),
            local_uri: dialog.local_uri.clone(),
            source_issi: Some(dialog.call.source_issi),
            local_tag: dialog.local_tag.clone(),
            remote_tag: digest::copy_opt(&dialog.remote_tag),
            cseq: dialog.cseq,
            invite_branch: dialog.invite_branch.clone(),
            remote_target: digest::copy_opt(&dialog.remote_target),
            peer_addr,
        }
    }
}

/// The dialogs that are alive, by the UUID of the call.
pub struct DialogTable {
    map: HashMap<u128, SipDialog>,
}

impl View for DialogTable {
    type V = Map<u128, DialogModel>;

    closed spec fn view(&self) -> Map<u128, DialogModel> {
        Map::new(|u: u128| self.map@.contains_key(u), |u: u128| self.map@[u]@)
    }
}

/// The dialogs in `table` that satisfy `p`.
pub open spec fn select(table: Map<u128, DialogModel>, p: spec_fn(DialogModel) -> bool) -> Set<
    u128,
> {
    Set::new(|u: u128| table.contains_key(u) && p(table[u]))
}

impl DialogTable {
    /// No dialogs.
    pub fn new() -> (r: DialogTable)
        ensures
            r@ == Map::<u128, DialogModel>::empty(),
    {
        let r = DialogTable { map: HashMap::new() };
        assert(r@ =~= Map::<u128, DialogModel>::empty());
        r
    }

    /// The dialog of a call.
    pub fn get(&self, uuid: u128) -> (r: Option<&SipDialog>)
        ensures
            match r {
                Some(d) => self@.contains_key(uuid) && self@[uuid] == d@,
                None => !self@.contains_key(uuid),
            },
    {
        self.map.get(&uuid)
    }

    /// Takes a dialog out of the table.
    pub fn remove(&mut self, uuid: u128) -> (r: Option<SipDialog>)
        ensures
            final(self)@ == old(self)@.remove(uuid),
            match r {
                Some(d) => old(self)@.contains_key(uuid) && old(self)@[uuid] == d@,
                None => !old(self)@.contains_key(uuid),
            },
    {
        let r = self.map.remove(&uuid);
        assert(self@ =~= old(self)@.remove(uuid));
        r
    }

    /// Files a dialog, in place of one under the same UUID.
    pub fn insert(&mut self, uuid: u128, dialog: SipDialog)
        ensures
            final(self)@ == old(self)@.insert(uuid, dialog@),
    {
        let _ = self.map.insert(uuid, dialog);
        assert(self@ =~= old(self)@.insert(uuid, dialog@));
    }

    /// The UUIDs of the calls, in some order.
    pub fn keys(&self) -> (r: Vec<u128>)
        ensures
            r@.no_duplicates(),
            r@.to_set() == self@.dom(),
            self@.dom().finite(),
    {
        let mut out: Vec<u128> = Vec::new();
        let keys = self.map.keys();
        let ghost all = vstd::std_specs::iter::IteratorSpec::remaining(&keys).unref();
        for k in it: keys
            invariant
                it.seq().unref() == all,
                out@ == all.take(it.index()),
        {
            out.push(*k);
            assert(out@ =~= all.take(it.index() + 1));
        }
        proof {
            assert(all.take(all.len() as int) == all);
            assert(all.to_set() == self.map@.dom());
            assert(self@.dom() =~= self.map@.dom());
        }
        out
    }

    /// How many dialogs are in one of the `wanted` states.
    pub fn count(&self, wanted: &Vec<DialogState>) -> (n: usize)
        ensures
            n == select(self@, |d: DialogModel| wanted@.contains(d.state)).len(),
            n <= self@.dom().len(),
    {
        let keys: Vec<u128> = self.keys();
        let ghost p = |d: DialogModel| wanted@.contains(d.state);
        let mut n: usize = 0;
        let ghost mut found: Set<u128> = Set::empty();
        let mut i: usize = 0;
        while i < keys.len()
            invariant
                i <= keys@.len(),
                keys@.no_duplicates(),
                keys@.to_set() == self@.dom(),
                p == (|d: DialogModel| wanted@.contains(d.state)),
                found.finite(),
                n == found.len(),
                n <= i,
                forall|u: u128|
                    found.contains(u) <==> keys@.take(i as int).contains(u) && p(self@[u]),
            decreases keys@.len() - i,
        {
            let uuid: u128 = keys[i];
            let ghost seen = keys@.take(i as int);
            proof {
                assert(keys@.to_set().contains(uuid));
                assert(!seen.contains(uuid));
                assert(keys@.take(i + 1) == seen.push(uuid));
                assert forall|u: u128| #[trigger]
                    keys@.take(i + 1).contains(u) == (seen.contains(u) || u == uuid) by {
                    if seen.contains(u) {
                        let j = choose|j: int| 0 <= j < seen.len() && seen[j] == u;
                        assert(seen.push(uuid)[j] == u);
                    }
                    if u == uuid {
                        assert(seen.push(uuid)[i as int] == u);
                    }
                }
            }
            if let Some(d) = self.get(uuid) {
                let mut hit = false;
                let mut j: usize = 0;
                while j < wanted.len()
                    invariant
                        j <= wanted@.len(),
                        hit == exists|k: int| 0 <= k < j && wanted@[k] == d@.state,
                    decreases wanted@.len() - j,
                {
                    if wanted[j] == d.state {
                        hit = true;
                    }
                    j = j + 1;
                }
                assert(hit == p(self@[uuid]));
                if hit {
                    n = n + 1;
                    proof {
                        found = found.insert(uuid);
                    }
                }
            }
            i = i + 1;
        }
        proof {
            assert(keys@.take(keys@.len() as int) == keys@);
            assert forall|u: u128| found.contains(u) == select(self@, p).contains(u) by {
                assert(keys@.to_set().contains(u) == self@.contains_key(u));
            }
            assert(found =~= select(self@, p));
            keys@.unique_seq_to_set();
        }
        n
    }

    /// Some dialog with that Call-ID, in whatever case it is written.
    pub fn find_by_call_id(&self, call_id: &str) -> (r: Option<u128>)
        ensures
            match r {
                Some(u) => self@.contains_key(u) && text::same_ignoring_case(
                    self@[u].call_id_header,
                    call_id@,
                ),
                None => forall|u: u128|
                    self@.contains_key(u) ==> !text::same_ignoring_case(
                        (#[trigger] self@[u]).call_id_header,
                        call_id@,
                    ),
            },
    {
        let keys: Vec<u128> = self.keys();
        let mut i: usize = 0;
        while i < keys.len()
            invariant
                i <= keys@.len(),
                keys@.to_set() == self@.dom(),
                forall|j: int|
                    0 <= j < i ==> !text::same_ignoring_case(
                        self@[#[trigger] keys@[j]].call_id_header,
                        call_id@,
                    ),
            decreases keys@.len() - i,
        {
            assert(keys@.to_set().contains(keys@[i as int]));
            if let Some(d) = self.get(keys[i]) {
                if text::eq_ignore_case(d.call_id_header.as_str(), call_id) {
                    return Some(keys[i]);
                }
            }
            i = i + 1;
        }
        assert forall|u: u128| self@.contains_key(u) implies !text::same_ignoring_case(
            (#[trigger] self@[u]).call_id_header,
            call_id@,
        ) by {
            assert(keys@.to_set().contains(u));
            let j = choose|j: int| 0 <= j < keys@.len() && keys@[j] == u;
            assert(keys@[j] == u);
        }
        None
    }

    /// The dialogs that were cancelled at least `limit` nanoseconds ago, in some order.
    pub fn cancelled_for(&self, now: u64, limit: u64) -> (r: Vec<u128>)
        ensures
            r@.no_duplicates(),
            r@.to_set() == select(self@, |d: DialogModel| overdue(d, now, limit)),
    {
        let keys: Vec<u128> = self.keys();
        let ghost p = |d: DialogModel| overdue(d, now, limit);
        let mut out: Vec<u128> = Vec::new();
        let mut i: usize = 0;
        while i < keys.len()
            invariant
                i <= keys@.len(),
                keys@.no_duplicates(),
                keys@.to_set() == self@.dom(),
                p == (|d: DialogModel| overdue(d, now, limit)),
                out@ == keys@.take(i as int).filter(|u: u128| p(self@[u])),
            decreases keys@.len() - i,
        {
            let uuid: u128 = keys[i];
            proof {
                assert(keys@.to_set().contains(uuid));
                assert(keys@.take(i + 1) == keys@.take(i as int).push(uuid));
                keys@.take(i as int).lemma_filter_push(uuid, |u: u128| p(self@[u]));
            }
            if let Some(d) = self.get(uuid) {
                if let Some(released) = d.released_at {
                    if tables::time_since(now, released) >= limit {
                        out.push(uuid);
                    }
                }
            }
            i = i + 1;
        }
        proof {
            let q = |u: u128| p(self@[u]);
            assert(keys@.take(keys@.len() as int) == keys@);
            broadcast use vstd::seq_lib::group_filter_ensures;

            lemma_filter_no_duplicates(keys@, q);
            assert forall|u: u128| out@.to_set().contains(u) == select(self@, p).contains(u) by {
                if out@.contains(u) {
                    let j = choose|j: int| 0 <= j < out@.len() && out@[j] == u;
                    assert(q(out@[j]));
                    assert(keys@.contains(u)) by {
                        keys@.lemma_filter_contains_rev(q, u);
                    }
                    assert(keys@.to_set().contains(u));
                }
                if select(self@, p).contains(u) {
                    assert(keys@.to_set().contains(u));
                    let j = choose|j: int| 0 <= j < keys@.len() && keys@[j] == u;
                    assert(q(keys@[j]));
                }
            }
            assert(out@.to_set() =~= select(self@, p));
        }
        out
    }
}

/// Whether a dialog was cancelled at least `limit` nanoseconds ago.
pub open spec fn overdue(d: DialogModel, now: u64, limit: u64) -> bool {
    d.released_at matches Some(t) && tables::elapsed(now, t) >= limit
}

/// Filtering a list without duplicates makes none.
proof fn lemma_filter_no_duplicates(s: Seq<u128>, p: spec_fn(u128) -> bool)
    requires
        s.no_duplicates(),
    ensures
        s.filter(p).no_duplicates(),
    decreases s.len(),
{
    reveal(Seq::filter);
    if s.len() > 0 {
        let t = s.drop_last();
        lemma_filter_no_duplicates(t, p);
        if p(s.last()) {
            assert(!t.filter(p).contains(s.last())) by {
                if t.filter(p).contains(s.last()) {
                    t.lemma_filter_contains_rev(p, s.last());
                    let j = choose|j: int| 0 <= j < t.len() && t[j] == s.last();
                    assert(s[j] == s[s.len() - 1]);
                }
            }
        }
    }
}

} // verus!

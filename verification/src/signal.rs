//! What the bridge exchanges with the rest of the station, and what it asks to be done.
use vstd::prelude::*;
use crate::net::SocketAddr;
use crate::text::Text;

verus! {

/// The call time-out of a circuit call.
#[derive(Clone, Copy, Debug, PartialEq, Eq, Structural)]
pub enum CallTimeout {
    /// No time-out.
    Infinite,
    /// The time-out with this code.
    Coded(u8),
}

/// A circuit call between a radio and the network.
#[derive(Debug)]
pub struct NetworkCircuitCall {
    pub source_issi: u32,
    pub destination: u32,
    pub number: String,
    pub priority: u8,
    pub service: u8,
    pub mode: u8,
    pub duplex: u8,
    pub method: u8,
    pub communication: u8,
    pub grant: u8,
    pub permission: u8,
    pub timeout: CallTimeout,
    pub ownership: u8,
    pub queued: u8,
}

/// What a [`NetworkCircuitCall`] says.
#[verifier::ext_equal]
pub struct CallModel {
    pub source_issi: u32,
    pub destination: u32,
    pub number: Text,
    pub priority: u8,
    pub service: u8,
    pub mode: u8,
    pub duplex: u8,
    pub method: u8,
    pub communication: u8,
    pub grant: u8,
    pub permission: u8,
    pub timeout: CallTimeout,
    pub ownership: u8,
    pub queued: u8,
}

impl View for NetworkCircuitCall {
    type V = CallModel;

    open spec fn view(&self) -> CallModel {
        CallModel {
            source_issi: self.source_issi,
            destination: self.destination,
            number: self.number@,
            priority: self.priority,
            service: self.service,
            mode: self.mode,
            duplex: self.duplex,
            method: self.method,
            communication: self.communication,
            grant: self.grant,
            permission: self.permission,
            timeout: self.timeout,
            ownership: self.ownership,
            queued: self.queued,
        }
    }
}

impl Clone for NetworkCircuitCall {
    fn clone(&self) -> (r: Self)
        ensures
            r@ == self@,
    {
        NetworkCircuitCall {
            source_issi: self.source_issi,
            destination: self.destination,
            number: self.number.clone(),
            priority: self.priority,
            service: self.service,
            mode: self.mode,
            duplex: self.duplex,
            method: self.method,
            communication: self.communication,
            grant: self.grant,
            permission: self.permission,
            timeout: self.timeout,
            ownership: self.ownership,
            queued: self.queued,
        }
    }
}

/// Call control between the bridge and CMCE.
#[derive(Debug)]
pub enum CallControl {
    NetworkCircuitSetupRequest { brew_uuid: u128, call: NetworkCircuitCall },
    NetworkCircuitSetupAccept { brew_uuid: u128 },
    NetworkCircuitSetupReject { brew_uuid: u128, cause: u8 },
    NetworkCircuitAlert { brew_uuid: u128 },
    NetworkCircuitConnectRequest { brew_uuid: u128, call: NetworkCircuitCall },
    NetworkCircuitConnectConfirm { brew_uuid: u128, grant: u8, permission: u8 },
    NetworkCircuitMediaReady { brew_uuid: u128, call_id: u16, carrier_num: u16, ts: u8 },
    NetworkCircuitRelease { brew_uuid: u128, cause: u8 },
    NetworkCircuitDtmf { brew_uuid: u128, data: Vec<u8> },
}

/// What a [`CallControl`] says.
#[verifier::ext_equal]
pub enum ControlModel {
    SetupRequest { brew_uuid: u128, call: CallModel },
    SetupAccept { brew_uuid: u128 },
    SetupReject { brew_uuid: u128, cause: u8 },
    Alert { brew_uuid: u128 },
    ConnectRequest { brew_uuid: u128, call: CallModel },
    ConnectConfirm { brew_uuid: u128, grant: u8, permission: u8 },
    MediaReady { brew_uuid: u128, call_id: u16, carrier_num: u16, ts: u8 },
    Release { brew_uuid: u128, cause: u8 },
    Dtmf { brew_uuid: u128, data: Seq<u8> },
}

impl View for CallControl {
    type V = ControlModel;

    open spec fn view(&self) -> ControlModel {
        match self {
            CallControl::NetworkCircuitSetupRequest { brew_uuid, call } =>
                ControlModel::SetupRequest { brew_uuid: *brew_uuid, call: call@ },
            CallControl::NetworkCircuitSetupAccept { brew_uuid } => ControlModel::SetupAccept {
                brew_uuid: *brew_uuid,
            },
            CallControl::NetworkCircuitSetupReject { brew_uuid, cause } =>
                ControlModel::SetupReject { brew_uuid: *brew_uuid, cause: *cause },
            CallControl::NetworkCircuitAlert { brew_uuid } => ControlModel::Alert {
                brew_uuid: *brew_uuid,
            },
            CallControl::NetworkCircuitConnectRequest { brew_uuid, call } =>
                ControlModel::ConnectRequest { brew_uuid: *brew_uuid, call: call@ },
            CallControl::NetworkCircuitConnectConfirm { brew_uuid, grant, permission } =>
                ControlModel::ConnectConfirm {
                    brew_uuid: *brew_uuid,
                    grant: *grant,
                    permission: *permission,
                },
            CallControl::NetworkCircuitMediaReady { brew_uuid, call_id, carrier_num, ts } =>
                ControlModel::MediaReady {
                    brew_uuid: *brew_uuid,
                    call_id: *call_id,
                    carrier_num: *carrier_num,
                    ts: *ts,
                },
            CallControl::NetworkCircuitRelease { brew_uuid, cause } => ControlModel::Release {
                brew_uuid: *brew_uuid,
                cause: *cause,
            },
            CallControl::NetworkCircuitDtmf { brew_uuid, data } => ControlModel::Dtmf {
                brew_uuid: *brew_uuid,
                data: data@,
            },
        }
    }
}

/// A block of uplink voice from a timeslot.
#[derive(Debug)]
pub struct TmdCircuitDataInd {
    pub carrier_num: u16,
    pub ts: u8,
    pub data: Vec<u8>,
}

/// A block of downlink voice for a timeslot.
#[derive(Debug)]
pub struct TmdCircuitDataReq {
    pub carrier_num: u16,
    pub ts: u8,
    pub data: Vec<u8>,
}

/// A service access point of the station.
#[derive(Clone, Copy, Debug, PartialEq, Eq, Structural)]
pub enum Sap {
    Control,
    TmdSap,
}

/// An entity of the station.
#[derive(Clone, Copy, Debug, PartialEq, Eq, Structural)]
pub enum TetraEntity {
    Asterisk,
    Cmce,
    Umac,
}

/// What a station message carries.
#[derive(Debug)]
pub enum SapMsgInner {
    CmceCallControl(CallControl),
    TmdCircuitDataInd(TmdCircuitDataInd),
    TmdCircuitDataReq(TmdCircuitDataReq),
}

/// A message from one entity of the station to another.
#[derive(Debug)]
pub struct SapMsg {
    pub sap: Sap,
    pub src: TetraEntity,
    pub dest: TetraEntity,
    pub msg: SapMsgInner,
}

/// What a [`SapMsgInner`] says.
#[verifier::ext_equal]
pub enum BodyModel {
    Control(ControlModel),
    Uplink { carrier_num: u16, ts: u8, data: Seq<u8> },
    Downlink { carrier_num: u16, ts: u8, data: Seq<u8> },
}

/// What a [`SapMsg`] says.
#[verifier::ext_equal]
pub struct SapModel {
    pub sap: Sap,
    pub src: TetraEntity,
    pub dest: TetraEntity,
    pub msg: BodyModel,
}

impl View for SapMsgInner {
    type V = BodyModel;

    open spec fn view(&self) -> BodyModel {
        match self {
            SapMsgInner::CmceCallControl(c) => BodyModel::Control(c@),
            SapMsgInner::TmdCircuitDataInd(p) => BodyModel::Uplink {
                carrier_num: p.carrier_num,
                ts: p.ts,
                data: p.data@,
            },
            SapMsgInner::TmdCircuitDataReq(p) => BodyModel::Downlink {
                carrier_num: p.carrier_num,
                ts: p.ts,
                data: p.data@,
            },
        }
    }
}

impl View for SapMsg {
    type V = SapModel;

    open spec fn view(&self) -> SapModel {
        SapModel { sap: self.sap, src: self.src, dest: self.dest, msg: self.msg@ }
    }
}

/// Call control from the bridge to CMCE.
pub open spec fn to_cmce(control: ControlModel) -> SapModel {
    SapModel {
        sap: Sap::Control,
        src: TetraEntity::Asterisk,
        dest: TetraEntity::Cmce,
        msg: BodyModel::Control(control),
    }
}

/// A block of downlink voice from the bridge to UMAC.
pub open spec fn to_umac(carrier_num: u16, ts: u8, data: Seq<u8>) -> SapModel {
    SapModel {
        sap: Sap::TmdSap,
        src: TetraEntity::Asterisk,
        dest: TetraEntity::Umac,
        msg: BodyModel::Downlink { carrier_num, ts, data },
    }
}

/// The message that hands a block of downlink voice to UMAC.
pub fn downlink_block(carrier_num: u16, ts: u8, data: Vec<u8>) -> (r: SapMsg)
    ensures
        r@ == to_umac(carrier_num, ts, data@),
{
    SapMsg {
        sap: Sap::TmdSap,
        src: TetraEntity::Asterisk,
        dest: TetraEntity::Umac,
        msg: SapMsgInner::TmdCircuitDataReq(TmdCircuitDataReq { carrier_num, ts, data }),
    }
}

/// Something that the bridge asks to be done, in the order in which it asks.
#[derive(Debug)]
pub enum Action {
    /// Send a datagram from the SIP socket; `summary` is how to log it.
    SendSip { payload: String, dest: SocketAddr, summary: String },
    /// Report an error.
    Report(String),
    /// Put a message on the queue of the station.
    Enqueue(SapMsg),
    /// Drop the audio that has arrived for a call so far.
    ResetDownlink(u128),
    /// Close the RTP socket and the codec of a call.
    CloseMedia(u128),
}

/// What an [`Action`] says.
#[verifier::ext_equal]
pub enum ActionModel {
    SendSip { payload: Text, dest: SocketAddr, summary: Text },
    Report(Text),
    Enqueue(SapModel),
    ResetDownlink(u128),
    CloseMedia(u128),
}

impl View for Action {
    type V = ActionModel;

    open spec fn view(&self) -> ActionModel {
        match self {
            Action::SendSip { payload, dest, summary } => ActionModel::SendSip {
                payload: payload@,
                dest: *dest,
                summary: summary@,
            },
            Action::Report(msg) => ActionModel::Report(msg@),
            Action::Enqueue(msg) => ActionModel::Enqueue(msg@),
            Action::ResetDownlink(uuid) => ActionModel::ResetDownlink(*uuid),
            Action::CloseMedia(uuid) => ActionModel::CloseMedia(*uuid),
        }
    }
}

/// The actions that are still to be done.
pub struct Outbox {
    pub actions: Vec<Action>,
}

impl View for Outbox {
    type V = Seq<ActionModel>;

    open spec fn view(&self) -> Seq<ActionModel> {
        Seq::new(self.actions@.len(), |i: int| self.actions@[i]@)
    }
}

impl Outbox {
    /// Nothing to do.
    pub fn new() -> (r: Outbox)
        ensures
            r@ == Seq::<ActionModel>::empty(),
    {
        Outbox { actions: Vec::new() }
    }

    /// Adds an action at the end.
    pub fn push(&mut self, action: Action)
        ensures
            final(self)@ == old(self)@.push(action@),
    {
        self.actions.push(action);
        assert(self@ == old(self)@.push(action@));
    }

    /// Asks for a datagram to be sent.
    pub fn send(&mut self, payload: String, dest: SocketAddr, summary: String)
        ensures
            final(self)@ == old(self)@.push(
                ActionModel::SendSip { payload: payload@, dest, summary: summary@ },
            ),
    {
        self.push(Action::SendSip { payload, dest, summary });
    }

    /// Asks for call control to be handed to CMCE.
    pub fn control(&mut self, control: CallControl)
        ensures
            final(self)@ == old(self)@.push(ActionModel::Enqueue(to_cmce(control@))),
    {
        self.push(
            Action::Enqueue(
                SapMsg {
                    sap: Sap::Control,
                    src: TetraEntity::Asterisk,
                    dest: TetraEntity::Cmce,
                    msg: SapMsgInner::CmceCallControl(control),
                },
            ),
        );
    }
}

} // verus!

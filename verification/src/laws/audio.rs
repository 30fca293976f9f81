//! What holds of audio: which packets are taken, where voice goes, and when blocks are due.
use vstd::prelude::*;
use crate::dialog::{DialogModel, RtpSession};
use crate::ident;
use crate::media;
use crate::media::TdmaTime;
use crate::model;
use crate::model::{EntityModel, FollowUpModel};
use crate::net::SocketAddr;
use crate::signal;
use crate::signal::{ActionModel, BodyModel, ControlModel, Sap, SapModel, TetraEntity};
use crate::text;
use crate::text::Text;

verus! {

/// Whoever was negotiated as the audio peer of a call is heard: a packet of PCMU from its address,
/// from any port and in whatever state the call is, is taken, and audio goes to where the packet
/// came from ever after. Every other packet is refused and changes nothing.
pub proof fn law_negotiated_peers_are_heard(
    s: EntityModel,
    uuid: u128,
    payload_type: u8,
    from: SocketAddr,
)
    ensures
        ({
            let (t, taken) = model::audio_step(s, uuid, payload_type, from);
            let d = s.dialogs[uuid];
            &&& taken <==> s.dialogs.contains_key(uuid) && payload_type == 0 && (
            d.rtp.remote matches Some(peer) && peer.ip == from.ip)
            &&& taken ==> t == (EntityModel {
                dialogs: s.dialogs.insert(
                    uuid,
                    DialogModel { rtp: RtpSession { remote: Some(from), ..d.rtp }, ..d },
                ),
                ..s
            })
            &&& !taken ==> t == s
        }),
{
}

/// Where the audio peer of a call moves to another port, voice follows it there.
pub proof fn law_voice_follows_the_peer(
    s: EntityModel,
    uuid: u128,
    from: SocketAddr,
    carrier_num: u16,
    ts: u8,
    voice: Seq<u8>,
    now: u64,
)
    requires
        s.dialogs.contains_key(uuid),
        s.dialogs[uuid].rtp.remote matches Some(peer) && peer.ip == from.ip,
        s.rtp_by_ts.contains_key((carrier_num, ts)),
        s.rtp_by_ts[(carrier_num, ts)] == uuid,
    ensures
        ({
            let t = model::audio_step(s, uuid, 0, from).0;
            model::station_step(t, BodyModel::Uplink { carrier_num, ts, data: voice }, now).1
                == FollowUpModel::Voice { uuid, remote: from, ts, data: voice }
        }),
{
}

/// A block of voice goes to the audio peer of the call that its timeslot carries, unchanged; where
/// the timeslot carries no call, or the call has no audio peer, it goes nowhere. The bridge is as
/// before.
pub proof fn law_voice_goes_where_it_should(
    s: EntityModel,
    carrier_num: u16,
    ts: u8,
    voice: Seq<u8>,
    now: u64,
)
    ensures
        ({
            let (t, rest) = model::station_step(
                s,
                BodyModel::Uplink { carrier_num, ts, data: voice },
                now,
            );
            let slot = (carrier_num, ts);
            let uuid = s.rtp_by_ts[slot];
            &&& t.state == s && t.actions.len() == 0
            &&& if s.rtp_by_ts.contains_key(slot) && s.dialogs.contains_key(uuid)
                && s.dialogs[uuid].rtp.remote is Some {
                rest == FollowUpModel::Voice {
                    uuid,
                    remote: s.dialogs[uuid].rtp.remote->0,
                    ts,
                    data: voice,
                }
            } else {
                rest is Done
            }
            &&& rest == match model::uplink_target(s, carrier_num, ts) {
                Some((uuid, remote)) => FollowUpModel::Voice { uuid, remote, ts, data: voice },
                None => FollowUpModel::Done,
            }
        }),
{
}

/// Where the circuit of a call is up, its timeslot carries the call, and what audio has come
/// before is dropped. The circuit of a call that the bridge does not know has no consequence.
pub proof fn law_circuits_carry_their_call(
    s: EntityModel,
    uuid: u128,
    call_id: u16,
    carrier_num: u16,
    ts: u8,
    now: u64,
)
    ensures
        ({
            let (t, rest) = model::station_step(
                s,
                BodyModel::Control(
                    ControlModel::MediaReady { brew_uuid: uuid, call_id, carrier_num, ts },
                ),
                now,
            );
            let d = s.dialogs[uuid];
            &&& rest is Done
            &&& if s.dialogs.contains_key(uuid) {
                &&& t.state == (EntityModel {
                    dialogs: s.dialogs.insert(
                        uuid,
                        DialogModel { media_ready: Some((call_id, carrier_num, ts)), ..d },
                    ),
                    rtp_by_ts: s.rtp_by_ts.insert((carrier_num, ts), uuid),
                    ..s
                })
                &&& t.actions.len() == 1
                &&& t.actions[0] == ActionModel::ResetDownlink(uuid)
            } else {
                t.state == s && t.actions.len() == 0
            }
        }),
{
}

/// What the station says that does not concern the bridge has no consequence.
pub proof fn law_other_messages_have_no_consequence(s: EntityModel, msg: BodyModel, now: u64)
    requires
        msg is Downlink || (msg matches BodyModel::Control(control) && (control is SetupAccept
            || control is ConnectConfirm || control is Dtmf)),
    ensures
        ({
            let (t, rest) = model::station_step(s, msg, now);
            t.state == s && t.actions.len() == 0 && rest is Done
        }),
{
}

/// A talkspurt begins with the first voice of a call, and again after more than a tenth of a second
/// without voice; nothing else of the bridge changes.
pub proof fn law_talkspurts_begin_after_silence(s: EntityModel, uuid: u128, now: u64)
    ensures
        ({
            let (t, begins) = model::voice_step(s, uuid, now);
            let d = s.dialogs[uuid];
            &&& begins <==> s.dialogs.contains_key(uuid) && (d.rtp.last_tx matches Some(last)
                ==> now > last + 100_000_000)
            &&& s.dialogs.contains_key(uuid) ==> t == (EntityModel {
                dialogs: s.dialogs.insert(
                    uuid,
                    DialogModel { rtp: RtpSession { last_tx: Some(now), ..d.rtp }, ..d },
                ),
                ..s
            })
            &&& !s.dialogs.contains_key(uuid) ==> t == s
        }),
{
}

/// Voice that follows voice within a tenth of a second belongs to the same talkspurt.
pub proof fn law_talkspurts_go_on(s: EntityModel, uuid: u128, now: u64, later: u64)
    requires
        s.dialogs.contains_key(uuid),
    ensures
        ({
            let t = model::voice_step(s, uuid, now).0;
            model::voice_step(t, uuid, later).1 <==> later > now + 100_000_000
        }),
{
}

/// A block of a call is due in its timeslot, in every frame but the eighteenth; the audio of a call
/// without a circuit is for no timeslot, and none is due.
pub proof fn law_blocks_are_due_in_their_timeslot(d: DialogModel, now: TdmaTime)
    ensures
        ({
            let task = model::media_task(d, now);
            &&& task.uuid == d.uuid
            &&& match d.media_ready {
                Some((_, carrier_num, ts)) => {
                    &&& task.circuit == Some((carrier_num, ts))
                    &&& task.take_block <==> now.t == ts && now.f != 18
                },
                None => task.circuit is None && !task.take_block,
            }
        }),
        forall|ts: u8| #[trigger]
            media::takes_block(now, ts) <==> now.t == ts && now.f != 18,
{
}

/// A block for a radio is handed to UMAC as it is, for its carrier and timeslot.
pub proof fn law_blocks_go_to_umac(carrier_num: u16, ts: u8, data: Seq<u8>)
    ensures
        signal::to_umac(carrier_num, ts, data) == (SapModel {
            sap: Sap::TmdSap,
            src: TetraEntity::Asterisk,
            dest: TetraEntity::Umac,
            msg: BodyModel::Downlink { carrier_num, ts, data },
        }),
{
}

/// What is noted where audio cannot be decoded, sent or received.
pub proof fn law_audio_errors_are_described(uuid: u128, ts: u8, len: nat, err: Text)
    ensures
        model::voice_dropped_text(uuid, ts, len)
            == "AsteriskEntity: dropping unsupported TETRA audio block uuid="@
            + ident::uuid_text(uuid) + " ts="@ + text::decimal(ts as nat) + " len="@
            + text::decimal(len),
        model::rtp_send_failed_text(uuid, ts, err) == "RTP send failed uuid="@ + ident::uuid_text(
            uuid,
        ) + " ts="@ + text::decimal(ts as nat) + ": "@ + err,
        model::rtp_receive_failed_text(uuid, err) == "RTP receive failed uuid="@
            + ident::uuid_text(uuid) + ": "@ + err,
{
}

/// The search for an RTP port begins at the one that is due, if it lies in the range, and at the
/// least one otherwise; where the range is empty, the least one alone is tried.
pub proof fn law_ports_are_tried_from_the_one_that_is_due(next: u16, min: u16, max: u16)
    ensures
        media::candidate(next, min, max, 0) == if min <= next <= max {
            next
        } else {
            min
        },
        min <= max && max - min < u16::MAX ==> media::attempts(min, max) == max - min + 1,
        min > max ==> media::attempts(min, max) == 1,
{
}

/// The synchronisation source of a call is what the first four octets of its digest spell.
pub proof fn law_sources_are_spelled_by_the_digest(id: u128)
    ensures
        ({
            let digest = ident::md5_digest(ident::uuid_octets(id));
            let n = ident::ssrc_of(id);
            &&& n / 0x1000000 == digest[0]
            &&& n / 0x10000 % 0x100 == digest[1]
            &&& n / 0x100 % 0x100 == digest[2]
            &&& n % 0x100 == digest[3]
        }),
{
}

} // verus!

//! The audio side of calls: session descriptions, RTP ports, and who may send audio when.
use vstd::prelude::*;
use crate::net::{IpAddr, SocketAddr};
use crate::sip;
use crate::tables;
use crate::text;
use crate::text::Text;

verus! {

/// The RTP payload type of PCMU.
pub const PCMU_PAYLOAD_TYPE: u8 = 0;

/// Frame 18 carries no traffic, so the downlink drains 17 blocks per multiframe.
pub const TDMA_CONTROL_FRAME: u8 = 18;

/// Silence longer than this counts as a new talkspurt, so the next RTP packet gets a marker.
pub const TALKSPURT_GAP: u64 = 100_000_000;

/// RFC 3261 timer H: how long a cancelled INVITE may wait for its final response before the
/// bridge gives up on it and frees the RTP port.
pub const CANCEL_REAP_AFTER: u64 = 32_000_000_000;

/// A position in the TDMA frame structure: timeslot and frame.
#[derive(Clone, Copy, Debug, PartialEq, Eq, Structural)]
pub struct TdmaTime {
    pub t: u8,
    pub f: u8,
}

/// What is to be done with the RTP port of a call: its audio is dropped unless its circuit is up
/// on some carrier and timeslot, and a block of it may be due there.
#[derive(Clone, Copy, Debug)]
pub struct MediaTask {
    pub uuid: u128,
    pub circuit: Option<(u16, u8)>,
    pub take_block: bool,
}

// ---------------------------------------------------------------------------------------------
// Session descriptions

/// What follows `prefix` in the last line to begin with it.
pub open spec fn last_after(lines: Seq<Text>, prefix: Text) -> Option<Text>
    decreases lines.len(),
{
    if lines.len() == 0 {
        None
    } else {
        match text::after_prefix(text::trimmed(lines.last()), prefix) {
            Some(rest) => Some(rest),
            None => last_after(lines.drop_last(), prefix),
        }
    }
}

/// The first word of what follows `prefix` in the last line of `body` to begin with it.
pub open spec fn sdp_word(body: Text, prefix: Text) -> Option<Text> {
    match last_after(text::lines_of(body), prefix) {
        Some(rest) => text::nth_word(rest, 0),
        None => None,
    }
}

/// The address that a session description gives for audio.
pub open spec fn sdp_host(body: Text) -> Option<Text> {
    sdp_word(body, "c=IN IP4 "@)
}

/// The port that a session description gives for audio.
pub open spec fn sdp_port(body: Text) -> Option<nat> {
    match sdp_word(body, "m=audio "@) {
        Some(w) => text::number(w, u16::MAX as nat),
        None => None,
    }
}

/// Where a session description asks for audio, if it gives a port: at `ip`, or at `fallback`
/// if it gives no address.
pub open spec fn sdp_remote(body: Text, ip: Option<IpAddr>, fallback: IpAddr) -> Option<
    SocketAddr,
> {
    match sdp_port(body) {
        Some(port) => Some(
            SocketAddr::at(
                match ip {
                    Some(ip) => ip,
                    None => fallback,
                },
                port as u16,
            ),
        ),
        None => None,
    }
}

/// The first word of what follows `prefix` in the last line of `body` to begin with it.
fn find_sdp_word(body: &str, prefix: &str) -> (r: Option<String>)
    ensures
        sip::opt_string(r) == sdp_word(body@, prefix@),
{
    let chars: Vec<char> = text::chars_of(body);
    let lines: Vec<&[char]> = text::lines(&chars);
    let wanted: Vec<char> = text::chars_of(prefix);
    let ghost all = text::lines_of(body@);
    let mut i: usize = lines.len();
    assert(all.take(i as int) == all);
    while i > 0
        invariant
            i <= lines@.len(),
            wanted@ == prefix@,
            all == text::lines_of(body@),
            text::spelled(lines@) == all,
            last_after(all, prefix@) == last_after(all.take(i as int), prefix@),
        decreases i,
    {
        proof {
            assert(all.take(i as int).drop_last() == all.take(i - 1));
            assert(all.take(i as int).last() == lines@[i - 1]@);
        }
        i = i - 1;
        if let Some(rest) = text::strip_prefix(text::trim(lines[i]), &wanted) {
            return match text::word(rest, 0) {
                Some(w) => Some(text::string_of(w)),
                None => None,
            };
        }
    }
    None
}

/// The address that a session description gives for audio, as it is written.
pub fn sdp_connection_host(body: &str) -> (r: Option<String>)
    ensures
        sip::opt_string(r) == sdp_host(body@),
{
    find_sdp_word(body, "c=IN IP4 ")
}

/// Where a session description asks for audio; `ip` is the address that it gives, where that
/// could be read.
pub fn sdp_audio_remote(body: &str, ip: Option<IpAddr>, fallback: IpAddr) -> (r: Option<SocketAddr>)
    ensures
        r == sdp_remote(body@, ip, fallback),
{
    match find_sdp_word(body, "m=audio ") {
        Some(w) => match text::parse_number(&text::chars_of(w.as_str()), 65535) {
            Some(port) => {
                let addr: IpAddr = match ip {
                    Some(ip) => ip,
                    None => fallback,
                };
                Some(SocketAddr::new(addr, port as u16))
            },
            None => None,
        },
        None => None,
    }
}

// ---------------------------------------------------------------------------------------------
// RTP ports

/// `port`, or the least port of the range if it lies above it.
pub open spec fn into_range(port: u16, min: u16, max: u16) -> u16 {
    if port > max {
        min
    } else {
        port
    }
}

/// `port + 1`, or the greatest port if there is none greater.
pub open spec fn port_up(port: u16) -> u16 {
    if port < u16::MAX {
        (port + 1) as u16
    } else {
        port
    }
}

/// The `k`th port to try, from the one that is due.
pub open spec fn candidate(next: u16, min: u16, max: u16, k: nat) -> u16
    decreases k,
{
    if k == 0 {
        into_range(
            if next >= min {
                next
            } else {
                min
            },
            min,
            max,
        )
    } else {
        into_range(port_up(candidate(next, min, max, (k - 1) as nat)), min, max)
    }
}

/// How many ports to try.
pub open spec fn attempts(min: u16, max: u16) -> nat {
    let span = if max >= min {
        max - min
    } else {
        0
    };
    if span < u16::MAX {
        (span + 1) as nat
    } else {
        u16::MAX as nat
    }
}

/// The port that is due after `port` has been taken.
pub open spec fn port_after(port: u16, min: u16, max: u16) -> u16 {
    if port == max {
        min
    } else {
        (port + 1) as u16
    }
}

/// The ports to try, in order.
pub fn rtp_candidates(next: u16, min: u16, max: u16) -> (r: Vec<u16>)
    ensures
        r@ == Seq::new(attempts(min, max), |k: int| candidate(next, min, max, k as nat)),
{
    let span: u16 = if max >= min {
        max - min
    } else {
        0
    };
    let n: u16 = if span < u16::MAX {
        span + 1
    } else {
        u16::MAX
    };
    let mut port: u16 = if next >= min {
        next
    } else {
        min
    };
    if port > max {
        port = min;
    }
    let mut out: Vec<u16> = Vec::new();
    let mut k: u16 = 0;
    while k < n
        invariant
            k <= n,
            n == attempts(min, max),
            port == candidate(next, min, max, k as nat),
            out@ == Seq::new(k as nat, |j: int| candidate(next, min, max, j as nat)),
        decreases n - k,
    {
        out.push(port);
        if port < u16::MAX {
            port = port + 1;
        }
        if port > max {
            port = min;
        }
        k = k + 1;
        assert(out@ =~= Seq::new(k as nat, |j: int| candidate(next, min, max, j as nat)));
    }
    out
}

// ---------------------------------------------------------------------------------------------
// Audio

/// Whether the downlink takes a block of the timeslot `ts` at `now`: once per traffic frame.
pub open spec fn takes_block(now: TdmaTime, ts: u8) -> bool {
    now.t == ts && now.f != TDMA_CONTROL_FRAME
}

/// Whether the downlink takes a block of the timeslot `ts` at `now`.
pub fn downlink_due(now: TdmaTime, ts: u8) -> (r: bool)
    ensures
        r == takes_block(now, ts),
{
    now.t == ts && now.f != TDMA_CONTROL_FRAME
}

/// Whether audio at `now` begins a new talkspurt, given when audio was last sent.
pub open spec fn begins_talkspurt(last_tx: Option<u64>, now: u64) -> bool {
    match last_tx {
        Some(last) => tables::elapsed(now, last) > TALKSPURT_GAP,
        None => true,
    }
}

/// Whether the bridge may take audio from `from`: PCMU, from the host that was negotiated.
pub open spec fn audio_accepted(
    remote: Option<SocketAddr>,
    payload_type: u8,
    from: SocketAddr,
) -> bool {
    payload_type == PCMU_PAYLOAD_TYPE && (remote matches Some(expected) && expected.ip == from.ip)
}

} // verus!

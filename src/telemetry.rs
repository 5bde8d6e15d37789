//! Packet assembly and the downlink frame: the checksum of the serialized
//! packet, a separator, the packet, and a line terminator.
use vstd::prelude::*;
use crate::utils::{crc8, crc8_of};

verus! {

/// Version of the telemetry packet layout.
pub const PACKET_VERSION: u8 = 1;

/// Byte between the checksum and the payload of a downlink frame.
pub const DOWNLINK_SEPARATOR: u8 = 0x20;

/// Byte that ends every downlink frame.
pub const DOWNLINK_TERMINATOR: u8 = 0x0A;

/// Bit rate of the radio link, in bits per second.
pub const LINK_BAUD: usize = 57600;

/// Frames sent per second.
pub const TICKS_PER_SECOND: usize = 4;

/// Most bytes that the link carries in one tick without falling behind, at
/// nine bits on the wire per byte.
pub const MAX_PACKET_BYTES: usize = LINK_BAUD / 9 / TICKS_PER_SECOND;

/// Bus voltage and raw current of the power sensor.
#[derive(Clone, Copy, Debug, PartialEq, Eq, Structural)]
pub struct PowerInfo {
    /// Bus voltage, in millivolts
    pub voltage: u16,
    /// Current register, as read
    pub current: u16,
}

/// One downlink packet. Each sub-record is absent when its sensor has not
/// produced a reading, which is an ordinary state, not an error.
#[derive(Clone, Copy, Debug)]
pub struct TelemetryPacket<G, E, P> {
    pub version: u8,
    pub sequence: u8,
    /// Position fix
    pub gps: Option<G>,
    /// Pressure and temperature
    pub environmental_info: Option<E>,
    /// Bus voltage and current
    pub power_info: Option<P>,
}

/// The sequence number that follows `s`: 255 wraps to 0.
pub open spec fn next_sequence(s: u8) -> u8 {
    ((s + 1) % 256) as u8
}

/// The sequence number after `n` increments from 0.
pub open spec fn sequence_after(n: nat) -> u8
    decreases n,
{
    if n == 0 {
        0
    } else {
        next_sequence(sequence_after((n - 1) as nat))
    }
}

proof fn lemma_sequence_after(n: nat)
    ensures
        sequence_after(n) == n % 256,
    decreases n,
{
    if n > 0 {
        lemma_sequence_after((n - 1) as nat);
    }
}

/// Wraparound: over 256 increments from 0 the sequence number comes back
/// to 0 exactly once, at the last of them.
pub proof fn sequence_wraparound()
    ensures
        sequence_after(256) == 0,
        forall|k: nat| 1 <= k < 256 ==> #[trigger] sequence_after(k) != 0,
{
    lemma_sequence_after(256);
    assert forall|k: nat| 1 <= k < 256 implies #[trigger] sequence_after(k) != 0 by {
        lemma_sequence_after(k);
    }
}

/// Builds one packet per tick and numbers them.
pub struct TelemetryAssembler {
    sequence: u8,
}

impl TelemetryAssembler {
    pub closed spec fn spec_sequence(&self) -> u8 {
        self.sequence
    }

    /// An assembler whose first packet has sequence number 0.
    pub fn new() -> (r: TelemetryAssembler)
        ensures
            r.spec_sequence() == 0,
    {
        TelemetryAssembler { sequence: 0 }
    }

    /// The sequence number of the next packet.
    pub fn sequence(&self) -> (r: u8)
        ensures
            r == self.spec_sequence(),
    {
        self.sequence
    }

    /// The packet of this tick, from one snapshot of each slot; the sequence
    /// number moves on, wrapping.
    pub fn assemble<G, E, P>(&mut self, gps: Option<G>, environmental_info: Option<E>, power_info: Option<P>) -> (r: TelemetryPacket<G, E, P>)
        ensures
            r.version == PACKET_VERSION,
            r.sequence == old(self).spec_sequence(),
            r.gps == gps,
            r.environmental_info == environmental_info,
            r.power_info == power_info,
            final(self).spec_sequence() == next_sequence(old(self).spec_sequence()),
    {
        let packet = TelemetryPacket {
            version: PACKET_VERSION,
            sequence: self.sequence,
            gps,
            environmental_info,
            power_info,
        };
        self.sequence = self.sequence.wrapping_add(1);
        packet
    }
}

/// The downlink frame of a serialized packet.
pub open spec fn downlink_frame(payload: Seq<u8>) -> Seq<u8> {
    seq![crc8_of(payload), DOWNLINK_SEPARATOR] + payload + seq![DOWNLINK_TERMINATOR]
}

/// Frame a serialized packet for the downlink.
pub fn encode_downlink_frame(payload: &[u8]) -> (r: Vec<u8>)
    ensures
        r@ == downlink_frame(payload@),
{
    let crc = crc8(payload);
    let mut out: Vec<u8> = Vec::new();
    out.push(crc);
    out.push(DOWNLINK_SEPARATOR);
    out.extend_from_slice(payload);
    out.push(DOWNLINK_TERMINATOR);
    assert(out@ =~= downlink_frame(payload@));
    out
}

/// Whether `crc` is the checksum of the serialized packet `payload`.
pub fn validate_payload(payload: &[u8], crc: u8) -> (r: bool)
    ensures
        r == (crc8_of(payload@) == crc),
{
    crc8(payload) == crc
}

/// The payload of a well-formed frame whose checksum matches.
pub open spec fn downlink_payload(frame: Seq<u8>) -> Option<Seq<u8>> {
    if frame.len() >= 3 && frame[1] == DOWNLINK_SEPARATOR && frame.last() == DOWNLINK_TERMINATOR
        && frame[0] == crc8_of(frame.subrange(2, frame.len() - 1)) {
        Some(frame.subrange(2, frame.len() - 1))
    } else {
        None
    }
}

/// Check a received downlink frame: its payload, or `None` where the frame
/// is malformed or its checksum does not match.
pub fn decode_downlink_frame(frame: &[u8]) -> (r: Option<Vec<u8>>)
    ensures
        r matches Some(p) ==> downlink_payload(frame@) == Some(p@),
        r is None ==> downlink_payload(frame@) is None,
{
    let n = frame.len();
    if n < 3 || frame[1] != DOWNLINK_SEPARATOR || frame[n - 1] != DOWNLINK_TERMINATOR {
        return None;
    }
    let mut payload: Vec<u8> = Vec::new();
    let mut i: usize = 2;
    while i < n - 1
        invariant
            n == frame@.len(),
            3 <= n,
            2 <= i <= n - 1,
            payload@ == frame@.subrange(2, i as int),
        decreases n - 1 - i,
    {
        payload.push(frame[i]);
        assert(payload@ =~= frame@.subrange(2, i as int + 1));
        i = i + 1;
    }
    if crc8(payload.as_slice()) != frame[0] {
        return None;
    }
    Some(payload)
}

/// Whether a serialized packet of `len` bytes is longer than one tick of
/// the link carries.
pub fn exceeds_link_budget(len: usize) -> (r: bool)
    ensures
        r == (len > MAX_PACKET_BYTES),
{
    len > MAX_PACKET_BYTES
}

/// A framed packet reads back as the same payload.
pub proof fn downlink_round_trip(payload: Seq<u8>)
    ensures
        downlink_payload(downlink_frame(payload)) == Some(payload),
{
    let f = downlink_frame(payload);
    assert(f.subrange(2, f.len() - 1) =~= payload);
}

/// Any payload, the serialization of a packet with every sub-record absent
/// among them, frames to its checksum, the separator, the payload and the
/// terminator.
pub proof fn partial_data_frame(payload: Seq<u8>)
    ensures
        downlink_frame(payload).len() == payload.len() + 3,
        downlink_frame(payload)[0] == crc8_of(payload),
        downlink_frame(payload)[1] == DOWNLINK_SEPARATOR,
{
}

} // verus!

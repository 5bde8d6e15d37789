use arowss::nmea_line::NmeaLineBuffer;
use arowss::slot::ValueSlot;
use arowss::telemetry::{
    decode_downlink_frame, encode_downlink_frame, exceeds_link_budget, validate_payload, PowerInfo,
    TelemetryAssembler, MAX_PACKET_BYTES, PACKET_VERSION,
};
use arowss::utils::crc8;

#[test]
fn slot_starts_empty() {
    let slot: ValueSlot<u32> = ValueSlot::new();
    assert_eq!(slot.get(), None);
}

#[test]
fn slot_coalesces_writes() {
    let mut slot = ValueSlot::new();
    slot.set(PowerInfo { voltage: 5000, current: 3 });
    slot.set(PowerInfo { voltage: 4900, current: 12 });
    assert_eq!(slot.get(), Some(PowerInfo { voltage: 4900, current: 12 }));
    assert_eq!(slot.get(), Some(PowerInfo { voltage: 4900, current: 12 }));
}

#[test]
fn sequence_wraps_after_256() {
    let mut assembler = TelemetryAssembler::new();
    let mut zeros = 0;
    for i in 0..256u32 {
        let p = assembler.assemble::<u8, u8, u8>(None, None, None);
        assert_eq!(p.sequence as u32, i);
        if assembler.sequence() == 0 {
            zeros += 1;
        }
    }
    assert_eq!(zeros, 1);
    assert_eq!(assembler.sequence(), 0);
}

#[test]
fn packet_from_empty_slots() {
    let gps: ValueSlot<(i32, i32)> = ValueSlot::new();
    let env: ValueSlot<(i32, i32)> = ValueSlot::new();
    let power: ValueSlot<PowerInfo> = ValueSlot::new();
    let mut assembler = TelemetryAssembler::new();
    let p = assembler.assemble(gps.get(), env.get(), power.get());
    assert_eq!(p.version, PACKET_VERSION);
    assert_eq!(p.sequence, 0);
    assert!(p.gps.is_none() && p.environmental_info.is_none() && p.power_info.is_none());
    let payload = b"{\"version\":1,\"sequence\":0,\"gps\":null}";
    let frame = encode_downlink_frame(payload);
    assert_eq!(frame.len(), payload.len() + 3);
    assert_eq!(frame[0], crc8(payload));
}

#[test]
fn packet_carries_snapshots() {
    let mut power = ValueSlot::new();
    power.set(PowerInfo { voltage: 12000, current: 40 });
    let mut assembler = TelemetryAssembler::new();
    let p = assembler.assemble::<u8, u8, PowerInfo>(None, Some(7), power.get());
    assert_eq!(p.environmental_info, Some(7));
    assert_eq!(p.power_info, Some(PowerInfo { voltage: 12000, current: 40 }));
    assert_eq!(assembler.sequence(), 1);
}

#[test]
fn downlink_frame_layout() {
    assert_eq!(encode_downlink_frame(b"{}"), vec![150, 0x20, b'{', b'}', 0x0A]);
    assert_eq!(encode_downlink_frame(b""), vec![0, 0x20, 0x0A]);
}

#[test]
fn downlink_frame_round_trip() {
    let payload = b"{\"sequence\":7}".to_vec();
    let frame = encode_downlink_frame(&payload);
    assert_eq!(decode_downlink_frame(&frame), Some(payload));
}

#[test]
fn downlink_frame_rejects_corruption() {
    let mut frame = encode_downlink_frame(b"{\"a\":1}");
    frame[3] ^= 0x01;
    assert_eq!(decode_downlink_frame(&frame), None);
    assert_eq!(decode_downlink_frame(&[0, 0x20]), None);
    assert_eq!(decode_downlink_frame(&[150, b'x', b'{', b'}', 0x0A]), None);
    assert_eq!(decode_downlink_frame(&[150, 0x20, b'{', b'}', b'x']), None);
}

#[test]
fn payload_validation() {
    assert!(validate_payload(b"{}", 150));
    assert!(!validate_payload(b"{}", 151));
}

#[test]
fn link_budget() {
    assert_eq!(MAX_PACKET_BYTES, 1600);
    assert!(!exceeds_link_budget(1600));
    assert!(exceeds_link_budget(1601));
}

#[test]
fn nmea_lines_are_split() {
    let mut lines = NmeaLineBuffer::new();
    let mut out = Vec::new();
    for b in b"$GPGGA,1\r\n$GPRMC,2\r\n" {
        if let Some(l) = lines.push_byte(*b) {
            out.push(l);
        }
    }
    assert_eq!(out, vec![b"$GPGGA,1\r".to_vec(), b"$GPRMC,2\r".to_vec()]);
}

#[test]
fn nmea_line_without_start_is_dropped() {
    let mut lines = NmeaLineBuffer::new();
    for b in b"garbage\r" {
        assert_eq!(lines.push_byte(*b), None);
    }
    assert_eq!(lines.push_byte(b'\n'), None);
    for b in b"$GPGLL\r" {
        lines.push_byte(*b);
    }
    assert_eq!(lines.push_byte(b'\n'), Some(b"$GPGLL\r".to_vec()));
}

#[test]
fn nmea_line_realigns_on_start() {
    let mut lines = NmeaLineBuffer::new();
    for b in b"xx$GPGGA" {
        lines.push_byte(*b);
    }
    assert_eq!(lines.push_byte(b'\n'), None);
    assert_eq!(lines.push_byte(b'\n'), Some(b"$GPGGA".to_vec()));
}

#[test]
fn empty_packet_serializes_with_checksum() {
    let mut assembler = TelemetryAssembler::new();
    let p = assembler.assemble::<u8, u8, PowerInfo>(None, None, None);
    let mut fields = serde_json::Map::new();
    fields.insert("version".to_string(), serde_json::Value::from(p.version));
    fields.insert("sequence".to_string(), serde_json::Value::from(p.sequence));
    fields.insert("gps".to_string(), serde_json::Value::Null);
    fields.insert("environmental_info".to_string(), serde_json::Value::Null);
    fields.insert("power_info".to_string(), serde_json::Value::Null);
    let payload = serde_json::to_vec(&serde_json::Value::Object(fields)).unwrap();
    assert!(!payload.is_empty());
    let frame = encode_downlink_frame(&payload);
    assert_eq!(frame.len(), payload.len() + 3);
    assert_eq!(frame[0], crc8(&payload));
    assert_eq!(frame[1], 0x20);
    assert_eq!(*frame.last().unwrap(), 0x0A);
    assert_eq!(decode_downlink_frame(&frame), Some(payload));
}

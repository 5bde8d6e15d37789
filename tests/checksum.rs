use arowss::runcam::{
    camera_control_request, camera_information_request, decode_camera_information, CommandIds,
    ControlActions,
};
use arowss::utils::{create_nmea_command, crc8, nmea_crc8};

#[test]
fn crc8_of_empty_is_zero() {
    assert_eq!(crc8(&[]), 0);
}

#[test]
fn crc8_known_values() {
    assert_eq!(crc8(&[71]), 201);
    assert_eq!(crc8(&[70]), 28);
    assert_eq!(crc8(b"123456789"), 188);
    assert_eq!(crc8(b"{}"), 150);
}

#[test]
fn crc8_is_deterministic() {
    let data: Vec<u8> = (0..=255u8).collect();
    assert_eq!(crc8(&data), crc8(&data));
    assert_eq!(crc8(b"telemetry"), crc8(b"telemetry"));
}

#[test]
fn crc8_detects_single_byte_change() {
    assert_ne!(crc8(&[71]), crc8(&[72]));
}

#[test]
fn nmea_checksum_is_xor() {
    assert_eq!(nmea_crc8(b""), 0);
    assert_eq!(nmea_crc8(b"PMTK220,250"), 0x29);
    assert_eq!(nmea_crc8(&[0x0F, 0xF0]), 0xFF);
}

#[test]
fn nmea_command_is_framed() {
    assert_eq!(create_nmea_command("PMTK220,250"), b"$PMTK220,250*29\r\n".to_vec());
    assert_eq!(create_nmea_command("PMTK251,38400"), b"$PMTK251,38400*27\r\n".to_vec());
}

#[test]
fn nmea_command_of_empty_body() {
    assert_eq!(create_nmea_command(""), b"$*00\r\n".to_vec());
}

#[test]
fn camera_codes() {
    assert_eq!(CommandIds::ReadCameraInformation.code(), 0x00);
    assert_eq!(CommandIds::SimulateHandshake.code(), 0x04);
    assert_eq!(ControlActions::StartRecording.code(), 0x03);
    assert_eq!(ControlActions::WifiButton.code(), 0x00);
}

#[test]
fn camera_information_request_bytes() {
    assert_eq!(camera_information_request(), vec![0xCC, 0x00, 96]);
}

#[test]
fn camera_control_request_bytes() {
    assert_eq!(camera_control_request(ControlActions::StartRecording), vec![0xCC, 0x01, 0x03, 152]);
    assert_eq!(camera_control_request(ControlActions::StopRecording), vec![0xCC, 0x01, 0x04, 204]);
}

#[test]
fn camera_information_decodes_little_endian() {
    assert_eq!(decode_camera_information(&[0xCC, 4, 0x34, 0x12, 0x00]), (4, 0x1234));
}

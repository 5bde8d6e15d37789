//! Request framing for the camera control link: every request starts with
//! a header byte and a command id, and ends with the shared 8-bit checksum
//! of the bytes before it.
use vstd::prelude::*;
use crate::utils::{crc8, crc8_of};

verus! {

/// First byte of every camera request.
pub const RUNCAM_HEADER: u8 = 0xCC;

/// Command identifiers understood by the camera.
#[derive(Clone, Copy, Debug, PartialEq, Eq, Structural)]
pub enum CommandIds {
    ReadCameraInformation,
    CameraControl,
    SimulatePress,
    SimulateRelease,
    SimulateHandshake,
}

impl CommandIds {
    pub open spec fn spec_code(self) -> u8 {
        match self {
            CommandIds::ReadCameraInformation => 0x00,
            CommandIds::CameraControl => 0x01,
            CommandIds::SimulatePress => 0x02,
            CommandIds::SimulateRelease => 0x03,
            CommandIds::SimulateHandshake => 0x04,
        }
    }

    /// The byte that stands for this command on the wire.
    pub fn code(&self) -> (r: u8)
        ensures
            r == self.spec_code(),
    {
        match self {
            CommandIds::ReadCameraInformation => 0x00,
            CommandIds::CameraControl => 0x01,
            CommandIds::SimulatePress => 0x02,
            CommandIds::SimulateRelease => 0x03,
            CommandIds::SimulateHandshake => 0x04,
        }
    }
}

/// Buttons and actions of a camera control request.
#[derive(Clone, Copy, Debug, PartialEq, Eq, Structural)]
pub enum ControlActions {
    WifiButton,
    PowerButton,
    ChangeMode,
    StartRecording,
    StopRecording,
}

impl ControlActions {
    pub open spec fn spec_code(self) -> u8 {
        match self {
            ControlActions::WifiButton => 0x00,
            ControlActions::PowerButton => 0x01,
            ControlActions::ChangeMode => 0x02,
            ControlActions::StartRecording => 0x03,
            ControlActions::StopRecording => 0x04,
        }
    }

    /// The byte that stands for this action on the wire.
    pub fn code(&self) -> (r: u8)
        ensures
            r == self.spec_code(),
    {
        match self {
            ControlActions::WifiButton => 0x00,
            ControlActions::PowerButton => 0x01,
            ControlActions::ChangeMode => 0x02,
            ControlActions::StartRecording => 0x03,
            ControlActions::StopRecording => 0x04,
        }
    }
}

/// A request: the header, the command id and its arguments, then the
/// checksum of all of those bytes.
pub open spec fn camera_request(body: Seq<u8>) -> Seq<u8> {
    body + seq![crc8_of(body)]
}

/// Bytes that ask the camera for its protocol version and feature set.
pub fn camera_information_request() -> (r: Vec<u8>)
    ensures
        r@ == camera_request(seq![RUNCAM_HEADER, CommandIds::ReadCameraInformation.spec_code()]),
{
    let mut data: Vec<u8> = Vec::new();
    data.push(RUNCAM_HEADER);
    data.push(CommandIds::ReadCameraInformation.code());
    assert(data@ =~= seq![RUNCAM_HEADER, CommandIds::ReadCameraInformation.spec_code()]);
    let crc = crc8(data.as_slice());
    data.push(crc);
    data
}

/// Bytes that ask the camera to perform `action`.
pub fn camera_control_request(action: ControlActions) -> (r: Vec<u8>)
    ensures
        r@ == camera_request(
            seq![RUNCAM_HEADER, CommandIds::CameraControl.spec_code(), action.spec_code()],
        ),
{
    let mut data: Vec<u8> = Vec::new();
    data.push(RUNCAM_HEADER);
    data.push(CommandIds::CameraControl.code());
    data.push(action.code());
    assert(data@ =~= seq![RUNCAM_HEADER, CommandIds::CameraControl.spec_code(), action.spec_code()]);
    let crc = crc8(data.as_slice());
    data.push(crc);
    data
}

/// Length of the camera's answer to an information request.
pub const CAMERA_INFORMATION_LEN: usize = 5;

/// The protocol version and the little-endian feature word of an answer to
/// an information request: a leading byte, the version, two feature bytes,
/// and a trailing checksum that is not checked.
pub fn decode_camera_information(resp: &[u8]) -> (r: (u8, u16))
    requires
        resp@.len() == CAMERA_INFORMATION_LEN,
    ensures
        r.0 == resp@[1],
        r.1 == resp@[2] as int + 256 * resp@[3] as int,
{
    let feature: u16 = resp[2] as u16 + 256 * (resp[3] as u16);
    (resp[1], feature)
}

} // verus!

//! Core of an airborne telemetry node: the checksum shared by both radio
//! links, the downlink frame codec, the uplink command receiver, the
//! coalescing value slots that decouple sensor tasks from the sender, and
//! the packet assembler.
pub mod commands;
pub mod nmea_line;
pub mod runcam;
pub mod slot;
pub mod telemetry;
pub mod utils;

//! Uplink commands: their byte codes, the actuator effect of each, and the
//! receiver that recovers 3-byte frames from the inbound byte stream.
use vstd::prelude::*;
use crate::runcam::ControlActions;
use crate::utils::{crc8, crc8_of, lemma_crc8_single_is_space};

verus! {

/// Byte that closes every uplink frame.
pub const SEPARATOR: u8 = 0x20;

/// Length of an uplink frame: command code, its checksum, separator.
pub const UPLINK_FRAME_LEN: usize = 3;

/// Commands that the ground station sends over the radio uplink.
#[derive(Clone, Copy, Debug, PartialEq, Eq, Structural)]
pub enum UplinkCommand {
    /// Switch the high-power relay on
    EnableHighPower,
    /// Switch the high-power relay off
    DisableHighPower,
    /// Start the onboard camera recording
    StartRecording,
    /// Stop the onboard camera recording
    StopRecording,
    /// Reboot the flight computer; defined on the wire, not wired to anything
    Reboot,
}

impl UplinkCommand {
    pub open spec fn spec_code(self) -> u8 {
        match self {
            UplinkCommand::EnableHighPower => 70,
            UplinkCommand::DisableHighPower => 71,
            UplinkCommand::StartRecording => 80,
            UplinkCommand::StopRecording => 81,
            UplinkCommand::Reboot => 100,
        }
    }

    pub open spec fn spec_from_u8(b: u8) -> Option<UplinkCommand> {
        if b == 70 {
            Some(UplinkCommand::EnableHighPower)
        } else if b == 71 {
            Some(UplinkCommand::DisableHighPower)
        } else if b == 80 {
            Some(UplinkCommand::StartRecording)
        } else if b == 81 {
            Some(UplinkCommand::StopRecording)
        } else if b == 100 {
            Some(UplinkCommand::Reboot)
        } else {
            None
        }
    }

    /// The byte that stands for this command on the wire.
    pub fn code(&self) -> (r: u8)
        ensures
            r == self.spec_code(),
    {
        match self {
            UplinkCommand::EnableHighPower => 70,
            UplinkCommand::DisableHighPower => 71,
            UplinkCommand::StartRecording => 80,
            UplinkCommand::StopRecording => 81,
            UplinkCommand::Reboot => 100,
        }
    }

    /// The command with code `b`, or `None` for a byte that is no command.
    pub fn from_u8(b: u8) -> (r: Option<UplinkCommand>)
        ensures
            r == Self::spec_from_u8(b),
            r matches Some(c) ==> c.spec_code() == b,
    {
        if b == 70 {
            Some(UplinkCommand::EnableHighPower)
        } else if b == 71 {
            Some(UplinkCommand::DisableHighPower)
        } else if b == 80 {
            Some(UplinkCommand::StartRecording)
        } else if b == 81 {
            Some(UplinkCommand::StopRecording)
        } else if b == 100 {
            Some(UplinkCommand::Reboot)
        } else {
            None
        }
    }

    pub open spec fn spec_action(self) -> DispatchAction {
        match self {
            UplinkCommand::EnableHighPower => DispatchAction::RelayHigh,
            UplinkCommand::DisableHighPower => DispatchAction::RelayLow,
            UplinkCommand::StartRecording => DispatchAction::Camera(ControlActions::StartRecording),
            UplinkCommand::StopRecording => DispatchAction::Camera(ControlActions::StopRecording),
            UplinkCommand::Reboot => DispatchAction::NotImplemented,
        }
    }

    /// The one actuator effect of this command.
    pub fn action(&self) -> (r: DispatchAction)
        ensures
            r == self.spec_action(),
    {
        match self {
            UplinkCommand::EnableHighPower => DispatchAction::RelayHigh,
            UplinkCommand::DisableHighPower => DispatchAction::RelayLow,
            UplinkCommand::StartRecording => DispatchAction::Camera(ControlActions::StartRecording),
            UplinkCommand::StopRecording => DispatchAction::Camera(ControlActions::StopRecording),
            UplinkCommand::Reboot => DispatchAction::NotImplemented,
        }
    }
}

/// What the dispatcher does for one command.
#[derive(Clone, Copy, Debug, PartialEq, Eq, Structural)]
pub enum DispatchAction {
    /// Drive the high-power relay pin high
    RelayHigh,
    /// Drive the high-power relay pin low
    RelayLow,
    /// Send a control request to the camera
    Camera(ControlActions),
    /// Known command without behaviour yet: log it and go on
    NotImplemented,
}

/// Codes and commands correspond one to one: a command's code decodes to
/// that command, and a byte that decodes to a command is its code.
pub proof fn uplink_code_round_trip(c: UplinkCommand, b: u8)
    ensures
        UplinkCommand::spec_from_u8(c.spec_code()) == Some(c),
        UplinkCommand::spec_from_u8(b) matches Some(d) ==> d.spec_code() == b,
{
}

/// Commands of the flight computer's command parser.
#[derive(Clone, Copy, Debug, PartialEq, Eq, Structural)]
#[non_exhaustive]
pub enum Commands {
    /// Enable the high-power radio
    EnableHighPower,
    /// Disable the high-power radio
    DisableHighPower,
    /// Forcibly reboot without waiting for any processes to finish
    Reboot,
    /// Restart the stream process
    RestartStream,
    /// Get the IP address
    GetIpAddress,
}

/// Why a command byte was refused.
#[derive(Clone, Copy, Debug, PartialEq, Eq, Structural)]
pub enum ParseErr {
    /// Command is not valid
    Invalid,
}

impl Commands {
    pub open spec fn spec_code(self) -> u8 {
        match self {
            Commands::EnableHighPower => 70,
            Commands::DisableHighPower => 80,
            Commands::Reboot => 100,
            Commands::RestartStream => 101,
            Commands::GetIpAddress => 102,
        }
    }

    pub open spec fn spec_from_u8(b: u8) -> Option<Commands> {
        if b == 70 {
            Some(Commands::EnableHighPower)
        } else if b == 80 {
            Some(Commands::DisableHighPower)
        } else if b == 100 {
            Some(Commands::Reboot)
        } else if b == 101 {
            Some(Commands::RestartStream)
        } else if b == 102 {
            Some(Commands::GetIpAddress)
        } else {
            None
        }
    }

    /// The byte that stands for this command.
    pub fn code(&self) -> (r: u8)
        ensures
            r == self.spec_code(),
    {
        match self {
            Commands::EnableHighPower => 70,
            Commands::DisableHighPower => 80,
            Commands::Reboot => 100,
            Commands::RestartStream => 101,
            Commands::GetIpAddress => 102,
        }
    }

    /// The command with code `b`, or `None` for a byte that is no command.
    pub fn from_u8(b: u8) -> (r: Option<Commands>)
        ensures
            r == Self::spec_from_u8(b),
            r matches Some(c) ==> c.spec_code() == b,
    {
        if b == 70 {
            Some(Commands::EnableHighPower)
        } else if b == 80 {
            Some(Commands::DisableHighPower)
        } else if b == 100 {
            Some(Commands::Reboot)
        } else if b == 101 {
            Some(Commands::RestartStream)
        } else if b == 102 {
            Some(Commands::GetIpAddress)
        } else {
            None
        }
    }
}

/// The command that a parser acts on for byte `data`; a byte that is no
/// command is refused, never a panic.
pub fn decode_command(data: u8) -> (r: Result<Commands, ParseErr>)
    ensures
        r == (match Commands::spec_from_u8(data) {
            Some(c) => Ok::<Commands, ParseErr>(c),
            None => Err(ParseErr::Invalid),
        }),
{
    match Commands::from_u8(data) {
        Some(c) => Ok(c),
        None => Err(ParseErr::Invalid),
    }
}

/// What one inbound byte did to the receiver.
#[derive(Clone, Copy, Debug, PartialEq, Eq, Structural)]
pub enum ReceiveEvent {
    /// The byte was kept; the frame is not complete yet
    Pending,
    /// The frame was malformed; the buffer was dropped
    Malformed,
    /// The checksum byte did not match the code; the frame was dropped
    ChecksumMismatch,
    /// A well-formed frame carried a code that is no command; it was dropped
    UnknownCode(u8),
    /// A well-formed frame carried this command
    Command(UplinkCommand),
}

/// The frame that carries command code `code`.
pub open spec fn uplink_frame(code: u8) -> Seq<u8> {
    seq![code, crc8_of(seq![code]), SEPARATOR]
}

/// One step of the receiver: the buffer after byte `b`, and what happened.
pub open spec fn receive_step(buf: Seq<u8>, b: u8) -> (Seq<u8>, ReceiveEvent) {
    let nb = buf.push(b);
    if nb.len() > UPLINK_FRAME_LEN || (nb.len() == UPLINK_FRAME_LEN && b != SEPARATOR) {
        (seq![], ReceiveEvent::Malformed)
    } else if nb.len() < UPLINK_FRAME_LEN && nb.contains(SEPARATOR) {
        (seq![], ReceiveEvent::Malformed)
    } else if nb.len() < UPLINK_FRAME_LEN {
        (nb, ReceiveEvent::Pending)
    } else if nb[1] != crc8_of(seq![nb[0]]) {
        (seq![], ReceiveEvent::ChecksumMismatch)
    } else {
        match UplinkCommand::spec_from_u8(nb[0]) {
            Some(c) => (seq![], ReceiveEvent::Command(c)),
            None => (seq![], ReceiveEvent::UnknownCode(nb[0])),
        }
    }
}

/// The commands that an event forwards to the dispatcher.
pub open spec fn forwarded(e: ReceiveEvent) -> Seq<UplinkCommand> {
    match e {
        ReceiveEvent::Command(c) => seq![c],
        _ => seq![],
    }
}

/// The buffer after feeding `bytes` one at a time from buffer `buf`, and the
/// commands forwarded on the way, in order.
pub open spec fn receive_all(buf: Seq<u8>, bytes: Seq<u8>) -> (Seq<u8>, Seq<UplinkCommand>)
    decreases bytes.len(),
{
    if bytes.len() == 0 {
        (buf, seq![])
    } else {
        let before = receive_all(buf, bytes.drop_last());
        let after = receive_step(before.0, bytes.last());
        (after.0, before.1 + forwarded(after.1))
    }
}

/// Recovers 3-byte uplink frames (code, checksum of the code, separator)
/// from a byte stream, dropping anything malformed and starting over.
pub struct CommandReceiver {
    buf: Vec<u8>,
}

impl View for CommandReceiver {
    type V = Seq<u8>;

    closed spec fn view(&self) -> Seq<u8> {
        self.buf@
    }
}

fn contains_byte(v: &Vec<u8>, x: u8) -> (r: bool)
    ensures
        r == v@.contains(x),
{
    let mut i: usize = 0;
    while i < v.len()
        invariant
            i <= v@.len(),
            forall|j: int| 0 <= j < i ==> v@[j] != x,
        decreases v@.len() - i,
    {
        if v[i] == x {
            return true;
        }
        i = i + 1;
    }
    false
}

impl CommandReceiver {
    /// A receiver with an empty buffer.
    pub fn new() -> (r: CommandReceiver)
        ensures
            r@ == Seq::<u8>::empty(),
    {
        CommandReceiver { buf: Vec::new() }
    }

    /// The bytes of the frame being assembled.
    pub fn buffer(&self) -> (r: &[u8])
        ensures
            r@ == self@,
    {
        self.buf.as_slice()
    }

    /// Feed one inbound byte.
    pub fn push_byte(&mut self, b: u8) -> (e: ReceiveEvent)
        ensures
            (final(self)@, e) == receive_step(old(self)@, b),
            final(self)@.len() < UPLINK_FRAME_LEN,
    {
        self.buf.push(b);
        let n = self.buf.len();
        if n > UPLINK_FRAME_LEN || (n == UPLINK_FRAME_LEN && b != SEPARATOR) {
            self.buf.clear();
            return ReceiveEvent::Malformed;
        }
        if n < UPLINK_FRAME_LEN {
            if contains_byte(&self.buf, SEPARATOR) {
                self.buf.clear();
                return ReceiveEvent::Malformed;
            }
            return ReceiveEvent::Pending;
        }
        let data = self.buf[0];
        let check = self.buf[1];
        self.buf.clear();
        let mut one: Vec<u8> = Vec::new();
        one.push(data);
        assert(one@ =~= seq![data]);
        if check != crc8(one.as_slice()) {
            return ReceiveEvent::ChecksumMismatch;
        }
        match UplinkCommand::from_u8(data) {
            Some(c) => ReceiveEvent::Command(c),
            None => ReceiveEvent::UnknownCode(data),
        }
    }

    /// Feed a run of inbound bytes; returns the commands recovered, in order.
    pub fn feed(&mut self, bytes: &[u8]) -> (r: Vec<UplinkCommand>)
        ensures
            (final(self)@, r@) == receive_all(old(self)@, bytes@),
    {
        let mut out: Vec<UplinkCommand> = Vec::new();
        let mut i: usize = 0;
        while i < bytes.len()
            invariant
                i <= bytes@.len(),
                (self@, out@) == receive_all(old(self)@, bytes@.subrange(0, i as int)),
            decreases bytes@.len() - i,
        {
            let e = self.push_byte(bytes[i]);
            if let ReceiveEvent::Command(c) = e {
                out.push(c);
            }
            proof {
                let done = bytes@.subrange(0, i as int + 1);
                assert(done.drop_last() =~= bytes@.subrange(0, i as int));
                assert(out@ =~= receive_all(old(self)@, done).1);
            }
            i = i + 1;
        }
        assert(bytes@.subrange(0, bytes@.len() as int) =~= bytes@);
        out
    }
}

/// Feeding two runs of bytes is feeding the first, then the second from
/// where the first left the buffer.
pub proof fn lemma_receive_all_concat(buf: Seq<u8>, a: Seq<u8>, b: Seq<u8>)
    ensures
        receive_all(buf, a + b) == (
            receive_all(receive_all(buf, a).0, b).0,
            receive_all(buf, a).1 + receive_all(receive_all(buf, a).0, b).1,
        ),
    decreases b.len(),
{
    if b.len() == 0 {
        assert(a + b =~= a);
        assert(receive_all(buf, a).1 + Seq::<UplinkCommand>::empty() =~= receive_all(buf, a).1);
    } else {
        assert((a + b).drop_last() =~= a + b.drop_last());
        lemma_receive_all_concat(buf, a, b.drop_last());
        let mid = receive_all(buf, a);
        let rest = receive_all(mid.0, b.drop_last());
        let last = receive_step(rest.0, b.last());
        assert(mid.1 + rest.1 + forwarded(last.1) =~= mid.1 + (rest.1 + forwarded(last.1)));
    }
}

/// A frame that carries code `code` with its correct checksum, fed into an
/// empty buffer, forwards the command of that code (none for an unknown
/// code) and leaves the buffer empty.
pub proof fn lemma_frame_from_empty(code: u8)
    requires
        code != SEPARATOR,
        code != 0xD0,
    ensures
        receive_all(seq![], uplink_frame(code)) == (
            Seq::<u8>::empty(),
            match UplinkCommand::spec_from_u8(code) {
                Some(c) => seq![c],
                None => Seq::<UplinkCommand>::empty(),
            },
        ),
{
    lemma_crc8_single_is_space(code);
    let f = uplink_frame(code);
    reveal_with_fuel(receive_all, 4);
    assert(f.drop_last().drop_last().drop_last() =~= Seq::<u8>::empty());
    assert(Seq::<u8>::empty().push(code) =~= seq![code]);
    assert(seq![code].push(f[1]) =~= seq![code, f[1]]);
    assert(!seq![code].contains(SEPARATOR)) by {
        assert(forall|j: int| 0 <= j < 1 ==> seq![code][j] == code);
    }
    assert(!seq![code, f[1]].contains(SEPARATOR)) by {
        assert(forall|j: int| 0 <= j < 2 ==> seq![code, f[1]][j] == code || seq![code, f[1]][j] == f[1]);
    }
    assert(f.drop_last().drop_last() =~= seq![code]);
    assert(f.drop_last() =~= seq![code, f[1]]);
    let s2 = seq![code, f[1]].push(SEPARATOR);
    assert(s2[0] == code && s2[1] == f[1]);
    assert(Seq::<UplinkCommand>::empty() + Seq::<UplinkCommand>::empty() =~= Seq::<UplinkCommand>::empty());
    match UplinkCommand::spec_from_u8(code) {
        Some(c) => {
            assert(Seq::<UplinkCommand>::empty() + seq![c] =~= seq![c]);
        },
        None => {},
    }
}

/// Round trip: the frame of any command, fed one byte at a time into a
/// fresh receiver, forwards exactly that command and leaves the buffer
/// empty for the next frame.
pub proof fn uplink_round_trip(c: UplinkCommand)
    ensures
        receive_all(seq![], uplink_frame(c.spec_code())) == (Seq::<u8>::empty(), seq![c]),
{
    lemma_frame_from_empty(c.spec_code());
}

/// The frames of a run of commands, back to back.
pub open spec fn frames_of(cs: Seq<UplinkCommand>) -> Seq<u8>
    decreases cs.len(),
{
    if cs.len() == 0 {
        Seq::<u8>::empty()
    } else {
        frames_of(cs.drop_last()) + uplink_frame(cs.last().spec_code())
    }
}

/// Order is kept: the frames of any run of commands, fed into a fresh
/// receiver, forward exactly those commands in the order they were sent.
pub proof fn commands_in_order(cs: Seq<UplinkCommand>)
    ensures
        receive_all(seq![], frames_of(cs)) == (Seq::<u8>::empty(), cs),
    decreases cs.len(),
{
    if cs.len() == 0 {
        assert(cs =~= Seq::<UplinkCommand>::empty());
    } else {
        let rest = cs.drop_last();
        commands_in_order(rest);
        lemma_receive_all_concat(seq![], frames_of(rest), uplink_frame(cs.last().spec_code()));
        uplink_round_trip(cs.last());
        assert(rest + seq![cs.last()] =~= cs);
    }
}

/// A frame whose checksum byte is not the checksum of its code forwards
/// nothing and leaves a fresh receiver's buffer empty.
pub proof fn corrupted_frame_rejected(code: u8, check: u8)
    requires
        check != crc8_of(seq![code]),
    ensures
        receive_all(seq![], seq![code, check, SEPARATOR]) == (
            Seq::<u8>::empty(),
            Seq::<UplinkCommand>::empty(),
        ),
{
    let f = seq![code, check, SEPARATOR];
    reveal_with_fuel(receive_all, 4);
    assert(f.drop_last().drop_last().drop_last() =~= Seq::<u8>::empty());
    assert(f.drop_last().drop_last() =~= seq![code]);
    assert(f.drop_last() =~= seq![code, check]);
    assert(Seq::<u8>::empty().push(code) =~= seq![code]);
    assert(seq![code].push(check) =~= seq![code, check]);
    assert(Seq::<u8>::empty().push(check) =~= seq![check]);
    assert(Seq::<u8>::empty().push(SEPARATOR) =~= seq![SEPARATOR]);
    assert(seq![SEPARATOR].contains(SEPARATOR)) by {
        assert(seq![SEPARATOR][0] == SEPARATOR);
    }
    assert(seq![code, check].contains(SEPARATOR) <==> (code == SEPARATOR || check == SEPARATOR)) by {
        if code == SEPARATOR {
            assert(seq![code, check][0] == SEPARATOR);
        }
        if check == SEPARATOR {
            assert(seq![code, check][1] == SEPARATOR);
        }
    }
    assert(seq![code].contains(SEPARATOR) <==> code == SEPARATOR) by {
        if code == SEPARATOR {
            assert(seq![code][0] == SEPARATOR);
        }
    }
    if code != SEPARATOR && check != SEPARATOR {
        assert(seq![code, check].push(SEPARATOR)[1] == check);
        assert(seq![code, check].push(SEPARATOR)[0] == code);
    }
    if code == SEPARATOR && check != SEPARATOR {
        assert(seq![check].push(SEPARATOR) =~= seq![check, SEPARATOR]);
        assert(seq![check, SEPARATOR][1] == SEPARATOR);
    }
    assert(Seq::<UplinkCommand>::empty() + Seq::<UplinkCommand>::empty() =~= Seq::<UplinkCommand>::empty());
}

/// Resynchronisation: after a run of bytes that forwarded nothing and left
/// the buffer empty, a valid frame forwards exactly its command.
pub proof fn resynchronization(prefix: Seq<u8>, c: UplinkCommand)
    requires
        receive_all(seq![], prefix) == (Seq::<u8>::empty(), Seq::<UplinkCommand>::empty()),
    ensures
        receive_all(seq![], prefix + uplink_frame(c.spec_code())) == (Seq::<u8>::empty(), seq![c]),
{
    lemma_receive_all_concat(seq![], prefix, uplink_frame(c.spec_code()));
    uplink_round_trip(c);
    assert(Seq::<UplinkCommand>::empty() + seq![c] =~= seq![c]);
}

} // verus!

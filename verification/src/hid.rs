//! The Oryx raw-HID protocol (usage page 0xFF60, usage 0x61, 32-byte
//! packets): which device to open, the pairing handshake, how packets read as
//! keyboard events, and which connection states are worth reporting.

use vstd::prelude::*;

verus! {

/// ZSA Technology Labs.
pub const VENDOR_ID: u16 = 0x3297;
/// The raw-HID usage page of the Oryx interface.
pub const USAGE_PAGE: u16 = 0xFF60;
/// The raw-HID usage of the Oryx interface.
pub const USAGE: u16 = 0x61;
/// Bytes in a packet.
pub const PACKET_SIZE: usize = 32;
/// Reads of the pairing answer before pairing is given up.
pub const PAIRING_ATTEMPTS: u32 = 5;

/// Host to keyboard: start pairing.
pub const ORYX_CMD_PAIRING_INIT: u8 = 0x01;
/// Keyboard to host: pairing succeeded.
pub const ORYX_EVT_PAIRING_SUCCESS: u8 = 0x04;
/// Keyboard to host: the highest active layer changed.
pub const ORYX_EVT_LAYER: u8 = 0x05;
/// Keyboard to host: a key went down.
pub const ORYX_EVT_KEYDOWN: u8 = 0x06;
/// Keyboard to host: a key went up.
pub const ORYX_EVT_KEYUP: u8 = 0x07;

/// What the overlay is told about the keyboard.
#[derive(Debug, PartialEq, Eq)]
pub enum KbEvent {
    Status { connected: bool, detail: String },
    Layer { layer: u8 },
    Key { down: bool, row: u8, col: u8 },
}

/// The event that reports the keyboard as not connected, for the reason given.
pub fn disconnected(detail: String) -> (e: KbEvent)
    ensures
        e == (KbEvent::Status { connected: false, detail }),
{
    KbEvent::Status { connected: false, detail }
}

/// The event that reports the keyboard as connected and paired.
pub fn paired() -> (e: KbEvent)
    ensures
        e matches KbEvent::Status { connected, detail } && connected && detail@ == "paired"@,
{
    KbEvent::Status { connected: true, detail: String::from_str("paired") }
}

/// The event that reports that the HID library could not start, with its error text.
pub fn init_failed(error: &str) -> (e: KbEvent)
    ensures
        e matches KbEvent::Status { connected, detail } && !connected && detail@
            == "hidapi init failed: "@ + error@,
{
    let mut detail = String::from_str("hidapi init failed: ");
    detail.append(error);
    disconnected(detail)
}

/// Whether a HID interface is the Oryx raw-HID interface of a ZSA keyboard
/// (any product: the Ergodox EZ variants report different product ids).
pub fn is_oryx_interface(vendor_id: u16, usage_page: u16, usage: u16) -> (r: bool)
    ensures
        r == (vendor_id == VENDOR_ID && usage_page == USAGE_PAGE && usage == USAGE),
{
    vendor_id == VENDOR_ID && usage_page == USAGE_PAGE && usage == USAGE
}

/// The report that starts pairing: report number 0 (unnumbered), then a
/// packet whose first byte is the pairing command and whose other bytes are 0.
pub fn pairing_command() -> (cmd: Vec<u8>)
    ensures
        cmd@.len() == PACKET_SIZE + 1,
        cmd@[1] == ORYX_CMD_PAIRING_INIT,
        forall|i: int| 0 <= i < cmd@.len() && i != 1 ==> cmd@[i] == 0,
{
    let mut cmd: Vec<u8> = Vec::new();
    let mut i: usize = 0;
    while i < PACKET_SIZE + 1
        invariant
            i <= PACKET_SIZE + 1,
            cmd@.len() == i,
            forall|k: int| 0 <= k < i ==> cmd@[k] == (if k == 1 { ORYX_CMD_PAIRING_INIT } else { 0 }),
        decreases PACKET_SIZE + 1 - i,
    {
        if i == 1 {
            cmd.push(ORYX_CMD_PAIRING_INIT);
        } else {
            cmd.push(0);
        }
        i = i + 1;
    }
    cmd
}

/// What to do after a read of the pairing answer.
#[derive(Debug, Clone, Copy, PartialEq, Eq, Structural)]
pub enum PairingStep {
    /// The keyboard answered that pairing succeeded.
    Paired,
    /// No answer yet: read again.
    ReadAgain,
    /// No answer in all the reads allowed: give up.
    TimedOut,
}

/// The step after read number `attempt` (from 0) of the pairing answer,
/// which gave `read` bytes into `packet`.
pub open spec fn spec_pairing_step(attempt: int, read: int, packet: Seq<u8>) -> PairingStep {
    if read > 0 && packet[0] == ORYX_EVT_PAIRING_SUCCESS {
        PairingStep::Paired
    } else if attempt + 1 >= PAIRING_ATTEMPTS {
        PairingStep::TimedOut
    } else {
        PairingStep::ReadAgain
    }
}

/// Decides what follows read number `attempt` (from 0) of the pairing answer.
pub fn pairing_step(attempt: u32, read: usize, packet: &[u8]) -> (r: PairingStep)
    requires
        read <= packet@.len(),
    ensures
        r == spec_pairing_step(attempt as int, read as int, packet@),
{
    if read > 0 && packet[0] == ORYX_EVT_PAIRING_SUCCESS {
        PairingStep::Paired
    } else if attempt >= PAIRING_ATTEMPTS - 1 {
        PairingStep::TimedOut
    } else {
        PairingStep::ReadAgain
    }
}

/// The error when no Oryx interface is present.
pub fn not_found_error() -> (e: String)
    ensures
        e@ == "keyboard not found"@,
{
    String::from_str("keyboard not found")
}

/// The error when the Oryx interface could not be opened, with the HID
/// library's error text.
pub fn open_error(error: &str) -> (e: String)
    ensures
        e@ == "cannot open HID device ("@ + error@
            + ") — on Linux check the udev rule, see README"@,
{
    let mut e = String::from_str("cannot open HID device (");
    e.append(error);
    e.append(") — on Linux check the udev rule, see README");
    e
}

/// The error when the keyboard never answered the pairing request.
pub fn pairing_timeout_error() -> (e: String)
    ensures
        e@ == "pairing timed out"@,
{
    String::from_str("pairing timed out")
}

/// Reads a packet of `read` bytes as a keyboard event: a layer packet carries
/// the highest active layer, a key packet the column and then the row.
pub fn decode_packet(read: usize, packet: &[u8]) -> (r: Option<KbEvent>)
    requires
        3 <= packet@.len(),
    ensures
        read == 0 ==> r is None,
        read > 0 && packet@[0] == ORYX_EVT_LAYER ==> r == Some(KbEvent::Layer { layer: packet@[1] }),
        read > 0 && (packet@[0] == ORYX_EVT_KEYDOWN || packet@[0] == ORYX_EVT_KEYUP) ==> r == Some(
            KbEvent::Key { down: packet@[0] == ORYX_EVT_KEYDOWN, row: packet@[2], col: packet@[1] },
        ),
        read > 0 && packet@[0] != ORYX_EVT_LAYER && packet@[0] != ORYX_EVT_KEYDOWN && packet@[0]
            != ORYX_EVT_KEYUP ==> r is None,
{
    if read == 0 {
        return None;
    }
    let kind = packet[0];
    if kind == ORYX_EVT_LAYER {
        Some(KbEvent::Layer { layer: packet[1] })
    } else if kind == ORYX_EVT_KEYDOWN || kind == ORYX_EVT_KEYUP {
        Some(KbEvent::Key { down: kind == ORYX_EVT_KEYDOWN, col: packet[1], row: packet[2] })
    } else {
        None
    }
}

/// The connection states reported so far: the reason of the last failure
/// reported since the keyboard was last paired (empty if none).
#[derive(Debug)]
pub struct HidMonitor {
    pub last_detail: String,
}

/// The reason remembered after a failed connection attempt, and whether the
/// failure is reported: only a reason other than the remembered one is.
pub open spec fn failure_step(last: Seq<char>, detail: Seq<char>) -> (Seq<char>, bool) {
    if detail != last {
        (detail, true)
    } else {
        (last, false)
    }
}

impl HidMonitor {
    /// A monitor that has reported nothing.
    pub fn new() -> (m: HidMonitor)
        ensures
            m.last_detail@ == Seq::<char>::empty(),
    {
        HidMonitor { last_detail: String::new() }
    }

    /// A connection attempt failed for `detail`: the event to report, if the
    /// reason changed (the attempt is retried every 2 seconds).
    pub fn connect_failed(&mut self, detail: String) -> (r: Option<KbEvent>)
        ensures
            final(self).last_detail@ == failure_step(old(self).last_detail@, detail@).0,
            failure_step(old(self).last_detail@, detail@).1 ==> r == Some(KbEvent::Status { connected: false, detail }),
            !failure_step(old(self).last_detail@, detail@).1 ==> r is None,
    {
        if detail != self.last_detail {
            self.last_detail = detail.clone();
            Some(disconnected(detail))
        } else {
            None
        }
    }

    /// The keyboard paired: the event to report; failures are reported
    /// afresh from now on.
    pub fn connected(&mut self) -> (e: KbEvent)
        ensures
            final(self).last_detail@ == Seq::<char>::empty(),
            e matches KbEvent::Status { connected, detail } && connected && detail@ == "paired"@,
    {
        self.last_detail = String::new();
        paired()
    }

    /// Listening to a paired keyboard ended with `error`: the event to report.
    pub fn listen_ended(&self, error: String) -> (e: KbEvent)
        ensures
            e == (KbEvent::Status { connected: false, detail: error }),
    {
        disconnected(error)
    }
}

/// Only changes are reported: a connection attempt that fails for the reason
/// just remembered reports nothing, however often it is retried.
pub proof fn law_repeated_failure_silent(last: Seq<char>, detail: Seq<char>)
    ensures
        !failure_step(failure_step(last, detail).0, detail).1,
        failure_step(failure_step(last, detail).0, detail).0 == failure_step(last, detail).0,
{
}

/// A failure for a reason other than the remembered one is reported, and
/// that reason is remembered.
pub proof fn law_changed_failure_reported(last: Seq<char>, detail: Seq<char>)
    requires
        detail != last,
    ensures
        failure_step(last, detail) == (detail, true),
{
}

/// Once the keyboard has paired (which forgets the last reason), the next
/// failure with a reason is reported even where it repeats the one before.
pub proof fn law_failure_after_pairing_reported(detail: Seq<char>)
    requires
        detail.len() > 0,
    ensures
        failure_step(Seq::empty(), detail).1,
{
}

/// Pairing waits for at most `PAIRING_ATTEMPTS` reads: a successful answer
/// pairs at any of them, an unanswered read is followed by another until the
/// last, after which pairing is given up.
pub proof fn law_pairing_attempts(attempt: int, read: int, packet: Seq<u8>)
    requires
        0 <= attempt < PAIRING_ATTEMPTS,
        0 <= read <= packet.len(),
    ensures
        read > 0 && packet[0] == ORYX_EVT_PAIRING_SUCCESS ==> spec_pairing_step(attempt, read, packet)
            == PairingStep::Paired,
        !(read > 0 && packet[0] == ORYX_EVT_PAIRING_SUCCESS) && attempt < PAIRING_ATTEMPTS - 1
            ==> spec_pairing_step(attempt, read, packet) == PairingStep::ReadAgain,
        !(read > 0 && packet[0] == ORYX_EVT_PAIRING_SUCCESS) && attempt == PAIRING_ATTEMPTS - 1
            ==> spec_pairing_step(attempt, read, packet) == PairingStep::TimedOut,
{
}

} // verus!

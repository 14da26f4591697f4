//! Control actions and outbound notifications. Control actions arrive from
//! the network planes and drive the realtime processor; notifications are
//! copies of state shipped to subscribers, filtered by a per-subscriber
//! bitmask of message kinds.

use vstd::prelude::*;
use crate::model::Cue;
use crate::state::{BeatState, TransportState};
use crate::vlt::VltAction;

verus! {

/// A transport or configuration command. Gains travel here in milli-decibel
/// integers; the float multiplier is derived outside the core.
#[derive(Clone, Copy, Debug, PartialEq, Eq, Structural)]
pub enum ControlAction {
    TransportStart,
    TransportStop,
    TransportZero,
    TransportSeekBeat(u16),
    TransportJumpBeat(u16),
    LoadCueByIndex(u8),
    LoadPreviousCue,
    LoadNextCue,
    LoadNextCueFromSelfIndex,
    DumpStatus,
    SetChannelGain(u8, i32),
    SetChannelMute(u8, bool),
    ChangeJumpMode(VltAction),
    ChangePlayrate(u16),
}

/// The kind of an outbound message; subscribers pick kinds by bitmask.
#[derive(Clone, Copy, Debug, PartialEq, Eq, Structural)]
pub enum MessageKind {
    TransportData,
    BeatData,
    Heartbeat,
    ShutdownOccured,
    CueData,
    ShowData,
    JackStateChanged,
    NetworkChanged,
    ConfigurationChanged,
    Log,
}

/// The bitmask bit a message kind occupies.
pub open spec fn spec_kind_bit(kind: MessageKind) -> u32 {
    match kind {
        MessageKind::TransportData => 0x1u32,
        MessageKind::BeatData => 0x2u32,
        MessageKind::Heartbeat => 0x4u32,
        MessageKind::ShutdownOccured => 0x8u32,
        MessageKind::CueData => 0x10u32,
        MessageKind::ShowData => 0x20u32,
        MessageKind::JackStateChanged => 0x40u32,
        MessageKind::NetworkChanged => 0x80u32,
        MessageKind::ConfigurationChanged => 0x100u32,
        MessageKind::Log => 0x200u32,
    }
}

/// The bitmask bit a message kind occupies.
pub fn kind_bit(kind: MessageKind) -> (r: u32)
    ensures
        r == spec_kind_bit(kind),
{
    match kind {
        MessageKind::TransportData => 0x1,
        MessageKind::BeatData => 0x2,
        MessageKind::Heartbeat => 0x4,
        MessageKind::ShutdownOccured => 0x8,
        MessageKind::CueData => 0x10,
        MessageKind::ShowData => 0x20,
        MessageKind::JackStateChanged => 0x40,
        MessageKind::NetworkChanged => 0x80,
        MessageKind::ConfigurationChanged => 0x100,
        MessageKind::Log => 0x200,
    }
}

/// Whether a mask admits a kind.
pub open spec fn spec_mask_contains(mask: u32, kind: MessageKind) -> bool {
    mask & spec_kind_bit(kind) != 0
}

/// Whether a mask admits a kind.
pub fn mask_contains(mask: u32, kind: MessageKind) -> (r: bool)
    ensures
        r == spec_mask_contains(mask, kind),
{
    mask & kind_bit(kind) != 0
}

/// Whether a kind travels as a small (fixed-size, high-frequency) message.
pub open spec fn spec_kind_is_small(kind: MessageKind) -> bool {
    match kind {
        MessageKind::TransportData => true,
        MessageKind::BeatData => true,
        MessageKind::Heartbeat => true,
        MessageKind::ShutdownOccured => true,
        _ => false,
    }
}

/// Whether a kind travels as a small message.
pub fn kind_is_small(kind: MessageKind) -> (r: bool)
    ensures
        r == spec_kind_is_small(kind),
{
    match kind {
        MessageKind::TransportData => true,
        MessageKind::BeatData => true,
        MessageKind::Heartbeat => true,
        MessageKind::ShutdownOccured => true,
        _ => false,
    }
}

/// How serious a log line is.
#[derive(Clone, Copy, Debug, PartialEq, Eq, Structural)]
pub enum LogKind {
    Note,
    Command,
    Debug,
    Error,
}

/// One line for the log plane, shipped over the bus so the realtime
/// plane never writes a file.
#[derive(Debug)]
pub struct LogItem {
    pub kind: LogKind,
    pub text: String,
}

/// A state notification produced by the core. Kinds whose payloads live
/// outside the core (logs, audio-driver and network snapshots) carry none.
#[derive(Debug)]
pub enum Notification {
    TransportData(TransportState),
    BeatData(BeatState),
    CueData { cue_idx: usize, cue: Cue },
    ShowData { name: Vec<u8>, num_cues: usize },
    ShutdownOccured,
}

impl Notification {
    /// The kind a notification belongs to.
    pub open spec fn spec_kind(self) -> MessageKind {
        match self {
            Notification::TransportData(..) => MessageKind::TransportData,
            Notification::BeatData(..) => MessageKind::BeatData,
            Notification::CueData { .. } => MessageKind::CueData,
            Notification::ShowData { .. } => MessageKind::ShowData,
            Notification::ShutdownOccured => MessageKind::ShutdownOccured,
        }
    }

    /// The kind a notification belongs to.
    pub fn kind(&self) -> (r: MessageKind)
        ensures
            r == self.spec_kind(),
    {
        match self {
            Notification::TransportData(..) => MessageKind::TransportData,
            Notification::BeatData(..) => MessageKind::BeatData,
            Notification::CueData { .. } => MessageKind::CueData,
            Notification::ShowData { .. } => MessageKind::ShowData,
            Notification::ShutdownOccured => MessageKind::ShutdownOccured,
        }
    }
}

} // verus!

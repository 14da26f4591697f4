//! The engine's message fabric: three unbounded lock-free queues linking
//! the control plane, the realtime plane and the notification plane. The
//! realtime side only ever tries: a failed send drops the item rather
//! than block. Queue contents cross threads, so no contract relates a
//! receive to any particular send; the drain logic is verified for every
//! sequence of received commands.

use vstd::prelude::*;
use crate::protocol::{ControlAction, LogItem, Notification};

verus! {

#[verifier::external_type_specification]
#[verifier::external_body]
#[verifier::reject_recursive_types(T)]
pub struct ExSender<T>(crossbeam_channel::Sender<T>);

#[verifier::external_type_specification]
#[verifier::external_body]
#[verifier::reject_recursive_types(T)]
pub struct ExReceiver<T>(crossbeam_channel::Receiver<T>);

/// Relies on crossbeam_channel::unbounded: a fresh command queue.
#[verifier::external_body]
fn action_channel() -> (crossbeam_channel::Sender<ControlAction>, crossbeam_channel::Receiver<
    ControlAction,
>) {
    crossbeam_channel::unbounded()
}

/// Relies on crossbeam_channel::unbounded: a fresh notification queue.
#[verifier::external_body]
fn note_channel() -> (crossbeam_channel::Sender<Notification>, crossbeam_channel::Receiver<
    Notification,
>) {
    crossbeam_channel::unbounded()
}

/// Relies on crossbeam_channel::unbounded: a fresh log queue.
#[verifier::external_body]
fn log_channel() -> (crossbeam_channel::Sender<LogItem>, crossbeam_channel::Receiver<LogItem>) {
    crossbeam_channel::unbounded()
}

/// Relies on crossbeam_channel::Sender::try_send: enqueue without
/// blocking; on failure the item is dropped.
#[verifier::external_body]
fn try_send_action(tx: &crossbeam_channel::Sender<ControlAction>, a: ControlAction) {
    let _ = tx.try_send(a);
}

/// Relies on crossbeam_channel::Sender::try_send: enqueue without
/// blocking; on failure the item is dropped.
#[verifier::external_body]
fn try_send_note(tx: &crossbeam_channel::Sender<Notification>, n: Notification) {
    let _ = tx.try_send(n);
}

/// Relies on crossbeam_channel::Sender::try_send: enqueue without
/// blocking; on failure the item is dropped.
#[verifier::external_body]
fn try_send_log(tx: &crossbeam_channel::Sender<LogItem>, l: LogItem) {
    let _ = tx.try_send(l);
}

/// Relies on crossbeam_channel::Receiver::try_recv: dequeue without
/// blocking. What arrives depends on the other threads, so nothing more
/// is promised of the result.
#[verifier::external_body]
fn try_recv_action(rx: &crossbeam_channel::Receiver<ControlAction>) -> Option<ControlAction> {
    rx.try_recv().ok()
}

/// Relies on crossbeam_channel::Receiver::try_recv: dequeue without
/// blocking.
#[verifier::external_body]
fn try_recv_note(rx: &crossbeam_channel::Receiver<Notification>) -> Option<Notification> {
    rx.try_recv().ok()
}

/// Relies on crossbeam_channel::Receiver::try_recv: dequeue without
/// blocking.
#[verifier::external_body]
fn try_recv_log(rx: &crossbeam_channel::Receiver<LogItem>) -> Option<LogItem> {
    rx.try_recv().ok()
}

/// Relies on crossbeam_channel's Clone impls: further handles onto the
/// same three queues.
#[verifier::external_body]
fn clone_bus(bus: &EngineBus) -> EngineBus {
    EngineBus {
        cmd_tx: bus.cmd_tx.clone(),
        cmd_rx: bus.cmd_rx.clone(),
        note_tx: bus.note_tx.clone(),
        note_rx: bus.note_rx.clone(),
        log_tx: bus.log_tx.clone(),
        log_rx: bus.log_rx.clone(),
    }
}

/// Handles onto the engine's three queues: commands in, notifications
/// out, log items out.
pub struct EngineBus {
    pub cmd_tx: crossbeam_channel::Sender<ControlAction>,
    pub cmd_rx: crossbeam_channel::Receiver<ControlAction>,
    pub note_tx: crossbeam_channel::Sender<Notification>,
    pub note_rx: crossbeam_channel::Receiver<Notification>,
    pub log_tx: crossbeam_channel::Sender<LogItem>,
    pub log_rx: crossbeam_channel::Receiver<LogItem>,
}

impl EngineBus {
    /// A fresh bus with three empty queues.
    pub fn new() -> EngineBus {
        let (cmd_tx, cmd_rx) = action_channel();
        let (note_tx, note_rx) = note_channel();
        let (log_tx, log_rx) = log_channel();
        EngineBus { cmd_tx, cmd_rx, note_tx, note_rx, log_tx, log_rx }
    }

    /// Another handle onto the same queues.
    pub fn share(&self) -> EngineBus {
        clone_bus(self)
    }

    /// Enqueue a command; never blocks.
    pub fn command(&self, a: ControlAction) {
        try_send_action(&self.cmd_tx, a);
    }

    /// Enqueue a notification; never blocks.
    pub fn notify(&self, n: Notification) {
        try_send_note(&self.note_tx, n);
    }

    /// Enqueue a log item; never blocks.
    pub fn log(&self, l: LogItem) {
        try_send_log(&self.log_tx, l);
    }

    /// Dequeue one pending notification, if any; never blocks.
    pub fn next_note(&self) -> Option<Notification> {
        try_recv_note(&self.note_rx)
    }

    /// Dequeue one pending log item, if any; never blocks.
    pub fn next_log(&self) -> Option<LogItem> {
        try_recv_log(&self.log_rx)
    }

    /// Drain pending commands without blocking, stopping at `limit` so
    /// the realtime cycle's work stays bounded.
    pub fn drain_commands(&self, limit: usize) -> (r: Vec<ControlAction>)
        ensures
            r@.len() <= limit,
    {
        let mut out: Vec<ControlAction> = Vec::new();
        let mut n: usize = 0;
        while n < limit
            invariant
                out@.len() == n,
                n <= limit,
            decreases limit - n,
        {
            match try_recv_action(&self.cmd_rx) {
                Some(a) => {
                    out.push(a);
                }
                None => {
                    return out;
                }
            }
            n += 1;
        }
        out
    }
}

} // verus!

//! The observer's side: events sent by the transfer worker and the device
//! scanner, and the transfer state they drive.

use vstd::prelude::*;

use crate::source::FileManifest;

verus! {

/// Events carried from producers to the observer, in order.
#[derive(Debug, Clone)]
pub enum Message {
    /// Start-up of the observer.
    Init,
    /// Time to rescan the output devices.
    RescanDevices,
    /// Select the output device of this name.
    SelectDevice(String),
    /// Start a transfer.
    StartTransfer,
    /// Packet number `n`, counting from 1, was sent.
    PacketTransferred(usize),
    /// The run sent every packet.
    TransferFinished,
    /// The run was cancelled.
    TransferCancelled,
    /// Something failed; the text says what.
    Error(String),
}

/// Where the observer stands with the current file.
#[derive(Debug, Clone, Copy, PartialEq, Eq, Structural)]
pub enum TransferState {
    /// No run since the file was loaded.
    Idle,
    /// A run is in progress.
    Running,
    /// The last run sent every packet.
    Finished,
    /// The last run was cancelled.
    Cancelled,
    /// The last run failed.
    Failed,
}

/// Why a transfer could not start.
#[derive(Debug, Clone, Copy, PartialEq, Eq, Structural)]
pub enum StartRefusal {
    /// A run is already in progress.
    AlreadyRunning,
    /// No file with packets has been loaded.
    NoFile,
}

/// Transfer state and progress as the observer sees them.
#[derive(Debug, Clone, Copy, PartialEq, Eq, Structural)]
pub struct TransferStatus {
    /// Where the current or last run stands.
    pub state: TransferState,
    /// Packets reported sent in the current run.
    pub packets_sent: usize,
    /// Packets in the loaded file; zero when none is loaded.
    pub packets_total: usize,
}

/// The status after the observer applies `m` to `s`: a progress event sets
/// the count of packets sent; outcome events count only while a run is in
/// progress; other events leave the status alone.
pub open spec fn apply_spec(s: TransferStatus, m: Message) -> TransferStatus {
    match m {
        Message::PacketTransferred(n) => TransferStatus { packets_sent: n, ..s },
        Message::TransferFinished => if s.state == TransferState::Running {
            TransferStatus { state: TransferState::Finished, ..s }
        } else {
            s
        },
        Message::TransferCancelled => if s.state == TransferState::Running {
            TransferStatus { state: TransferState::Cancelled, ..s }
        } else {
            s
        },
        Message::Error(_) => if s.state == TransferState::Running {
            TransferStatus { state: TransferState::Failed, ..s }
        } else {
            s
        },
        _ => s,
    }
}

impl TransferStatus {
    /// Nothing loaded, nothing running.
    pub fn new() -> (r: TransferStatus)
        ensures
            r == (TransferStatus { state: TransferState::Idle, packets_sent: 0, packets_total: 0 }),
    {
        TransferStatus { state: TransferState::Idle, packets_sent: 0, packets_total: 0 }
    }

    /// Takes a newly validated file: progress is reset to `(0, packet_count)`.
    /// Refused, with nothing changed, while a run is in progress.
    pub fn load(&mut self, manifest: &FileManifest) -> (r: bool)
        ensures
            r == (old(self).state != TransferState::Running),
            r ==> *final(self) == (TransferStatus {
                state: TransferState::Idle,
                packets_sent: 0,
                packets_total: manifest.packet_count,
            }),
            !r ==> *final(self) == *old(self),
    {
        if self.state == TransferState::Running {
            false
        } else {
            self.state = TransferState::Idle;
            self.packets_sent = 0;
            self.packets_total = manifest.packet_count;
            true
        }
    }

    /// Begins a run over the loaded file. Refused, with nothing changed,
    /// while a run is already in progress or when no file is loaded.
    pub fn start(&mut self) -> (r: Result<(), StartRefusal>)
        ensures
            old(self).state == TransferState::Running ==> r == Err::<(), StartRefusal>(
                StartRefusal::AlreadyRunning,
            ),
            old(self).state != TransferState::Running && old(self).packets_total == 0 ==> r
                == Err::<(), StartRefusal>(StartRefusal::NoFile),
            r is Err ==> *final(self) == *old(self),
            r is Ok ==> *final(self) == (TransferStatus {
                state: TransferState::Running,
                packets_sent: 0,
                packets_total: old(self).packets_total,
            }),
            r is Ok <==> (old(self).state != TransferState::Running && old(self).packets_total > 0),
    {
        if self.state == TransferState::Running {
            Err(StartRefusal::AlreadyRunning)
        } else if self.packets_total == 0 {
            Err(StartRefusal::NoFile)
        } else {
            self.state = TransferState::Running;
            self.packets_sent = 0;
            Ok(())
        }
    }

    /// Applies one event from the worker.
    pub fn apply(&mut self, message: &Message)
        ensures
            *final(self) == apply_spec(*old(self), *message),
    {
        let running = self.state == TransferState::Running;
        match message {
            Message::PacketTransferred(n) => {
                self.packets_sent = *n;
            },
            Message::TransferFinished => {
                if running {
                    self.state = TransferState::Finished;
                }
            },
            Message::TransferCancelled => {
                if running {
                    self.state = TransferState::Cancelled;
                }
            },
            Message::Error(_) => {
                if running {
                    self.state = TransferState::Failed;
                }
            },
            _ => {},
        }
    }
}

} // verus!

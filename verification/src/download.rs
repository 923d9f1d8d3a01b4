//! The bookkeeping of a streamed download, as a machine from events to
//! actions. The caller does the transfer: it performs each action and hands
//! back what happened.

use vstd::prelude::*;

verus! {

/// Why a download failed.
#[derive(Debug, Clone, Copy, PartialEq, Eq, Structural)]
pub enum DownloadError {
    /// The destination exists already or cannot be written.
    CreateFailed,
    /// The transfer broke off; what was written before stays in the
    /// destination.
    StreamInterrupted,
}

/// Where a download stands.
#[derive(Debug, Clone, Copy, PartialEq, Eq, Structural)]
pub enum Phase {
    /// The request is out; no response yet.
    AwaitingResponse,
    /// The response is here; the destination is not open yet.
    AwaitingFile,
    /// Chunks are coming in.
    Streaming,
    /// The stream ended and the file is complete.
    Done,
    /// The download failed.
    Failed(DownloadError),
}

/// What happened since the last action.
#[derive(Debug, Clone, Copy, PartialEq, Eq, Structural)]
pub enum DownloadEvent {
    /// The server answered; `content_length` is the length it declared, if
    /// it declared one.
    Responded { content_length: Option<u64> },
    /// The destination was created and is open for writing.
    FileCreated,
    /// The destination could not be created.
    FileRefused,
    /// A chunk of `len` bytes arrived.
    Chunk { len: usize },
    /// The stream ended in order.
    StreamEnded,
    /// The transfer broke off: the transport failed, or a chunk could not be
    /// written in full.
    Interrupted,
}

/// What the caller is to do next.
#[derive(Debug, Clone, Copy, PartialEq, Eq, Structural)]
pub enum DownloadAction {
    /// Send the request and wait for the response.
    Request,
    /// Create the destination; it must not exist yet.
    CreateFile,
    /// Wait for the next chunk.
    Receive,
    /// Write the chunk in full, report the progress, and wait for the next
    /// chunk.
    Write { total_so_far: u64, declared_total: u64 },
    /// Close the file: the download is complete with `bytes_written` bytes.
    Finish { bytes_written: u64 },
    /// Close what is open and give up with this error.
    Fail(DownloadError),
}

/// The state of one download.
#[derive(Debug, Clone, Copy, PartialEq, Eq, Structural)]
pub struct Download {
    /// Where the download stands.
    pub phase: Phase,
    /// The length that the server declared; 0 where it declared none.
    pub declared_total: u64,
    /// The bytes handed to the destination so far.
    pub written: u64,
}

impl Download {
    /// The state of a download whose request is about to be sent.
    pub open spec fn initial() -> Download {
        Download { phase: Phase::AwaitingResponse, declared_total: 0, written: 0 }
    }

    /// The action that a state is waiting on. An event that the phase does
    /// not expect is answered with it.
    pub open spec fn pending(self) -> DownloadAction {
        match self.phase {
            Phase::AwaitingResponse => DownloadAction::Request,
            Phase::AwaitingFile => DownloadAction::CreateFile,
            Phase::Streaming => DownloadAction::Receive,
            Phase::Done => DownloadAction::Finish { bytes_written: self.written },
            Phase::Failed(e) => DownloadAction::Fail(e),
        }
    }

    /// The running total stays within `u64` when `event` is taken.
    pub open spec fn fits(self, event: DownloadEvent) -> bool {
        self.phase is Streaming ==> (event matches DownloadEvent::Chunk { len } ==> self.written
            + len <= u64::MAX)
    }

    /// The state after `event`. An event that the phase does not expect
    /// changes nothing, and nothing changes a download that is done or has
    /// failed.
    pub open spec fn after(self, event: DownloadEvent) -> Download {
        match (self.phase, event) {
            (Phase::AwaitingResponse, DownloadEvent::Responded { content_length }) => Download {
                phase: Phase::AwaitingFile,
                declared_total: match content_length {
                    Some(n) => n,
                    None => 0,
                },
                written: 0,
            },
            (Phase::AwaitingResponse, DownloadEvent::Interrupted) => Download {
                phase: Phase::Failed(DownloadError::StreamInterrupted),
                ..self
            },
            (Phase::AwaitingFile, DownloadEvent::FileCreated) => Download {
                phase: Phase::Streaming,
                ..self
            },
            (Phase::AwaitingFile, DownloadEvent::FileRefused) => Download {
                phase: Phase::Failed(DownloadError::CreateFailed),
                ..self
            },
            (Phase::Streaming, DownloadEvent::Chunk { len }) => Download {
                written: (self.written + len) as u64,
                ..self
            },
            (Phase::Streaming, DownloadEvent::StreamEnded) => Download {
                phase: Phase::Done,
                ..self
            },
            (Phase::Streaming, DownloadEvent::Interrupted) => Download {
                phase: Phase::Failed(DownloadError::StreamInterrupted),
                ..self
            },
            _ => self,
        }
    }

    /// The action that answers `event`: a chunk is answered with the order
    /// to write it and the totals to report; every other event with what
    /// the next state waits on.
    pub open spec fn answer(self, event: DownloadEvent) -> DownloadAction {
        match (self.phase, event) {
            (Phase::Streaming, DownloadEvent::Chunk { len }) => DownloadAction::Write {
                total_so_far: (self.written + len) as u64,
                declared_total: self.declared_total,
            },
            _ => self.after(event).pending(),
        }
    }

    /// A download whose request is about to be sent.
    pub fn new() -> (state: Download)
        ensures
            state == Download::initial(),
    {
        Download { phase: Phase::AwaitingResponse, declared_total: 0, written: 0 }
    }

    /// Whether `event` can be taken without the running total leaving `u64`.
    pub fn can_take(&self, event: &DownloadEvent) -> (b: bool)
        ensures
            b == self.fits(*event),
    {
        match (self.phase, event) {
            (Phase::Streaming, DownloadEvent::Chunk { len }) => *len as u64 <= u64::MAX
                - self.written,
            _ => true,
        }
    }

    /// Takes an event and says what to do next.
    pub fn step(&mut self, event: DownloadEvent) -> (action: DownloadAction)
        requires
            old(self).fits(event),
        ensures
            *final(self) == old(self).after(event),
            action == old(self).answer(event),
    {
        match (self.phase, event) {
            (Phase::AwaitingResponse, DownloadEvent::Responded { content_length }) => {
                self.phase = Phase::AwaitingFile;
                self.declared_total = match content_length {
                    Some(n) => n,
                    None => 0,
                };
                self.written = 0;
                DownloadAction::CreateFile
            },
            (Phase::AwaitingResponse, DownloadEvent::Interrupted) => {
                self.phase = Phase::Failed(DownloadError::StreamInterrupted);
                DownloadAction::Fail(DownloadError::StreamInterrupted)
            },
            (Phase::AwaitingFile, DownloadEvent::FileCreated) => {
                self.phase = Phase::Streaming;
                DownloadAction::Receive
            },
            (Phase::AwaitingFile, DownloadEvent::FileRefused) => {
                self.phase = Phase::Failed(DownloadError::CreateFailed);
                DownloadAction::Fail(DownloadError::CreateFailed)
            },
            (Phase::Streaming, DownloadEvent::Chunk { len }) => {
                self.written = self.written + len as u64;
                DownloadAction::Write {
                    total_so_far: self.written,
                    declared_total: self.declared_total,
                }
            },
            (Phase::Streaming, DownloadEvent::StreamEnded) => {
                self.phase = Phase::Done;
                DownloadAction::Finish { bytes_written: self.written }
            },
            (Phase::Streaming, DownloadEvent::Interrupted) => {
                self.phase = Phase::Failed(DownloadError::StreamInterrupted);
                DownloadAction::Fail(DownloadError::StreamInterrupted)
            },
            _ => self.waiting_on(),
        }
    }

    /// The action that the download is waiting on.
    pub fn waiting_on(&self) -> (action: DownloadAction)
        ensures
            action == self.pending(),
    {
        match self.phase {
            Phase::AwaitingResponse => DownloadAction::Request,
            Phase::AwaitingFile => DownloadAction::CreateFile,
            Phase::Streaming => DownloadAction::Receive,
            Phase::Done => DownloadAction::Finish { bytes_written: self.written },
            Phase::Failed(e) => DownloadAction::Fail(e),
        }
    }
}

} // verus!

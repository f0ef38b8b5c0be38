use vstd::prelude::*;

verus! {

/// File metadata returned by stat operations.
#[derive(Clone, Copy, Debug, PartialEq, Eq, Structural)]
pub struct Stat {
    pub ino: u64,
    pub size: u64,
    pub mode: u32,
}

impl Default for Stat {
    /// The all-zero stat record.
    fn default() -> (r: Stat)
        ensures
            r.ino == 0 && r.size == 0 && r.mode == 0,
    {
        Stat { ino: 0, size: 0, mode: 0 }
    }
}

/// Ring opcode of a read request.
pub const IOURING_OP_READ: u8 = 1;

/// A submission-queue entry handed in by a client.
#[derive(Clone, Copy, Debug, PartialEq, Eq, Structural)]
pub struct IoSqe {
    pub opcode: u8,
    /// Destination address in the client's view of the shared buffer.
    pub addr: u64,
    pub len: u32,
    /// File-relative byte offset.
    pub off: u64,
    pub user_data: u64,
}

/// A completion-queue entry pushed back to the client.
#[derive(Clone, Copy, Debug, PartialEq, Eq, Structural)]
pub struct IoCqe {
    pub user_data: u64,
    /// Bytes transferred, or the negated error code.
    pub res: i64,
    pub flags: u32,
}

/// Bytes to place into the service-side shared buffer at `addr`.
pub struct ShmWrite {
    pub addr: u64,
    pub bytes: Vec<u8>,
}

/// What servicing one submission entry produces: the completion entry and,
/// for a successful read, the bytes to store into the shared buffer.
pub struct IoRingOutcome {
    pub cqe: IoCqe,
    pub write: Option<ShmWrite>,
}

} // verus!

verus! {

/// A decoded filesystem request, as the dispatcher receives it: plain
/// values pulled out of the arriving message.
pub enum FsRequest {
    Open { flags: u32, mode: u32, path: Vec<u8> },
    StatPath { path: Vec<u8> },
    Stat { handle: u64 },
    ReadSync { handle: u64, offset: u64, len: usize },
    Close { handle: u64 },
    SetupIouring { handle: u64, client_vaddr: u64, size: u64 },
    ProcessIouring { handle: u64, sqes: Vec<IoSqe> },
    Mkdir { path: Vec<u8>, mode: u32 },
    Unlink { path: Vec<u8> },
    Rename { old_path: Vec<u8>, new_path: Vec<u8> },
    Exit,
}

/// What the dispatcher replies: the payload of the reply message, or the
/// error code to put in its first register.
pub enum FsReply {
    Handle(u64),
    StatRec(Stat),
    Data(Vec<u8>),
    Done,
    Ring(Vec<IoRingOutcome>),
    Fail(crate::errors::FsError),
}

} // verus!

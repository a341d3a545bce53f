//! The kernel calls that a notification channel makes, as values: what is
//! handed to a call, and what comes back from it.

use vstd::prelude::*;

verus! {

/// The identifier of a watch. It means something only together with the
/// channel that handed it out.
pub type Watch = i32;

/// The size in bytes of the fixed part of an event record.
pub const HEADER_SIZE: usize = 16;

/// The greatest length in bytes of the name of a directory entry.
pub const NAME_MAX: usize = 255;

/// The size in bytes of the buffer that one read of a channel is given: the
/// fixed part of a record, the longest name of a directory entry, and the
/// name's terminator. Any single record fits in it.
pub const EVENT_BUFFER_SIZE: usize = HEADER_SIZE + NAME_MAX + 1;

/// A call that returns an `int`, with its arguments.
#[derive(Debug, Clone, PartialEq, Eq)]
pub enum Request {
    /// `inotify_init1(flags)`
    Init { flags: i32 },
    /// `inotify_add_watch(fd, path, mask)`; `path` ends in its terminator
    /// and holds no other zero byte.
    AddWatch { fd: i32, path: Vec<u8>, mask: u32 },
    /// `inotify_rm_watch(fd, wd)`
    RmWatch { fd: i32, wd: Watch },
    /// `close(fd)`
    Close { fd: i32 },
}

impl Request {
    /// Whether `ret`, returned by this call, tells of a failure that has
    /// left an error behind: a negative value where the call creates a
    /// channel or adds a watch, -1 where it removes a watch, and any value
    /// but zero where it closes the channel.
    pub open spec fn reports_failure(self, ret: i32) -> bool {
        match self {
            Request::Init { .. } => ret < 0,
            Request::AddWatch { .. } => ret < 0,
            Request::RmWatch { .. } => ret == -1,
            Request::Close { .. } => ret != 0,
        }
    }

    /// Whether the error that the call has left behind is to be looked up:
    /// it is where `ret` tells of a failure, and only there.
    pub fn failed(&self, ret: i32) -> (failed: bool)
        ensures
            failed == self.reports_failure(ret),
    {
        match self {
            Request::Init { .. } => ret < 0,
            Request::AddWatch { .. } => ret < 0,
            Request::RmWatch { .. } => ret == -1,
            Request::Close { .. } => ret != 0,
        }
    }
}

/// What came back from a call that returns an `int`.
#[derive(Debug, Clone, PartialEq, Eq)]
pub struct Reply {
    /// The value that the call returned.
    pub ret: i32,
    /// The platform's text for the error that the call left behind, taken
    /// right after the call where `ret` tells of a failure. It is looked at
    /// in no other case, and may be empty then.
    pub error: String,
}

/// `read(fd, buffer, count)`, where `buffer` is `count` zero bytes.
#[derive(Debug, Clone, Copy, PartialEq, Eq)]
pub struct ReadRequest {
    pub fd: i32,
    pub count: usize,
}

impl ReadRequest {
    /// Whether the error that the read has left behind is to be looked up:
    /// it is where `ret` is negative, and only there.
    pub fn failed(&self, ret: isize) -> (failed: bool)
        ensures
            failed == (ret < 0),
    {
        ret < 0
    }
}

/// What came back from a read.
#[derive(Debug, Clone, PartialEq, Eq)]
pub struct ReadReply {
    /// The value that the call returned: the number of bytes read, 0 at the
    /// end of the stream, or a negative value.
    pub ret: isize,
    /// As in [`Reply`].
    pub error: String,
    /// The buffer after the call.
    pub buffer: Vec<u8>,
}

impl ReadReply {
    /// The bytes that the call has read: as many of the buffer's first bytes
    /// as the call returned, and no more than the buffer holds.
    pub open spec fn bytes(self) -> Seq<u8> {
        if self.ret <= 0 {
            Seq::empty()
        } else if self.ret >= self.buffer@.len() {
            self.buffer@
        } else {
            self.buffer@.take(self.ret as int)
        }
    }
}

} // verus!

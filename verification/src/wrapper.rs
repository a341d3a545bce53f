//! The notification channel: one descriptor, and the operations on it.
//!
//! Each operation is a pair of functions. The one whose name ends in
//! `_request` says which call is made and with what arguments; the other takes
//! what came back from the call and says what the operation returns.
//!
//! Events are read with a single call, into a buffer that any one record
//! fits in. A read may return several records: the first is handed out, and
//! the bytes behind it stay with the channel and are handed out record by
//! record before anything is read again. Where the bytes end before a record
//! does, the bytes that are missing from the fixed part count as zero and the
//! name ends where the bytes end.

use vstd::pervasive::unreached;
use vstd::prelude::*;
use vstd::slice::slice_subrange;
use vstd::slice::slice_to_vec;
use vstd::string::StringSliceAdditionalSpecFns;
use crate::cstr::to_c_string;
use crate::error::Error;
use crate::event::after_first;
use crate::event::first_record;
use crate::event::lemma_after_first_of_bytes;
use crate::event::lemma_first_record_of_bytes;
use crate::event::ByteOrder;
use crate::event::Event;
use crate::event::Record;
use crate::raw::ReadReply;
use crate::raw::ReadRequest;
use crate::raw::Reply;
use crate::raw::Request;
use crate::raw::Watch;
use crate::raw::EVENT_BUFFER_SIZE;

verus! {

/// A notification channel. It owns its descriptor. Once it has been closed
/// it holds no bytes of an earlier read, and nothing else is said of any
/// further operation on it.
#[derive(Debug, PartialEq, Eq)]
pub struct INotify {
    pub fd: i32,
    /// The bytes that a read has returned behind the event that was handed
    /// out then: the records that are still to be handed out.
    pub pending: Vec<u8>,
}

/// What creating a channel returns: the descriptor of the new channel, which
/// is not negative, and else the failure with the platform's text.
pub open spec fn init_result(reply: Reply) -> Result<i32, Error> {
    if reply.ret >= 0 {
        Ok(reply.ret)
    } else {
        Err(Error::InitFailure(reply.error))
    }
}

/// What adding a watch returns: the watch's identifier, which is not
/// negative, and else the failure with the platform's text.
pub open spec fn add_watch_result(reply: Reply) -> Result<Watch, Error> {
    if reply.ret >= 0 {
        Ok(reply.ret)
    } else {
        Err(Error::AddWatchFailure(reply.error))
    }
}

/// What removing a watch returns, for the two values that the call is
/// documented to return.
pub open spec fn rm_watch_result(reply: Reply) -> Result<(), Error> {
    if reply.ret == 0 {
        Ok(())
    } else {
        Err(Error::RemoveWatchFailure(reply.error))
    }
}

/// What closing a channel returns.
pub open spec fn close_result(reply: Reply) -> Result<(), Error> {
    if reply.ret == 0 {
        Ok(())
    } else {
        Err(Error::CloseFailure(reply.error))
    }
}

/// What a read gives: the end of the channel where nothing was read, a
/// failure where the call returned a negative value, and else the first
/// record among the bytes read.
pub open spec fn read_result(read: ReadReply, order: ByteOrder) -> Result<Record, Error> {
    if read.ret == 0 {
        Err(Error::EndOfChannel)
    } else if read.ret < 0 {
        Err(Error::ReadFailure(read.error))
    } else {
        Ok(first_record(read.bytes(), order))
    }
}

/// What a read leaves with the channel: the bytes behind the first record.
pub open spec fn left_by_read(read: ReadReply, order: ByteOrder) -> Seq<u8> {
    if read.ret > 0 {
        after_first(read.bytes(), order)
    } else {
        Seq::empty()
    }
}

/// An operation fails just where the value that its call returned tells of
/// a failure, so that the error text of a reply is looked at in no other
/// case.
pub proof fn lemma_failure_is_reported(request: Request, reply: Reply)
    ensures
        request is Init ==> (init_result(reply) is Err <==> request.reports_failure(reply.ret)),
        request is AddWatch ==> (add_watch_result(reply) is Err <==> request.reports_failure(
            reply.ret,
        )),
        request is RmWatch && (reply.ret == 0 || reply.ret == -1) ==> (rm_watch_result(reply) is Err
            <==> request.reports_failure(reply.ret)),
        request is Close ==> (close_result(reply) is Err <==> request.reports_failure(reply.ret)),
{
}

/// A failure to create a channel carries the text of the reply as it is: it
/// is empty only where the platform's text is.
pub proof fn lemma_init_failure_has_the_text(reply: Reply)
    requires
        reply.ret < 0,
    ensures
        init_result(reply) == Err::<i32, Error>(Error::InitFailure(reply.error)),
{
}

/// Where the kernel accepts a watch and then the removal of that watch, the
/// channel hands out the kernel's identifier and then reports the removal.
pub proof fn lemma_add_then_remove(added: Reply, removed: Reply)
    requires
        added.ret >= 0,
        removed.ret == 0,
    ensures
        add_watch_result(added) == Ok::<Watch, Error>(added.ret),
        rm_watch_result(removed) == Ok::<(), Error>(()),
{
}

/// The channel hands on the identifier that the kernel gives: where the
/// kernel answers two requests with the same identifier, so does the channel.
pub proof fn lemma_same_identifier(first: Reply, second: Reply)
    requires
        first.ret >= 0,
        second.ret == first.ret,
    ensures
        add_watch_result(first) == add_watch_result(second),
{
}

/// Where a read returns the bytes of a well formed record, and whatever
/// bytes behind them, the event is that record, with its mask and its name
/// as they were written, and the bytes behind it are left with the channel.
pub proof fn lemma_event_of_read(read: ReadReply, record: Record, rest: Seq<u8>, order: ByteOrder)
    requires
        record.wf(),
        read.ret > 0,
        read.bytes() == record.bytes(order) + rest,
    ensures
        read_result(read, order) == Ok::<Record, Error>(record),
        left_by_read(read, order) == rest,
{
    lemma_first_record_of_bytes(record, order, rest);
    lemma_after_first_of_bytes(record, order, rest);
}

/// Two records that one read returns come out as two events, in their
/// order: the first from the read, the second from the bytes that the read
/// has left, and nothing is left behind the second.
pub proof fn lemma_two_events_of_one_read(
    read: ReadReply,
    first: Record,
    second: Record,
    order: ByteOrder,
)
    requires
        first.wf(),
        second.wf(),
        read.ret > 0,
        read.bytes() == first.bytes(order) + second.bytes(order),
    ensures
        read_result(read, order) == Ok::<Record, Error>(first),
        left_by_read(read, order).len() > 0,
        first_record(left_by_read(read, order), order) == second,
        after_first(left_by_read(read, order), order).len() == 0,
{
    let none = Seq::<u8>::empty();
    lemma_event_of_read(read, first, second.bytes(order), order);
    lemma_first_record_of_bytes(second, order, none);
    lemma_after_first_of_bytes(second, order, none);
    assert(second.bytes(order) + none =~= second.bytes(order));
}

/// A read that returns no byte gives no event: the end of the channel where
/// it returned zero, a failure with the platform's text where it returned
/// less, and no byte is left with the channel.
pub proof fn lemma_no_event_without_bytes(read: ReadReply, order: ByteOrder)
    requires
        read.ret <= 0,
    ensures
        read.ret == 0 ==> read_result(read, order) == Err::<Record, Error>(Error::EndOfChannel),
        read.ret < 0 ==> read_result(read, order) == Err::<Record, Error>(
            Error::ReadFailure(read.error),
        ),
        left_by_read(read, order).len() == 0,
{
}

impl INotify {
    /// A channel is valid while its descriptor is not negative.
    pub open spec fn wf(&self) -> bool {
        self.fd >= 0
    }

    /// The call that creates a channel with no flag set.
    pub fn init_request() -> (request: Request)
        ensures
            request == (Request::Init { flags: 0 }),
    {
        INotify::init_with_flags_request(0)
    }

    /// The call that creates a channel. The flags are handed on as they are.
    pub fn init_with_flags_request(flags: i32) -> (request: Request)
        ensures
            request == (Request::Init { flags }),
    {
        Request::Init { flags }
    }

    /// The channel that the call of [`INotify::init_request`] has created, or
    /// why there is none.
    pub fn init(reply: Reply) -> (result: Result<INotify, Error>)
        ensures
            match result {
                Ok(channel) => init_result(reply) == Ok::<i32, Error>(channel.fd)
                    && channel.pending@.len() == 0 && channel.wf(),
                Err(error) => init_result(reply) == Err::<i32, Error>(error),
            },
    {
        INotify::init_with_flags(reply)
    }

    /// The channel that the call of [`INotify::init_with_flags_request`] has
    /// created, or why there is none.
    pub fn init_with_flags(reply: Reply) -> (result: Result<INotify, Error>)
        ensures
            match result {
                Ok(channel) => init_result(reply) == Ok::<i32, Error>(channel.fd)
                    && channel.pending@.len() == 0 && channel.wf(),
                Err(error) => init_result(reply) == Err::<i32, Error>(error),
            },
    {
        if reply.ret >= 0 {
            Ok(INotify { fd: reply.ret, pending: Vec::new() })
        } else {
            Err(Error::InitFailure(reply.error))
        }
    }

    /// The call that adds a watch for `path_name`. Where the path is watched
    /// already, the kernel updates that watch and hands out its identifier
    /// again. The path is handed over with a zero byte after it; one that
    /// holds a zero byte cannot be, and then there is no call to make.
    pub fn add_watch_request(&self, path_name: &str, mask: u32) -> (result: Result<Request, Error>)
        ensures
            match result {
                Ok(request) => {
                    &&& !path_name.spec_bytes().contains(0)
                    &&& request matches Request::AddWatch { fd, path, mask: bits }
                    &&& fd == self.fd
                    &&& path@ == path_name.spec_bytes().push(0)
                    &&& bits == mask
                },
                Err(error) => path_name.spec_bytes().contains(0) && error == Error::InvalidPath,
            },
    {
        match to_c_string(path_name.as_bytes()) {
            Some(path) => Ok(Request::AddWatch { fd: self.fd, path, mask }),
            None => Err(Error::InvalidPath),
        }
    }

    /// The watch that the call of [`INotify::add_watch_request`] has added
    /// or updated, or why there is none.
    pub fn add_watch(&self, reply: Reply) -> (result: Result<Watch, Error>)
        ensures
            result == add_watch_result(reply),
            result matches Ok(watch) ==> watch >= 0,
    {
        if reply.ret >= 0 {
            Ok(reply.ret)
        } else {
            Err(Error::AddWatchFailure(reply.error))
        }
    }

    /// The call that removes a watch.
    pub fn rm_watch_request(&self, watch: Watch) -> (request: Request)
        ensures
            request == (Request::RmWatch { fd: self.fd, wd: watch }),
    {
        Request::RmWatch { fd: self.fd, wd: watch }
    }

    /// Whether the call of [`INotify::rm_watch_request`] has removed the
    /// watch. The call is documented to return 0 or -1 and nothing else.
    pub fn rm_watch(&self, reply: Reply) -> (result: Result<(), Error>)
        requires
            reply.ret == 0 || reply.ret == -1,
        ensures
            result == rm_watch_result(reply),
    {
        if reply.ret == 0 {
            Ok(())
        } else {
            Err(Error::RemoveWatchFailure(reply.error))
        }
    }

    /// The call that reads from the channel, or none where an earlier read
    /// has left bytes with the channel: they hold the next event.
    pub fn event_request(&self) -> (request: Option<ReadRequest>)
        ensures
            request is None <==> self.pending@.len() > 0,
            request matches Some(read) ==> read == (ReadRequest {
                fd: self.fd,
                count: EVENT_BUFFER_SIZE,
            }),
    {
        if self.pending.len() > 0 {
            None
        } else {
            Some(ReadRequest { fd: self.fd, count: EVENT_BUFFER_SIZE })
        }
    }

    /// The next event of the channel, or why there is none. `reply` is what
    /// came back from the call that [`INotify::event_request`] has named, and
    /// nothing where it has named none; `order` is the byte order of the
    /// machine that wrote the records.
    ///
    /// Where bytes are left from an earlier read, their first record is the
    /// event. Else it is the first record that the read has returned. What
    /// stands behind the event stays with the channel.
    pub fn event(
        &mut self,
        reply: Option<ReadReply>,
        order: ByteOrder,
    ) -> (result: Result<Event, Error>)
        requires
            reply is Some <==> old(self).pending@.len() == 0,
        ensures
            final(self).fd == old(self).fd,
            match reply {
                None => {
                    &&& result matches Ok(event)
                    &&& event@ == first_record(old(self).pending@, order)
                    &&& final(self).pending@ == after_first(old(self).pending@, order)
                },
                Some(read) => {
                    &&& match result {
                        Ok(event) => read_result(read, order) == Ok::<Record, Error>(event@),
                        Err(error) => read_result(read, order) == Err::<Record, Error>(error),
                    }
                    &&& final(self).pending@ == left_by_read(read, order)
                },
            },
            result is Err <==> (reply matches Some(read) && read.ret <= 0),
            result matches Ok(event) ==> event@.wf(),
            reply is None ==> final(self).pending@.len() < old(self).pending@.len(),
    {
        let left: usize = self.pending.len();
        if left > 0 {
            let end: usize = Event::end_of_first(self.pending.as_slice(), order);
            let event: Event = Event::decode(self.pending.as_slice(), order);
            let rest: Vec<u8> = slice_to_vec(slice_subrange(self.pending.as_slice(), end, left));
            self.pending = rest;
            return Ok(event);
        }
        match reply {
            None => unreached(),
            Some(read) => {
                if read.ret == 0 {
                    Err(Error::EndOfChannel)
                } else if read.ret < 0 {
                    Err(Error::ReadFailure(read.error))
                } else {
                    let held: usize = read.buffer.len();
                    let count: usize = if read.ret as usize >= held {
                        held
                    } else {
                        read.ret as usize
                    };
                    let bytes: &[u8] = slice_subrange(read.buffer.as_slice(), 0, count);
                    assert(bytes@ =~= read.bytes());
                    let end: usize = Event::end_of_first(bytes, order);
                    let event: Event = Event::decode(bytes, order);
                    self.pending = slice_to_vec(slice_subrange(bytes, end, count));
                    Ok(event)
                }
            },
        }
    }

    /// The call that closes the channel.
    pub fn close_request(&self) -> (request: Request)
        ensures
            request == (Request::Close { fd: self.fd }),
    {
        Request::Close { fd: self.fd }
    }

    /// Whether the call of [`INotify::close_request`] has closed the channel.
    /// A channel that has been closed keeps no bytes of an earlier read: no
    /// event comes from it without a read.
    pub fn close(&mut self, reply: Reply) -> (result: Result<(), Error>)
        ensures
            result == close_result(reply),
            final(self).fd == old(self).fd,
            final(self).pending@ == if reply.ret == 0 {
                Seq::<u8>::empty()
            } else {
                old(self).pending@
            },
    {
        if reply.ret == 0 {
            self.pending.clear();
            Ok(())
        } else {
            Err(Error::CloseFailure(reply.error))
        }
    }
}

} // verus!

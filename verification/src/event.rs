//! The record that the kernel writes for one event, and how it is decoded.
//!
//! A record is a fixed part of four 32-bit words in the byte order of the
//! machine (the watch, the mask, the cookie and the length of what follows),
//! and after it as many bytes as that length says: the name of a directory
//! entry, filled up with zero bytes.

use vstd::prelude::*;
use crate::cstr::from_c_string;
use crate::cstr::lemma_until_nul;
use crate::cstr::lemma_until_nul_of_filled;
use crate::cstr::until_nul;
use crate::raw::Watch;
use crate::raw::HEADER_SIZE;

verus! {

/// The order in which the bytes of a word lie in memory.
#[derive(Debug, Clone, Copy, PartialEq, Eq)]
pub enum ByteOrder {
    /// The least significant byte first.
    Little,
    /// The most significant byte first.
    Big,
}

/// `u16::from_ne_bytes`: the number that the two bytes stand for in the
/// machine's byte order, which is one of the two orders.
#[verifier::external_body]
fn native_u16(bytes: [u8; 2]) -> (value: u16)
    ensures
        value == bytes[0] + 256 * bytes[1] || value == 256 * bytes[0] + bytes[1],
{
    u16::from_ne_bytes(bytes)
}

impl ByteOrder {
    /// The byte order of the machine that this runs on, and so that of the
    /// records that its kernel writes.
    pub fn native() -> (order: ByteOrder) {
        ByteOrder::from_probe(native_u16([1u8, 0u8]))
    }

    /// The byte order in which the bytes 1 and 0 stand for `probe`.
    pub fn from_probe(probe: u16) -> (order: ByteOrder)
        ensures
            order == probe_order(probe),
    {
        if probe == 1 {
            ByteOrder::Little
        } else {
            ByteOrder::Big
        }
    }
}

/// The byte order that a probe tells of: the two bytes 1 and 0, in this
/// sequence, stand for 1 where the least significant byte comes first, and
/// for another number where it does not.
pub open spec fn probe_order(probe: u16) -> ByteOrder {
    if probe == 1 {
        ByteOrder::Little
    } else {
        ByteOrder::Big
    }
}

/// The byte at `at`, and zero past the end of `data`.
pub open spec fn byte_at(data: Seq<u8>, at: int) -> int {
    if 0 <= at < data.len() {
        data[at] as int
    } else {
        0
    }
}

/// The 32-bit word whose four bytes begin at `at`.
pub open spec fn word_at(data: Seq<u8>, at: int, order: ByteOrder) -> int {
    match order {
        ByteOrder::Little => byte_at(data, at) + 0x100 * byte_at(data, at + 1) + 0x1_0000
            * byte_at(data, at + 2) + 0x100_0000 * byte_at(data, at + 3),
        ByteOrder::Big => 0x100_0000 * byte_at(data, at) + 0x1_0000 * byte_at(data, at + 1)
            + 0x100 * byte_at(data, at + 2) + byte_at(data, at + 3),
    }
}

/// The number that a 32-bit word stands for in two's complement.
pub open spec fn signed(word: int) -> int {
    if word < 0x8000_0000 {
        word
    } else {
        word - 0x1_0000_0000
    }
}

/// The bytes that follow the fixed part of the first record in `data`: `len`
/// of them, or as many as `data` still holds.
pub open spec fn trailing(data: Seq<u8>, len: int) -> Seq<u8> {
    if data.len() <= HEADER_SIZE {
        Seq::empty()
    } else if HEADER_SIZE + len >= data.len() {
        data.skip(HEADER_SIZE as int)
    } else {
        data.subrange(HEADER_SIZE as int, HEADER_SIZE + len)
    }
}

/// Where the first record in `data` ends: behind its trailing bytes, and no
/// further than `data` does.
pub open spec fn record_end(data: Seq<u8>, order: ByteOrder) -> int {
    let end = HEADER_SIZE + word_at(data, 12, order);
    if end >= data.len() {
        data.len() as int
    } else {
        end
    }
}

/// What `data` holds behind its first record.
pub open spec fn after_first(data: Seq<u8>, order: ByteOrder) -> Seq<u8> {
    data.skip(record_end(data, order))
}

/// An event as a value of mathematics: what an [`Event`] stands for.
pub struct Record {
    pub wd: int,
    pub mask: int,
    pub cookie: int,
    pub len: int,
    pub name: Option<Seq<u8>>,
}

/// The first record in `data`. Bytes of the fixed part that `data` does not
/// hold count as zero. There is a name where the record's length field is not
/// zero: the trailing bytes up to the first zero byte.
pub open spec fn first_record(data: Seq<u8>, order: ByteOrder) -> Record {
    let len = word_at(data, 12, order);
    Record {
        wd: signed(word_at(data, 0, order)),
        mask: word_at(data, 4, order),
        cookie: word_at(data, 8, order),
        len,
        name: if len == 0 {
            None
        } else {
            Some(until_nul(trailing(data, len)))
        },
    }
}

impl Record {
    /// A record is well formed where its numbers fit their words, it has a
    /// name just where its length is not zero, and the name holds no zero
    /// byte and is no longer than that length.
    pub open spec fn wf(self) -> bool {
        &&& -0x8000_0000 <= self.wd < 0x8000_0000
        &&& 0 <= self.mask < 0x1_0000_0000
        &&& 0 <= self.cookie < 0x1_0000_0000
        &&& 0 <= self.len < 0x1_0000_0000
        &&& match self.name {
            Some(name) => 0 < self.len && name.len() <= self.len && !name.contains(0),
            None => self.len == 0,
        }
    }

    /// The bytes that stand for the record: the four words, then the name
    /// and as many zero bytes as fill it up to the record's length.
    pub open spec fn bytes(self, order: ByteOrder) -> Seq<u8> {
        let fixed = word_bytes(unsigned(self.wd), order) + word_bytes(self.mask, order)
            + word_bytes(self.cookie, order) + word_bytes(self.len, order);
        match self.name {
            Some(name) => fixed + name + zeros(self.len - name.len()),
            None => fixed,
        }
    }
}

/// The four bytes of a 32-bit word.
#[verifier::opaque]
pub open spec fn word_bytes(word: int, order: ByteOrder) -> Seq<u8> {
    let b0 = (word % 0x100) as u8;
    let b1 = (word / 0x100 % 0x100) as u8;
    let b2 = (word / 0x1_0000 % 0x100) as u8;
    let b3 = (word / 0x100_0000 % 0x100) as u8;
    match order {
        ByteOrder::Little => seq![b0, b1, b2, b3],
        ByteOrder::Big => seq![b3, b2, b1, b0],
    }
}

/// The 32-bit word that stands for a number in two's complement.
pub open spec fn unsigned(value: int) -> int {
    if value < 0 {
        value + 0x1_0000_0000
    } else {
        value
    }
}

/// So many zero bytes.
pub open spec fn zeros(count: int) -> Seq<u8> {
    Seq::new(count as nat, |i: int| 0u8)
}

/// One event of a channel.
#[derive(Debug, Clone, PartialEq, Eq)]
pub struct Event {
    /// The watch that the event belongs to.
    pub wd: Watch,
    /// What has happened, one bit for each kind of event.
    pub mask: u32,
    /// A number that two events which belong together share.
    pub cookie: u32,
    /// The number of bytes that follow the fixed part of the record, the
    /// filling of the name included.
    pub len: u32,
    /// The name of the directory entry that the event is about, for an
    /// event inside a watched directory.
    pub name: Option<Vec<u8>>,
}

impl View for Event {
    type V = Record;

    open spec fn view(&self) -> Record {
        Record {
            wd: self.wd as int,
            mask: self.mask as int,
            cookie: self.cookie as int,
            len: self.len as int,
            name: match self.name {
                Some(name) => Some(name@),
                None => None,
            },
        }
    }
}

/// Whatever the bytes are, the first record among them is well formed.
pub proof fn lemma_first_record_wf(data: Seq<u8>, order: ByteOrder)
    ensures
        first_record(data, order).wf(),
{
    let len = word_at(data, 12, order);
    lemma_until_nul(trailing(data, len));
}

/// A word is read back from its four bytes.
pub proof fn lemma_word_of_bytes(word: int, order: ByteOrder)
    requires
        0 <= word < 0x1_0000_0000,
    ensures
        word_bytes(word, order).len() == 4,
        word_at(word_bytes(word, order), 0, order) == word,
{
    reveal(word_bytes);
}

/// A word is read from its four bytes alone, whatever stands before and
/// after them.
pub proof fn lemma_word_at_inside(before: Seq<u8>, four: Seq<u8>, after: Seq<u8>, order: ByteOrder)
    requires
        four.len() == 4,
    ensures
        word_at(before + four + after, before.len() as int, order) == word_at(four, 0, order),
{
    let data = before + four + after;
    let at = before.len() as int;
    assert(data[at] == four[0]);
    assert(data[at + 1] == four[1]);
    assert(data[at + 2] == four[2]);
    assert(data[at + 3] == four[3]);
}

/// The trailing bytes of a record are found behind its fixed part, whatever
/// follows them.
pub proof fn lemma_trailing_of_bytes(fixed: Seq<u8>, tail: Seq<u8>, rest: Seq<u8>)
    requires
        fixed.len() == HEADER_SIZE,
    ensures
        tail.len() > 0 ==> trailing(fixed + tail + rest, tail.len() as int) == tail,
{
    if tail.len() > 0 {
        let data = fixed + tail + rest;
        assert(data.len() == HEADER_SIZE + tail.len() + rest.len());
        assert(trailing(data, tail.len() as int) =~= tail);
    }
}

/// Decoding undoes the layout: the first record among the bytes of a well
/// formed record is that record, whatever follows it.
pub proof fn lemma_first_record_of_bytes(record: Record, order: ByteOrder, rest: Seq<u8>)
    requires
        record.wf(),
    ensures
        first_record(record.bytes(order) + rest, order) == record,
{
    let data = record.bytes(order) + rest;
    let wd = unsigned(record.wd);
    let w0 = word_bytes(wd, order);
    let w1 = word_bytes(record.mask, order);
    let w2 = word_bytes(record.cookie, order);
    let w3 = word_bytes(record.len, order);
    let fixed = w0 + w1 + w2 + w3;
    let tail = match record.name {
        Some(name) => name + zeros(record.len - name.len()),
        None => Seq::<u8>::empty(),
    };
    let none = Seq::<u8>::empty();
    lemma_word_of_bytes(wd, order);
    lemma_word_of_bytes(record.mask, order);
    lemma_word_of_bytes(record.cookie, order);
    lemma_word_of_bytes(record.len, order);
    assert(data == fixed + tail + rest) by {
        assert(data =~= fixed + tail + rest);
    }
    assert(word_at(data, 0, order) == wd) by {
        lemma_word_at_inside(none, w0, w1 + w2 + w3 + tail + rest, order);
        assert(data =~= none + w0 + (w1 + w2 + w3 + tail + rest));
    }
    assert(word_at(data, 4, order) == record.mask) by {
        lemma_word_at_inside(w0, w1, w2 + w3 + tail + rest, order);
        assert(data =~= w0 + w1 + (w2 + w3 + tail + rest));
    }
    assert(word_at(data, 8, order) == record.cookie) by {
        lemma_word_at_inside(w0 + w1, w2, w3 + tail + rest, order);
        assert(data =~= w0 + w1 + w2 + (w3 + tail + rest));
    }
    assert(word_at(data, 12, order) == record.len) by {
        lemma_word_at_inside(w0 + w1 + w2, w3, tail + rest, order);
        assert(data =~= w0 + w1 + w2 + w3 + (tail + rest));
    }
    assert(first_record(data, order).name == record.name) by {
        match record.name {
            Some(name) => {
                let filling = zeros(record.len - name.len());
                lemma_trailing_of_bytes(fixed, tail, rest);
                lemma_until_nul_of_filled(name, filling);
            },
            None => {},
        }
    }
}

/// The bytes of a well formed record end where the record ends: what
/// follows them is what is left behind the first record.
pub proof fn lemma_after_first_of_bytes(record: Record, order: ByteOrder, rest: Seq<u8>)
    requires
        record.wf(),
    ensures
        record.bytes(order).len() == HEADER_SIZE + record.len,
        record_end(record.bytes(order) + rest, order) == HEADER_SIZE + record.len,
        after_first(record.bytes(order) + rest, order) == rest,
{
    let bytes = record.bytes(order);
    let data = bytes + rest;
    lemma_first_record_of_bytes(record, order, rest);
    assert(first_record(data, order).len == record.len);
    assert(bytes.len() == HEADER_SIZE + record.len) by {
        lemma_word_of_bytes(unsigned(record.wd), order);
        lemma_word_of_bytes(record.mask, order);
        lemma_word_of_bytes(record.cookie, order);
        lemma_word_of_bytes(record.len, order);
    }
    assert(data.skip(bytes.len() as int) =~= rest);
}

/// Records that stand one after the other come out one after the other:
/// the first is decoded from the bytes, the second from what is left behind
/// the first, and what follows both is left behind the second.
pub proof fn lemma_records_in_sequence(
    first: Record,
    second: Record,
    order: ByteOrder,
    rest: Seq<u8>,
)
    requires
        first.wf(),
        second.wf(),
    ensures
        ({
            let data = first.bytes(order) + second.bytes(order) + rest;
            let left = after_first(data, order);
            &&& first_record(data, order) == first
            &&& first_record(left, order) == second
            &&& after_first(left, order) == rest
        }),
{
    let data = first.bytes(order) + second.bytes(order) + rest;
    let tail = second.bytes(order) + rest;
    assert(data =~= first.bytes(order) + tail);
    lemma_first_record_of_bytes(first, order, tail);
    lemma_after_first_of_bytes(first, order, tail);
    lemma_first_record_of_bytes(second, order, rest);
    lemma_after_first_of_bytes(second, order, rest);
}

fn byte(data: &[u8], at: usize) -> (b: u8)
    ensures
        b == byte_at(data@, at as int),
{
    if at < data.len() {
        data[at]
    } else {
        0
    }
}

fn word(data: &[u8], at: usize, order: ByteOrder) -> (w: u32)
    requires
        at <= 12,
    ensures
        w == word_at(data@, at as int, order),
{
    let b0: u32 = byte(data, at) as u32;
    let b1: u32 = byte(data, at + 1) as u32;
    let b2: u32 = byte(data, at + 2) as u32;
    let b3: u32 = byte(data, at + 3) as u32;
    match order {
        ByteOrder::Little => b0 + 0x100 * b1 + 0x1_0000 * b2 + 0x100_0000 * b3,
        ByteOrder::Big => 0x100_0000 * b0 + 0x1_0000 * b1 + 0x100 * b2 + b3,
    }
}

fn to_signed(word: u32) -> (value: i32)
    ensures
        value == signed(word as int),
{
    if word < 0x8000_0000 {
        word as i32
    } else {
        let low: i32 = (word - 0x8000_0000) as i32;
        low - 0x7fff_ffff - 1
    }
}

impl Event {
    /// Decodes the first record in `data`, which a read of a channel has
    /// returned.
    pub fn decode(data: &[u8], order: ByteOrder) -> (event: Event)
        ensures
            event@ == first_record(data@, order),
            event@.wf(),
    {
        proof {
            lemma_first_record_wf(data@, order);
        }
        let wd: i32 = to_signed(word(data, 0, order));
        let mask: u32 = word(data, 4, order);
        let cookie: u32 = word(data, 8, order);
        let len: u32 = word(data, 12, order);
        if len == 0 {
            return Event { wd, mask, cookie, len, name: None };
        }
        if data.len() <= HEADER_SIZE {
            assert(until_nul(Seq::<u8>::empty()) =~= Seq::<u8>::empty());
            return Event { wd, mask, cookie, len, name: Some(Vec::new()) };
        }
        let end: usize = Event::end_of_first(data, order);
        let region: &[u8] = vstd::slice::slice_subrange(data, HEADER_SIZE, end);
        assert(region@ =~= trailing(data@, len as int));
        let name: Vec<u8> = from_c_string(region);
        Event { wd, mask, cookie, len, name: Some(name) }
    }

    /// The number of bytes that the first record in `data` takes up: the
    /// next record, where there is one, begins behind them.
    pub fn end_of_first(data: &[u8], order: ByteOrder) -> (end: usize)
        ensures
            end == record_end(data@, order),
            end <= data@.len(),
            data@.len() > 0 ==> end > 0,
    {
        let len: u32 = word(data, 12, order);
        let held: usize = data.len();
        if held <= HEADER_SIZE || len as usize >= held - HEADER_SIZE {
            held
        } else {
            HEADER_SIZE + len as usize
        }
    }
}

} // verus!

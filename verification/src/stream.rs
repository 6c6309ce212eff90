//! The byte stream that the metadata lives on, as an abstract interface, and
//! an in-memory stream of fixed size.

use vstd::prelude::*;

verus! {

/// Why an operation on a byte stream failed.
#[derive(Clone, Copy, Debug, PartialEq, Eq, Structural)]
pub enum IoError {
    /// A read wanted more bytes than the stream holds behind its position.
    UnexpectedEof,
    /// A write could not place all of its bytes.
    WriteZero,
    /// Any other failure of the underlying device.
    Other,
}

/// A sequence of `n` zero bytes.
pub open spec fn zeros(n: nat) -> Seq<u8> {
    Seq::new(n, |i: int| 0u8)
}

/// What a stream of fixed length that held `bytes` holds after a write of
/// `data` at `at`: `data` in place of what stood at `[at, at + data.len())`,
/// or, where the write reaches behind the end, what it held.
pub open spec fn overwrite(bytes: Seq<u8>, at: int, data: Seq<u8>) -> Seq<u8> {
    if 0 <= at && at + data.len() <= bytes.len() {
        Seq::new(
            bytes.len(),
            |i: int|
                if at <= i < at + data.len() {
                    data[i - at]
                } else {
                    bytes[i]
                },
        )
    } else {
        bytes
    }
}

/// What a write of `len` bytes at `at` returns on a predictable stream that
/// holds `bytes`.
pub open spec fn write_outcome(bytes: Seq<u8>, at: int, len: int) -> Result<(), IoError> {
    if at + len <= bytes.len() {
        Ok(())
    } else {
        Err(IoError::WriteZero)
    }
}

/// What a flush behind writes that reach up to `end` makes durable: the
/// stream as written, if it is long enough for all of them to have succeeded;
/// else nothing, since the flush is not reached.
pub open spec fn flushed_once(written: Seq<u8>, end: int) -> Seq<Seq<u8>> {
    if end <= written.len() {
        seq![written]
    } else {
        Seq::empty()
    }
}

/// Whether a read of `len` bytes at `at` touches an offset in `unreadable`.
pub open spec fn touches(unreadable: Set<int>, at: int, len: int) -> bool {
    exists|i: int| at <= i < at + len && #[trigger] unreadable.contains(i)
}

/// A seekable stream of bytes with a durable flush.
///
/// The contracts describe a `predictable` stream: one of fixed length, with
/// a fixed set of offsets that cannot be read. On such a stream a read fails
/// when it reaches behind the end or touches an offset that cannot be read, a
/// write fails when it reaches behind the end, and nothing else fails.
/// `bytes` is what the stream holds, `unreadable` are the offsets that
/// cannot be read, `position` is where the next read or write begins, and
/// `flushed` lists what the stream held at each flush, oldest first: the
/// contents that were made durable. Of a stream that is not predictable
/// nothing is claimed, and that is what an implementation is unless it says
/// otherwise.
pub trait ByteStream {
    /// Whether the stream behaves as the contracts say.
    open spec fn predictable(&self) -> bool {
        false
    }

    /// What the stream holds.
    open spec fn bytes(&self) -> Seq<u8> {
        Seq::empty()
    }

    /// The offsets that cannot be read.
    open spec fn unreadable(&self) -> Set<int> {
        Set::empty()
    }

    /// Where the next read or write begins.
    open spec fn position(&self) -> nat {
        0
    }

    /// What the stream held at each flush, oldest first.
    open spec fn flushed(&self) -> Seq<Seq<u8>> {
        Seq::empty()
    }

    /// Moves the position to `offset` bytes from the start.
    fn seek(&mut self, offset: u64) -> (r: Result<(), IoError>)
        ensures
            final(self).predictable() == old(self).predictable(),
            old(self).predictable() ==> {
                &&& r is Ok
                &&& final(self).bytes() == old(self).bytes()
                &&& final(self).unreadable() == old(self).unreadable()
                &&& final(self).flushed() == old(self).flushed()
                &&& final(self).position() == offset
            },
    ;

    /// Reads exactly `len` bytes at the position and moves behind them.
    fn read_exact(&mut self, len: u64) -> (r: Result<Vec<u8>, IoError>)
        ensures
            final(self).predictable() == old(self).predictable(),
            old(self).predictable() ==> {
                &&& final(self).bytes() == old(self).bytes()
                &&& final(self).unreadable() == old(self).unreadable()
                &&& final(self).flushed() == old(self).flushed()
                &&& bytes_read(r) == read_outcome(
                    old(self).bytes(),
                    old(self).unreadable(),
                    old(self).position() as int,
                    len as int,
                )
                &&& r is Ok ==> final(self).position() == old(self).position() + len
            },
    ;

    /// Writes all of `data` at the position and moves behind it.
    fn write_all(&mut self, data: &[u8]) -> (r: Result<(), IoError>)
        ensures
            final(self).predictable() == old(self).predictable(),
            old(self).predictable() ==> {
                &&& final(self).unreadable() == old(self).unreadable()
                &&& final(self).flushed() == old(self).flushed()
                &&& final(self).bytes() == overwrite(
                    old(self).bytes(),
                    old(self).position() as int,
                    data@,
                )
                &&& r == write_outcome(
                    old(self).bytes(),
                    old(self).position() as int,
                    data@.len() as int,
                )
                &&& r is Ok ==> final(self).position() == old(self).position() + data@.len()
            },
    ;

    /// Makes everything written so far durable.
    fn sync_all(&mut self) -> (r: Result<(), IoError>)
        ensures
            final(self).predictable() == old(self).predictable(),
            old(self).predictable() ==> {
                &&& r is Ok
                &&& final(self).bytes() == old(self).bytes()
                &&& final(self).unreadable() == old(self).unreadable()
                &&& final(self).flushed() == old(self).flushed().push(old(self).bytes())
                &&& final(self).position() == old(self).position()
            },
    ;
}

/// What a read of `len` bytes at `at` gives on a predictable stream that
/// holds `bytes` and cannot be read at `unreadable`: the bytes, or why it
/// fails.
pub open spec fn read_outcome(bytes: Seq<u8>, unreadable: Set<int>, at: int, len: int) -> Result<
    Seq<u8>,
    IoError,
> {
    if at + len > bytes.len() {
        Err(IoError::UnexpectedEof)
    } else if touches(unreadable, at, len) {
        Err(IoError::Other)
    } else {
        Ok(bytes.subrange(at, at + len))
    }
}

/// Whether a read of `len` bytes at `at` succeeds on a predictable stream
/// that holds `bytes` and cannot be read at `unreadable`.
pub open spec fn can_read(bytes: Seq<u8>, unreadable: Set<int>, at: int, len: int) -> bool {
    at + len <= bytes.len() && !touches(unreadable, at, len)
}

/// The result of a read, with the bytes that were read as a sequence.
pub open spec fn bytes_read(r: Result<Vec<u8>, IoError>) -> Result<Seq<u8>, IoError> {
    match r {
        Ok(data) => Ok(data@),
        Err(e) => Err(e),
    }
}

/// Reads exactly `len` bytes at `offset`. A stream that hands back another
/// number of bytes than was asked for has failed.
pub fn read_at<F: ByteStream>(f: &mut F, offset: u64, len: u64) -> (r: Result<Vec<u8>, IoError>)
    ensures
        final(f).predictable() == old(f).predictable(),
        old(f).predictable() ==> final(f).unreadable() == old(f).unreadable(),
        r matches Ok(data) ==> data@.len() == len,
        old(f).predictable() ==> {
            &&& final(f).bytes() == old(f).bytes()
            &&& final(f).flushed() == old(f).flushed()
            &&& bytes_read(r) == read_outcome(
                old(f).bytes(),
                old(f).unreadable(),
                offset as int,
                len as int,
            )
            &&& r is Ok ==> final(f).position() == offset + len
        },
{
    match f.seek(offset) {
        Ok(()) => {},
        Err(e) => {
            return Err(e);
        },
    }
    match f.read_exact(len) {
        Ok(data) => {
            if data.len() as u64 == len {
                Ok(data)
            } else {
                Err(IoError::UnexpectedEof)
            }
        },
        Err(e) => Err(e),
    }
}

/// Writes all of `data` at `offset`.
pub fn write_at<F: ByteStream>(f: &mut F, offset: u64, data: &[u8]) -> (r: Result<(), IoError>)
    ensures
        final(f).predictable() == old(f).predictable(),
        old(f).predictable() ==> final(f).unreadable() == old(f).unreadable(),
        old(f).predictable() ==> {
            &&& final(f).flushed() == old(f).flushed()
            &&& final(f).bytes() == overwrite(old(f).bytes(), offset as int, data@)
            &&& r == write_outcome(old(f).bytes(), offset as int, data@.len() as int)
            &&& r is Ok ==> final(f).position() == offset + data@.len()
        },
{
    match f.seek(offset) {
        Ok(()) => {},
        Err(e) => {
            return Err(e);
        },
    }
    f.write_all(data)
}

/// A stream of fixed length held in memory. It can be made with a range of
/// offsets that cannot be read, to stand for a device with bad sectors.
#[derive(Clone)]
pub struct MemStream {
    data: Vec<u8>,
    pos: u64,
    /// The first offset that cannot be read.
    bad_from: u64,
    /// The first offset behind `bad_from` that can be read.
    bad_to: u64,
    flushed: Ghost<Seq<Seq<u8>>>,
}

impl MemStream {
    /// A stream over `data`, positioned at its start.
    pub fn new(data: Vec<u8>) -> (s: MemStream)
        ensures
            s.predictable(),
            s.bytes() == data@,
            s.unreadable() == Set::<int>::empty(),
            s.position() == 0,
            s.flushed() == Seq::<Seq<u8>>::empty(),
    {
        let s = MemStream { data, pos: 0, bad_from: 0, bad_to: 0, flushed: Ghost(Seq::empty()) };
        assert(s.unreadable() =~= Set::<int>::empty());
        s
    }

    /// A stream over `data`, positioned at its start, of which the offsets
    /// from `from` up to `to` cannot be read.
    pub fn with_unreadable(data: Vec<u8>, from: u64, to: u64) -> (s: MemStream)
        ensures
            s.predictable(),
            s.bytes() == data@,
            s.unreadable() == Set::new(|i: int| from <= i < to),
            s.position() == 0,
            s.flushed() == Seq::<Seq<u8>>::empty(),
    {
        MemStream { data, pos: 0, bad_from: from, bad_to: to, flushed: Ghost(Seq::empty()) }
    }

    /// The bytes that the stream holds.
    pub fn get_ref(&self) -> (data: &Vec<u8>)
        ensures
            data@ == self.bytes(),
    {
        &self.data
    }

    /// Gives the bytes back.
    pub fn into_inner(self) -> (data: Vec<u8>)
        ensures
            data@ == self.bytes(),
    {
        self.data
    }
}

impl ByteStream for MemStream {
    closed spec fn predictable(&self) -> bool {
        true
    }

    closed spec fn bytes(&self) -> Seq<u8> {
        self.data@
    }

    closed spec fn unreadable(&self) -> Set<int> {
        Set::new(|i: int| self.bad_from <= i < self.bad_to)
    }

    closed spec fn position(&self) -> nat {
        self.pos as nat
    }

    closed spec fn flushed(&self) -> Seq<Seq<u8>> {
        self.flushed@
    }

    fn seek(&mut self, offset: u64) -> (r: Result<(), IoError>) {
        self.pos = offset;
        Ok(())
    }

    fn read_exact(&mut self, len: u64) -> (r: Result<Vec<u8>, IoError>) {
        let total: usize = self.data.len();
        if self.pos > total as u64 || len > total as u64 - self.pos {
            return Err(IoError::UnexpectedEof);
        }
        if self.bad_from < self.bad_to && self.pos < self.bad_to && self.bad_from < self.pos + len
            && len > 0 {
            proof {
                let hit = if self.bad_from < self.pos {
                    self.pos as int
                } else {
                    self.bad_from as int
                };
                assert(self.unreadable().contains(hit));
            }
            return Err(IoError::Other);
        }
        let start: usize = self.pos as usize;
        let count: usize = len as usize;
        let mut out: Vec<u8> = Vec::with_capacity(count);
        let mut i: usize = 0;
        while i < count
            invariant
                i <= count,
                start + count <= self.data.len(),
                out@ == self.data@.subrange(start as int, start + i),
            decreases count - i,
        {
            out.push(self.data[start + i]);
            i += 1;
        }
        self.pos = self.pos + len;
        Ok(out)
    }

    fn write_all(&mut self, data: &[u8]) -> (r: Result<(), IoError>) {
        let total: usize = self.data.len();
        if self.pos > total as u64 || data.len() as u64 > total as u64 - self.pos {
            return Err(IoError::WriteZero);
        }
        let start: usize = self.pos as usize;
        let mut i: usize = 0;
        while i < data.len()
            invariant
                i <= data.len(),
                start + data.len() <= old(self).data.len(),
                self.pos == old(self).pos,
                self.bad_from == old(self).bad_from,
                self.bad_to == old(self).bad_to,
                self.flushed == old(self).flushed,
                self.data@ == overwrite(old(self).data@, start as int, data@.subrange(0, i as int)),
            decreases data.len() - i,
        {
            self.data.set(start + i, data[i]);
            i += 1;
        }
        proof {
            assert(data@.subrange(0, data@.len() as int) == data@);
        }
        self.pos = self.pos + data.len() as u64;
        Ok(())
    }

    fn sync_all(&mut self) -> (r: Result<(), IoError>) {
        proof {
            self.flushed@ = self.flushed@.push(self.data@);
        }
        Ok(())
    }
}

} // verus!

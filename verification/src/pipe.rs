//! An in-memory, single-chunk byte pipe.
//!
//! A write hands the pipe one chunk; the next write has to wait until readers have
//! taken all of it. Once the pipe is closed (shut down, or its owner dropped), reads
//! return 0 bytes and writes and flushes fail with a broken pipe.
use crate::buffer::{bytes_mut_as_slice, bytes_mut_contents, bytes_mut_from_slice, bytes_mut_len, bytes_mut_split_to, copy_prefix};
use crate::poll::{IoErrorKind, Poll};
use bytes::BytesMut;
use vstd::prelude::*;

verus! {

/// The abstract state of a pipe: the bytes written and not yet read, and whether it is
/// closed.
pub struct PipeView {
    pub buffered: Seq<u8>,
    pub closed: bool,
}

/// Result and next state of reading into a buffer of `cap` bytes.
pub open spec fn read_step(v: PipeView, cap: nat) -> (Poll<nat>, PipeView) {
    if v.closed {
        (Poll::Ready(0), v)
    } else if v.buffered.len() == 0 {
        (Poll::Pending, v)
    } else {
        let amt = if v.buffered.len() <= cap { v.buffered.len() } else { cap };
        (Poll::Ready(amt), PipeView { buffered: v.buffered.skip(amt as int), closed: false })
    }
}

/// Result and next state of writing `data`.
pub open spec fn write_step(v: PipeView, data: Seq<u8>) -> (Poll<Result<nat, IoErrorKind>>, PipeView) {
    if v.closed {
        (Poll::Ready(Err(IoErrorKind::BrokenPipe)), v)
    } else if v.buffered.len() > 0 {
        (Poll::Pending, v)
    } else {
        (Poll::Ready(Ok(data.len())), PipeView { buffered: data, closed: false })
    }
}

/// Result of flushing.
pub open spec fn flush_result(v: PipeView) -> Result<(), IoErrorKind> {
    if v.closed { Err(IoErrorKind::BrokenPipe) } else { Ok(()) }
}

/// State after closing.
pub open spec fn closed_view(v: PipeView) -> PipeView {
    PipeView { buffered: v.buffered, closed: true }
}

/// The bytes that a read into a buffer of `cap` bytes delivers.
pub open spec fn read_bytes(v: PipeView, cap: nat) -> Seq<u8> {
    match read_step(v, cap).0 {
        Poll::Ready(n) => v.buffered.take(n as int),
        Poll::Pending => Seq::empty(),
    }
}

/// What a read gives back of a write: writing `data` into an open, empty pipe succeeds
/// with the whole length, and a read with room for it then delivers exactly `data` and
/// leaves the pipe open and empty again.
pub proof fn lemma_write_then_read(data: Seq<u8>, cap: nat)
    requires
        data.len() > 0,
        cap >= data.len(),
    ensures
        ({
            let empty = PipeView { buffered: Seq::empty(), closed: false };
            let (w, v1) = write_step(empty, data);
            let (r, v2) = read_step(v1, cap);
            &&& w == Poll::<Result<nat, IoErrorKind>>::Ready(Ok(data.len()))
            &&& r == Poll::Ready(data.len())
            &&& read_bytes(v1, cap) == data
            &&& v2 == empty
        }),
{
    let empty = PipeView { buffered: Seq::empty(), closed: false };
    let v1 = write_step(empty, data).1;
    assert(data.take(data.len() as int) =~= data);
    assert(data.skip(data.len() as int) =~= Seq::<u8>::empty());
}

/// Reads deliver the buffered bytes in order: two successive reads on an open pipe
/// deliver, together, a prefix of what was buffered, and what they leave behind is the
/// rest.
pub proof fn lemma_reads_concatenate(v: PipeView, cap1: nat, cap2: nat)
    requires
        !v.closed,
    ensures
        ({
            let (r1, v1) = read_step(v, cap1);
            let (r2, v2) = read_step(v1, cap2);
            let n = (read_bytes(v, cap1) + read_bytes(v1, cap2)).len();
            &&& read_bytes(v, cap1) + read_bytes(v1, cap2) == v.buffered.take(n as int)
            &&& v2.buffered == v.buffered.skip(n as int)
        }),
{
    let (r1, v1) = read_step(v, cap1);
    let (r2, v2) = read_step(v1, cap2);
    let a = read_bytes(v, cap1);
    let b = read_bytes(v1, cap2);
    let n = (a + b).len();
    if v.buffered.len() == 0 {
        assert(a =~= Seq::<u8>::empty());
        assert(b =~= Seq::<u8>::empty());
        assert(v.buffered.take(0) =~= Seq::<u8>::empty());
        assert(v.buffered.skip(0) =~= v.buffered);
    } else {
        let n1 = a.len();
        assert(v1.buffered == v.buffered.skip(n1 as int));
        if v1.buffered.len() == 0 {
            assert(b =~= Seq::<u8>::empty());
            assert(a + b =~= a);
        } else {
            assert(a + b =~= v.buffered.take(n as int));
            assert(v2.buffered =~= v.buffered.skip(n as int));
        }
    }
}

/// A closed pipe stays closed: every read delivers 0 bytes and changes nothing, every
/// write and flush fails with a broken pipe.
pub proof fn lemma_closed_pipe(v: PipeView, cap: nat, data: Seq<u8>)
    requires
        v.closed,
    ensures
        read_step(v, cap) == (Poll::Ready(0nat), v),
        write_step(v, data) == (Poll::<Result<nat, IoErrorKind>>::Ready(Err(IoErrorKind::BrokenPipe)), v),
        flush_result(v) == Err::<(), IoErrorKind>(IoErrorKind::BrokenPipe),
        closed_view(v) == v,
{
}

/// A pipe holds at most one chunk: a write while bytes are still buffered waits and
/// changes nothing.
pub proof fn lemma_write_waits_for_reader(v: PipeView, data: Seq<u8>)
    requires
        !v.closed,
        v.buffered.len() > 0,
    ensures
        write_step(v, data) == (Poll::<Result<nat, IoErrorKind>>::Pending, v),
{
}

/// The buffer logic shared by the pipes: at most one non-empty chunk in flight.
#[derive(Debug)]
pub struct ChunkBuffer {
    buf: Option<BytesMut>,
}

impl ChunkBuffer {
    pub closed spec fn contents(&self) -> Seq<u8> {
        match self.buf {
            Some(b) => bytes_mut_contents(b),
            None => Seq::empty(),
        }
    }

    pub closed spec fn wf(&self) -> bool {
        match self.buf {
            Some(b) => bytes_mut_contents(b).len() > 0,
            None => true,
        }
    }

    pub fn new() -> (c: ChunkBuffer)
        ensures
            c.wf(),
            c.contents() == Seq::<u8>::empty(),
    {
        ChunkBuffer { buf: None }
    }

    pub fn is_empty(&self) -> (e: bool)
        requires
            self.wf(),
        ensures
            e == (self.contents().len() == 0),
    {
        self.buf.is_none()
    }

    /// Moves up to `dst.len()` bytes into the front of `dst`; returns how many.
    pub fn take_into(&mut self, dst: &mut [u8]) -> (amt: usize)
        requires
            old(self).wf(),
            old(self).contents().len() > 0,
        ensures
            final(self).wf(),
            amt as int == if old(self).contents().len() <= old(dst)@.len() {
                old(self).contents().len() as int
            } else {
                old(dst)@.len() as int
            },
            final(self).contents() == old(self).contents().skip(amt as int),
            final(dst)@.len() == old(dst)@.len(),
            final(dst)@.take(amt as int) == old(self).contents().take(amt as int),
            final(dst)@.skip(amt as int) == old(dst)@.skip(amt as int),
    {
        let mut bytes = self.buf.take().unwrap();
        let len = bytes_mut_len(&bytes);
        let amt = if len <= dst.len() { len } else { dst.len() };
        let head = bytes_mut_split_to(&mut bytes, amt);
        copy_prefix(dst, bytes_mut_as_slice(&head), amt);
        if bytes_mut_len(&bytes) == 0 {
            self.buf = None;
            assert(self.contents() =~= old(self).contents().skip(amt as int));
        } else {
            self.buf = Some(bytes);
        }
        amt
    }

    /// Stores `data` as the chunk in flight.
    pub fn put(&mut self, data: &[u8])
        requires
            old(self).wf(),
            old(self).contents().len() == 0,
            data@.len() > 0,
        ensures
            final(self).wf(),
            final(self).contents() == data@,
    {
        self.buf = Some(bytes_mut_from_slice(data));
    }
}

/// An in-memory pipe. Its owner marks it dropped on drop, which closes it.
#[derive(Debug)]
pub struct Pipe {
    buf: ChunkBuffer,
    dropped: bool,
}

impl Pipe {
    pub closed spec fn view(&self) -> PipeView {
        PipeView { buffered: self.buf.contents(), closed: self.dropped }
    }

    pub closed spec fn wf(&self) -> bool {
        self.buf.wf()
    }

    /// An open, empty pipe.
    pub fn new() -> (p: Pipe)
        ensures
            p.wf(),
            p.view() == (PipeView { buffered: Seq::empty(), closed: false }),
    {
        Pipe { buf: ChunkBuffer::new(), dropped: false }
    }

    /// Reads into `dst`. `Ready(n)` means that the first `n` bytes of `dst` now hold the
    /// next `n` buffered bytes (a closed pipe reads 0); `Pending` means that nothing is
    /// buffered yet.
    pub fn poll_read(&mut self, dst: &mut [u8]) -> (r: Poll<usize>)
        requires
            old(self).wf(),
        ensures
            final(self).wf(),
            (match r { Poll::Ready(n) => Poll::Ready(n as nat), Poll::Pending => Poll::Pending },
                final(self).view()) == read_step(old(self).view(), old(dst)@.len()),
            final(dst)@.len() == old(dst)@.len(),
            r matches Poll::Ready(n) ==> final(dst)@.take(n as int) == old(self).view().buffered.take(n as int),
            r matches Poll::Ready(n) ==> final(dst)@.skip(n as int) == old(dst)@.skip(n as int),
            r is Pending ==> final(dst)@ == old(dst)@,
    {
        if self.dropped {
            assert(dst@.take(0) =~= self.view().buffered.take(0));
            assert(dst@.skip(0) =~= dst@);
            return Poll::Ready(0);
        }
        if self.buf.is_empty() {
            return Poll::Pending;
        }
        let amt = self.buf.take_into(dst);
        Poll::Ready(amt)
    }

    /// Writes `data`. It is taken whole once nothing is buffered; until then the write is
    /// `Pending`. An empty write into an empty pipe succeeds with 0 and buffers nothing.
    pub fn poll_write(&mut self, data: &[u8]) -> (r: Poll<Result<usize, IoErrorKind>>)
        requires
            old(self).wf(),
        ensures
            final(self).wf(),
            (match r {
                Poll::Ready(Ok(n)) => Poll::Ready(Ok(n as nat)),
                Poll::Ready(Err(e)) => Poll::Ready(Err(e)),
                Poll::Pending => Poll::Pending,
            }, final(self).view()) == write_step(old(self).view(), data@),
    {
        if self.dropped {
            return Poll::Ready(Err(IoErrorKind::BrokenPipe));
        }
        if !self.buf.is_empty() {
            return Poll::Pending;
        }
        if data.len() == 0 {
            assert(data@ =~= self.view().buffered);
            assert(self.view() == write_step(old(self).view(), data@).1);
            return Poll::Ready(Ok(0));
        }
        self.buf.put(data);
        Poll::Ready(Ok(data.len()))
    }

    /// Flushing fails once the pipe is closed and succeeds otherwise.
    pub fn poll_flush(&self) -> (r: Result<(), IoErrorKind>)
        ensures
            r == flush_result(self.view()),
    {
        if self.dropped {
            Err(IoErrorKind::BrokenPipe)
        } else {
            Ok(())
        }
    }

    /// Shuts the pipe down: it is closed from now on.
    pub fn poll_shutdown(&mut self) -> (r: Result<(), IoErrorKind>)
        requires
            old(self).wf(),
        ensures
            final(self).wf(),
            final(self).view() == closed_view(old(self).view()),
            r == Ok::<(), IoErrorKind>(()),
    {
        self.dropped = true;
        Ok(())
    }

    /// Marks the pipe dropped: it is closed from now on.
    pub fn mark_dropped(&mut self)
        requires
            old(self).wf(),
        ensures
            final(self).wf(),
            final(self).view() == closed_view(old(self).view()),
    {
        self.dropped = true;
    }
}

} // verus!

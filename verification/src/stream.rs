//! Byte sources, byte sinks and progress observers, each with the record of
//! what has passed through it.
//!
//! Contracts cannot speak of a socket or a file. They speak of these records
//! instead: every read, write and report is entered in the order in which it
//! happened, with what it carried and how it ended.

use crate::error::IoError;
use vstd::prelude::*;

verus! {

/// How one read ended.
pub enum ReadEvent {
    /// The read handed out these bytes, at least one.
    Chunk(Seq<u8>),
    /// The read handed out nothing: the stream is at its end.
    End,
    /// The read failed.
    Failed(IoError),
}

/// How one write ended.
pub enum WriteEvent {
    /// The sink took all of these bytes.
    Accepted(Seq<u8>),
    /// The sink was offered these bytes and failed. How many of them it
    /// took before failing is not known.
    Refused(Seq<u8>, IoError),
}

/// The entry for a read that returned `result`, with `buf` as the buffer was
/// when the read returned.
pub open spec fn read_event(result: Result<usize, IoError>, buf: Seq<u8>) -> ReadEvent {
    match result {
        Ok(n) => if n == 0 {
            ReadEvent::End
        } else {
            ReadEvent::Chunk(buf.take(n as int))
        },
        Err(error) => ReadEvent::Failed(error),
    }
}

/// The entry for a write of `data` that returned `result`.
pub open spec fn write_event(data: Seq<u8>, result: Result<(), IoError>) -> WriteEvent {
    match result {
        Ok(_) => WriteEvent::Accepted(data),
        Err(error) => WriteEvent::Refused(data, error),
    }
}

/// What is left of a source after a read that returned `result`: a read
/// takes what it hands out from the front, and a failed read takes nothing.
pub open spec fn remaining_after(remaining: Option<Seq<u8>>, result: Result<usize, IoError>) -> Option<
    Seq<u8>,
> {
    match (remaining, result) {
        (Some(rest), Ok(n)) => Some(rest.skip(n as int)),
        (Some(rest), Err(_)) => Some(rest),
        (None, _) => None,
    }
}

/// Whether a read that returned `result` and left the buffer as `buf` took
/// its bytes from the front of `rest`, and reported the end only at the end.
pub open spec fn handed_out_from(rest: Seq<u8>, result: Result<usize, IoError>, buf: Seq<u8>) -> bool {
    result matches Ok(n) ==> {
        &&& n <= rest.len()
        &&& buf.take(n as int) == rest.take(n as int)
        &&& n == 0 ==> rest.len() == 0
    }
}

/// Something bytes are read from, a buffer at a time.
pub trait ByteSource {
    /// Whether this source is in a state its methods can work with.
    spec fn wf(&self) -> bool;

    /// Every read so far, oldest first.
    spec fn reads(&self) -> Seq<ReadEvent>;

    /// What this source still has to hand out, where that is known. A
    /// source over bytes in memory knows; a socket does not.
    spec fn remaining(&self) -> Option<Seq<u8>>;

    /// A bound on the bytes this source will still hand out.
    spec fn pending(&self) -> nat;

    /// A bound on the interruptions this source will still report.
    spec fn interruptions_left(&self) -> nat;

    /// No source hands out more bytes than a `u64` can count.
    proof fn lemma_pending_is_countable(&self)
        requires
            self.wf(),
        ensures
            self.pending() <= u64::MAX,
    ;

    /// Reads into the front of `buf`. `Ok(n)` says that the first `n` bytes
    /// of `buf` are new data; `Ok(0)` says that the stream has ended. An
    /// error whose kind is `Interrupted` has moved nothing, and the read may
    /// be repeated.
    fn read(&mut self, buf: &mut [u8]) -> (result: Result<usize, IoError>)
        requires
            old(self).wf(),
            old(buf)@.len() > 0,
        ensures
            final(self).wf(),
            final(self).reads() == old(self).reads().push(read_event(result, final(buf)@)),
            final(self).pending() <= old(self).pending(),
            final(self).interruptions_left() <= old(self).interruptions_left(),
            match result {
                Ok(n) => n <= final(buf)@.len() && final(self).pending() + n <= old(
                    self,
                ).pending(),
                Err(error) => error.is_transient() ==> final(self).interruptions_left() < old(
                    self,
                ).interruptions_left(),
            },
            final(self).remaining() == remaining_after(old(self).remaining(), result),
            old(self).remaining() matches Some(rest) ==> handed_out_from(
                rest,
                result,
                final(buf)@,
            ),
    ;
}

/// Something bytes are written to.
pub trait ByteSink {
    /// Whether this sink is in a state its methods can work with.
    spec fn wf(&self) -> bool;

    /// Every write so far, oldest first.
    spec fn writes(&self) -> Seq<WriteEvent>;

    /// Writes all of `data` or fails. A short write does not count as
    /// success.
    fn write_all(&mut self, data: &[u8]) -> (result: Result<(), IoError>)
        requires
            old(self).wf(),
        ensures
            final(self).wf(),
            final(self).writes() == old(self).writes().push(write_event(data@, result)),
    ;
}

/// Something that is told, after every chunk, how many bytes have been
/// written in all.
pub trait ChunkObserver {
    /// Whether this observer is in a state its method can work with.
    spec fn wf(&self) -> bool;

    /// Every total reported so far, oldest first.
    spec fn seen(&self) -> Seq<u64>;

    /// Takes note of the running total. This is expected to be quick, and
    /// it has no way to fail.
    fn on_chunk(&mut self, total: u64)
        requires
            old(self).wf(),
        ensures
            final(self).wf(),
            final(self).seen() == old(self).seen().push(total),
    ;
}

/// The bytes that the sink took in the writes `writes`, in order. What a
/// refused write may have left behind is not counted.
pub open spec fn accepted_bytes(writes: Seq<WriteEvent>) -> Seq<u8>
    decreases writes.len(),
{
    if writes.len() == 0 {
        Seq::empty()
    } else {
        match writes.last() {
            WriteEvent::Accepted(data) => accepted_bytes(writes.drop_last()) + data,
            WriteEvent::Refused(..) => accepted_bytes(writes.drop_last()),
        }
    }
}

/// The chunks that the reads `reads` handed out, in order.
pub open spec fn chunks_of(reads: Seq<ReadEvent>) -> Seq<Seq<u8>>
    decreases reads.len(),
{
    if reads.len() == 0 {
        Seq::empty()
    } else {
        match reads.last() {
            ReadEvent::Chunk(data) => chunks_of(reads.drop_last()).push(data),
            _ => chunks_of(reads.drop_last()),
        }
    }
}

/// One more write adds its bytes to the accepted ones if it succeeded, and
/// nothing otherwise.
pub proof fn lemma_accepted_bytes_push(writes: Seq<WriteEvent>, event: WriteEvent)
    ensures
        accepted_bytes(writes.push(event)) == (match event {
            WriteEvent::Accepted(data) => accepted_bytes(writes) + data,
            WriteEvent::Refused(..) => accepted_bytes(writes),
        }),
{
    assert(writes.push(event).drop_last() =~= writes);
}

/// One more read adds its chunk to the chunks if it handed one out, and
/// nothing otherwise.
pub proof fn lemma_chunks_of_push(reads: Seq<ReadEvent>, event: ReadEvent)
    ensures
        chunks_of(reads.push(event)) == (match event {
            ReadEvent::Chunk(data) => chunks_of(reads).push(data),
            _ => chunks_of(reads),
        }),
{
    assert(reads.push(event).drop_last() =~= reads);
}

} // verus!

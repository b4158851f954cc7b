//! Sources, sinks and observers that live in memory.
//!
//! They do what a socket or a file does, on bytes held in a vector, and they
//! fail where they are told to. A copy can thus be followed from its first
//! read to its result.

use crate::error::IoError;
use crate::stream::{
    accepted_bytes, chunks_of, lemma_accepted_bytes_push, lemma_chunks_of_push, read_event,
    ByteSink, ByteSource, ChunkObserver, ReadEvent, WriteEvent,
};
use vstd::prelude::*;

verus! {

/// A failure that a [`MemorySource`] reports in place of data.
#[derive(Clone, Debug, PartialEq, Eq)]
pub struct Fault {
    /// The failure is reported by the first read that finds at least this
    /// many bytes handed out.
    pub at: usize,
    /// What that read returns.
    pub error: IoError,
}

/// A source over bytes in memory.
///
/// Every read hands out at most `chunk` bytes, and at least one while there
/// are any. The faults are reported one per read, in the order given, each as
/// soon as its position is reached.
pub struct MemorySource {
    data: Vec<u8>,
    pos: usize,
    chunk: usize,
    faults: Vec<Fault>,
    next_fault: usize,
    log: Ghost<Seq<ReadEvent>>,
}

impl MemorySource {
    /// All bytes of the source, read or not.
    pub closed spec fn data(&self) -> Seq<u8> {
        self.data@
    }

    /// Number of bytes handed out so far.
    pub closed spec fn position(&self) -> nat {
        self.pos as nat
    }

    /// Most bytes handed out by one read.
    pub closed spec fn chunk_size(&self) -> nat {
        self.chunk as nat
    }

    /// The faults, reported or not.
    pub closed spec fn faults(&self) -> Seq<Fault> {
        self.faults@
    }

    /// Number of faults reported so far.
    pub closed spec fn faults_reported(&self) -> nat {
        self.next_fault as nat
    }

    /// Whether the next read reports a fault: there is one left, and its
    /// position has been reached.
    pub open spec fn fault_due(&self) -> bool {
        &&& self.faults_reported() < self.faults().len()
        &&& self.faults()[self.faults_reported() as int].at <= self.position()
    }

    /// Number of bytes that the next read hands out into a buffer with
    /// `room` bytes, if it reports no fault: as many as the chunk size, the
    /// buffer and the rest of the data all allow.
    pub open spec fn next_len(&self, room: nat) -> nat {
        let left = (self.data().len() - self.position()) as nat;
        let most = if self.chunk_size() < left {
            self.chunk_size()
        } else {
            left
        };
        if room < most {
            room
        } else {
            most
        }
    }

    /// A source that hands out `data` in pieces of `chunk` bytes and never
    /// fails. A `chunk` of zero is taken for one.
    pub fn new(data: Vec<u8>, chunk: usize) -> (source: MemorySource)
        ensures
            source.wf(),
            source.data() == data@,
            source.remaining() == Some(data@),
            source.position() == 0,
            source.chunk_size() == (if chunk == 0 {
                1
            } else {
                chunk
            }),
            source.faults() == Seq::<Fault>::empty(),
            source.faults_reported() == 0,
            source.reads() == Seq::<ReadEvent>::empty(),
    {
        MemorySource::with_faults(data, chunk, Vec::new())
    }

    /// A source that hands out `data` in pieces of `chunk` bytes and
    /// reports `faults` on the way. A `chunk` of zero is taken for one.
    pub fn with_faults(data: Vec<u8>, chunk: usize, faults: Vec<Fault>) -> (source: MemorySource)
        ensures
            source.wf(),
            source.data() == data@,
            source.remaining() == Some(data@),
            source.position() == 0,
            source.chunk_size() == (if chunk == 0 {
                1
            } else {
                chunk
            }),
            source.faults() == faults@,
            source.faults_reported() == 0,
            source.reads() == Seq::<ReadEvent>::empty(),
    {
        let source = MemorySource {
            data,
            pos: 0,
            chunk: if chunk == 0 {
                1
            } else {
                chunk
            },
            faults,
            next_fault: 0,
            log: Ghost(Seq::empty()),
        };
        proof {
            assert(chunks_of(source.log@).flatten() =~= source.data@.take(0));
            assert(source.data@.skip(0) =~= source.data@);
        }
        source
    }
}

/// What a memory source has handed out so far is the front of its data, up
/// to its position.
pub proof fn lemma_reads_are_front_of_data(source: MemorySource)
    requires
        source.wf(),
    ensures
        source.position() <= source.data().len(),
        chunks_of(source.reads()).flatten() == source.data().take(source.position() as int),
        source.remaining() == Some(source.data().skip(source.position() as int)),
        source.pending() == source.data().len() - source.position(),
        source.interruptions_left() == source.faults().len() - source.faults_reported(),
{
}

impl ByteSource for MemorySource {
    closed spec fn wf(&self) -> bool {
        &&& self.pos <= self.data.len()
        &&& self.next_fault <= self.faults.len()
        &&& self.chunk > 0
        &&& chunks_of(self.log@).flatten() == self.data@.take(self.pos as int)
    }

    closed spec fn reads(&self) -> Seq<ReadEvent> {
        self.log@
    }

    closed spec fn remaining(&self) -> Option<Seq<u8>> {
        Some(self.data@.skip(self.pos as int))
    }

    closed spec fn pending(&self) -> nat {
        (self.data.len() - self.pos) as nat
    }

    closed spec fn interruptions_left(&self) -> nat {
        (self.faults.len() - self.next_fault) as nat
    }

    proof fn lemma_pending_is_countable(&self) {
    }

    fn read(&mut self, buf: &mut [u8]) -> (result: Result<usize, IoError>)
        ensures
            final(self).data() == old(self).data(),
            final(self).chunk_size() == old(self).chunk_size(),
            final(self).faults() == old(self).faults(),
            old(self).fault_due() ==> {
                &&& result == Err::<usize, IoError>(
                    old(self).faults()[old(self).faults_reported() as int].error,
                )
                &&& final(self).position() == old(self).position()
                &&& final(self).faults_reported() == old(self).faults_reported() + 1
            },
            !old(self).fault_due() ==> {
                &&& result == Ok::<usize, IoError>(
                    old(self).next_len(old(buf)@.len()) as usize,
                )
                &&& final(self).position() == old(self).position() + old(self).next_len(
                    old(buf)@.len(),
                )
                &&& final(self).faults_reported() == old(self).faults_reported()
            },
    {
        if self.next_fault < self.faults.len() && self.faults[self.next_fault].at <= self.pos {
            let error = self.faults[self.next_fault].error.duplicate();
            self.next_fault = self.next_fault + 1;
            proof {
                lemma_chunks_of_push(self.log@, ReadEvent::Failed(error));
                self.log@ = self.log@.push(ReadEvent::Failed(error));
            }
            return Err(error);
        }
        let left = self.data.len() - self.pos;
        let mut count = if self.chunk < left {
            self.chunk
        } else {
            left
        };
        if buf.len() < count {
            count = buf.len();
        }
        let mut done: usize = 0;
        while done < count
            invariant
                done <= count,
                count <= buf@.len(),
                self.pos + count <= self.data.len(),
                buf@.take(done as int) == self.data@.subrange(
                    self.pos as int,
                    self.pos + done as int,
                ),
            decreases count - done,
        {
            buf[done] = self.data[self.pos + done];
            done = done + 1;
            proof {
                assert(buf@.take(done as int) =~= self.data@.subrange(
                    self.pos as int,
                    self.pos + done as int,
                ));
            }
        }
        proof {
            let event = read_event(Ok(count), buf@);
            lemma_chunks_of_push(self.log@, event);
            if count > 0 {
                let chunk = buf@.take(count as int);
                chunks_of(self.log@).lemma_flatten_push(chunk);
                assert(self.data@.take(self.pos as int) + chunk =~= self.data@.take(
                    self.pos + count as int,
                ));
            }
            let rest = self.data@.skip(self.pos as int);
            assert(buf@.take(count as int) =~= rest.take(count as int));
            assert(rest.skip(count as int) =~= self.data@.skip(self.pos + count));
            self.log@ = self.log@.push(event);
        }
        self.pos = self.pos + count;
        Ok(count)
    }
}

/// A sink that keeps what it is given in memory, up to a limit.
pub struct MemorySink {
    data: Vec<u8>,
    limit: usize,
    log: Ghost<Seq<WriteEvent>>,
}

impl MemorySink {
    /// Most bytes the sink takes in all.
    pub closed spec fn limit(&self) -> nat {
        self.limit as nat
    }

    /// A sink that takes whatever it is given.
    pub fn new() -> (sink: MemorySink)
        ensures
            sink.wf(),
            sink.writes() == Seq::<WriteEvent>::empty(),
            sink.limit() == usize::MAX,
    {
        MemorySink::bounded(usize::MAX)
    }

    /// A sink that refuses any write that would take it beyond `limit`
    /// bytes. It stands for a disk that fills up.
    pub fn bounded(limit: usize) -> (sink: MemorySink)
        ensures
            sink.wf(),
            sink.writes() == Seq::<WriteEvent>::empty(),
            sink.limit() == limit,
    {
        MemorySink { data: Vec::new(), limit, log: Ghost(Seq::empty()) }
    }

    /// Everything the sink has taken, in order.
    pub fn contents(&self) -> (bytes: &Vec<u8>)
        requires
            self.wf(),
        ensures
            bytes@ == accepted_bytes(self.writes()),
    {
        &self.data
    }
}

impl ByteSink for MemorySink {
    closed spec fn wf(&self) -> bool {
        self.data@ == accepted_bytes(self.log@)
    }

    closed spec fn writes(&self) -> Seq<WriteEvent> {
        self.log@
    }

    fn write_all(&mut self, data: &[u8]) -> (result: Result<(), IoError>)
        ensures
            final(self).limit() == old(self).limit(),
            result is Ok <==> accepted_bytes(old(self).writes()).len() + data@.len() <= old(
                self,
            ).limit(),
            result matches Err(error) ==> !error.is_transient() && error.message@
                == "no space left in the sink"@,
    {
        if self.data.len() <= self.limit && data.len() <= self.limit - self.data.len() {
            self.data.extend_from_slice(data);
            proof {
                lemma_accepted_bytes_push(self.log@, WriteEvent::Accepted(data@));
                self.log@ = self.log@.push(WriteEvent::Accepted(data@));
                assert(self.data@ == accepted_bytes(self.log@));
            }
            Ok(())
        } else {
            let error = IoError::other("no space left in the sink");
            proof {
                lemma_accepted_bytes_push(self.log@, WriteEvent::Refused(data@, error));
                self.log@ = self.log@.push(WriteEvent::Refused(data@, error));
            }
            Err(error)
        }
    }
}

/// An observer that keeps every total it is told.
#[derive(Debug)]
pub struct ProgressLog {
    totals: Vec<u64>,
}

impl ProgressLog {
    /// An observer that has been told nothing yet.
    pub fn new() -> (log: ProgressLog)
        ensures
            log.wf(),
            log.seen() == Seq::<u64>::empty(),
    {
        ProgressLog { totals: Vec::new() }
    }

    /// The totals, oldest first.
    pub fn totals(&self) -> (totals: &Vec<u64>)
        ensures
            totals@ == self.seen(),
    {
        &self.totals
    }
}

impl ChunkObserver for ProgressLog {
    closed spec fn wf(&self) -> bool {
        true
    }

    closed spec fn seen(&self) -> Seq<u64> {
        self.totals@
    }

    fn on_chunk(&mut self, total: u64) {
        self.totals.push(total);
    }
}

} // verus!

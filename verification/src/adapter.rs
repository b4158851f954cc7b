//! Sources, sinks and observers made from closures.
//!
//! This is how a caller brings in a socket, a file or a terminal: as a
//! closure that does one read, one write or one report. The adapters keep the
//! records, and they hold the closure to what a source has to guarantee.

use crate::error::IoError;
use crate::progress::{progress_text, TransferProgress};
use crate::stream::{
    read_event, write_event, ByteSink, ByteSource, ChunkObserver, ReadEvent, WriteEvent,
};
use vstd::prelude::*;

verus! {

/// A source whose reads are done by a closure.
///
/// The closure stands for `read` of an input stream: it fills the front of
/// the buffer and returns how many bytes it put there. The adapter does not
/// take its word for it. A count beyond the buffer is turned into a failure,
/// and so is the byte or the interruption that goes beyond what the adapter
/// allows for in all.
pub struct FnSource<F: FnMut(&mut [u8]) -> Result<usize, IoError>> {
    read: F,
    bytes_left: u64,
    interruptions_left: u64,
    log: Ghost<Seq<ReadEvent>>,
}

impl<F: FnMut(&mut [u8]) -> Result<usize, IoError>> FnSource<F> {
    /// A source that reads by calling `read`, with the widest allowances
    /// there are: `u64::MAX` bytes and as many interruptions.
    pub fn new(read: F) -> (source: Self)
        requires
            forall|buf: &mut [u8]| call_requires(read, (buf,)),
        ensures
            source.wf(),
            source.reads() == Seq::<ReadEvent>::empty(),
            source.remaining().is_none(),
            source.pending() == u64::MAX,
            source.interruptions_left() == u64::MAX,
    {
        FnSource::with_limits(read, u64::MAX, u64::MAX)
    }

    /// A source that reads by calling `read` and fails rather than hand out
    /// more than `max_bytes` bytes or pass on more than `max_interruptions`
    /// interruptions.
    pub fn with_limits(read: F, max_bytes: u64, max_interruptions: u64) -> (source: Self)
        requires
            forall|buf: &mut [u8]| call_requires(read, (buf,)),
        ensures
            source.wf(),
            source.reads() == Seq::<ReadEvent>::empty(),
            source.remaining().is_none(),
            source.pending() == max_bytes,
            source.interruptions_left() == max_interruptions,
    {
        FnSource {
            read,
            bytes_left: max_bytes,
            interruptions_left: max_interruptions,
            log: Ghost(Seq::empty()),
        }
    }
}

impl<F: FnMut(&mut [u8]) -> Result<usize, IoError>> ByteSource for FnSource<F> {
    closed spec fn wf(&self) -> bool {
        forall|buf: &mut [u8]| call_requires(self.read, (buf,))
    }

    closed spec fn reads(&self) -> Seq<ReadEvent> {
        self.log@
    }

    closed spec fn remaining(&self) -> Option<Seq<u8>> {
        None
    }

    closed spec fn pending(&self) -> nat {
        self.bytes_left as nat
    }

    closed spec fn interruptions_left(&self) -> nat {
        self.interruptions_left as nat
    }

    proof fn lemma_pending_is_countable(&self) {
    }

    fn read(&mut self, buf: &mut [u8]) -> (result: Result<usize, IoError>)
        ensures
            match result {
                Ok(n) => {
                    &&& final(self).pending() == old(self).pending() - n
                    &&& final(self).interruptions_left() == old(self).interruptions_left()
                },
                Err(error) => {
                    &&& final(self).pending() == old(self).pending()
                    &&& final(self).interruptions_left() == old(self).interruptions_left() - (
                    if error.is_transient() {
                        1int
                    } else {
                        0int
                    })
                },
            },
    {
        let result = match (self.read)(buf) {
            Ok(count) => {
                if count > buf.len() {
                    Err(IoError::other("a read reported more bytes than the buffer holds"))
                } else if count as u64 > self.bytes_left {
                    Err(IoError::other("the source handed out more bytes than can be counted"))
                } else {
                    self.bytes_left = self.bytes_left - count as u64;
                    Ok(count)
                }
            },
            Err(error) => {
                if !error.transient() {
                    Err(error)
                } else if self.interruptions_left == 0 {
                    Err(IoError::other("the source was interrupted too often"))
                } else {
                    self.interruptions_left = self.interruptions_left - 1;
                    Err(error)
                }
            },
        };
        proof {
            self.log@ = self.log@.push(read_event(result, buf@));
        }
        result
    }
}

/// A sink whose writes are done by a closure.
///
/// The closure stands for `write_all` of an output stream: it takes all of
/// the bytes or fails.
pub struct FnSink<F: FnMut(&[u8]) -> Result<(), IoError>> {
    write: F,
    log: Ghost<Seq<WriteEvent>>,
}

impl<F: FnMut(&[u8]) -> Result<(), IoError>> FnSink<F> {
    /// The closure that does the writes.
    pub closed spec fn closure(&self) -> F {
        self.write
    }

    /// A sink that writes by calling `write`.
    pub fn new(write: F) -> (sink: Self)
        requires
            forall|data: &[u8]| call_requires(write, (data,)),
        ensures
            sink.wf(),
            sink.writes() == Seq::<WriteEvent>::empty(),
            sink.closure() == write,
    {
        FnSink { write, log: Ghost(Seq::empty()) }
    }
}

impl<F: FnMut(&[u8]) -> Result<(), IoError>> ByteSink for FnSink<F> {
    closed spec fn wf(&self) -> bool {
        forall|data: &[u8]| call_requires(self.write, (data,))
    }

    closed spec fn writes(&self) -> Seq<WriteEvent> {
        self.log@
    }

    fn write_all(&mut self, data: &[u8]) -> (result: Result<(), IoError>)
        ensures
            call_ensures(old(self).closure(), (data,), result),
            final(self).closure() == old(self).closure(),
    {
        let result = (self.write)(data);
        proof {
            self.log@ = self.log@.push(write_event(data@, result));
        }
        result
    }
}

/// An observer that hands every total to a closure.
pub struct FnObserver<F: FnMut(u64)> {
    report: F,
    log: Ghost<Seq<u64>>,
}

impl<F: FnMut(u64)> FnObserver<F> {
    /// The closure that takes the reports.
    pub closed spec fn closure(&self) -> F {
        self.report
    }

    /// An observer that reports by calling `report`.
    pub fn new(report: F) -> (observer: Self)
        requires
            forall|total: u64| call_requires(report, (total,)),
        ensures
            observer.wf(),
            observer.seen() == Seq::<u64>::empty(),
            observer.closure() == report,
    {
        FnObserver { report, log: Ghost(Seq::empty()) }
    }
}

impl<F: FnMut(u64)> ChunkObserver for FnObserver<F> {
    closed spec fn wf(&self) -> bool {
        forall|total: u64| call_requires(self.report, (total,))
    }

    closed spec fn seen(&self) -> Seq<u64> {
        self.log@
    }

    fn on_chunk(&mut self, total: u64)
        ensures
            call_ensures(old(self).closure(), (total,), ()),
            final(self).closure() == old(self).closure(),
    {
        (self.report)(total);
        proof {
            self.log@ = self.log@.push(total);
        }
    }
}

/// The observer of a download: it keeps the progress, draws it after every
/// chunk, and hands the drawing to a closure that shows it.
///
/// With a total above zero the drawing is the bar; without one it is the
/// count of bytes alone.
pub struct ProgressReporter<D: FnMut(u64, &str)> {
    progress: TransferProgress,
    line: String,
    show: D,
    log: Ghost<Seq<u64>>,
}

impl<D: FnMut(u64, &str)> ProgressReporter<D> {
    /// The progress as of the last report.
    pub closed spec fn progress(&self) -> TransferProgress {
        self.progress
    }

    /// The last drawing; empty before the first report.
    pub closed spec fn line(&self) -> Seq<char> {
        self.line@
    }

    /// A reporter for a body of `total` bytes, or of unknown length, that
    /// shows its drawings by calling `show` with the bytes so far and the
    /// text.
    pub fn new(total: Option<u64>, show: D) -> (reporter: Self)
        requires
            forall|bytes: u64, text: &str| call_requires(show, (bytes, text)),
        ensures
            reporter.wf(),
            reporter.seen() == Seq::<u64>::empty(),
            reporter.progress().transferred() == 0,
            reporter.progress().total() == total,
            reporter.line() == Seq::<char>::empty(),
    {
        ProgressReporter {
            progress: TransferProgress::new(total),
            line: String::new(),
            show,
            log: Ghost(Seq::empty()),
        }
    }

    /// The progress as of the last report.
    pub fn current(&self) -> (progress: TransferProgress)
        ensures
            progress == self.progress(),
    {
        self.progress
    }

    /// The last drawing.
    pub fn last_line(&self) -> (line: &str)
        ensures
            line@ == self.line(),
    {
        self.line.as_str()
    }
}

impl<D: FnMut(u64, &str)> ChunkObserver for ProgressReporter<D> {
    closed spec fn wf(&self) -> bool {
        forall|bytes: u64, text: &str| call_requires(self.show, (bytes, text))
    }

    closed spec fn seen(&self) -> Seq<u64> {
        self.log@
    }

    fn on_chunk(&mut self, total: u64)
        ensures
            final(self).progress().total() == old(self).progress().total(),
            final(self).progress().transferred() == (if total > old(self).progress().transferred() {
                total
            } else {
                old(self).progress().transferred()
            }),
            final(self).line() == progress_text(
                final(self).progress().transferred() as nat,
                final(self).progress().total(),
            ),
    {
        self.progress.record(total);
        self.line = self.progress.render();
        (self.show)(self.progress.bytes_transferred(), self.line.as_str());
        proof {
            self.log@ = self.log@.push(total);
        }
    }
}

} // verus!

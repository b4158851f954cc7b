//! The streaming copier: from a source into a sink through one fixed buffer.

use crate::error::IoError;
use crate::stream::{
    accepted_bytes, chunks_of, lemma_accepted_bytes_push, lemma_chunks_of_push, read_event,
    ByteSink, ByteSource, ChunkObserver, ReadEvent, WriteEvent,
};
use vstd::prelude::*;

verus! {

/// Size of the buffer between source and sink: 64 KiB, whatever the size of
/// the source.
pub const BUFFER_SIZE: usize = 65536;

/// What the copier does after a read.
#[derive(Clone, Debug, PartialEq, Eq)]
pub enum AfterRead {
    /// The stream has ended: return the number of bytes written.
    Finish,
    /// The read was interrupted: read again, with nothing changed.
    Retry,
    /// The read brought this many bytes: write them, report, read on.
    Write(usize),
    /// The read failed for good: hand the failure on at once.
    GiveUp(IoError),
}

/// The rule by which the result of a read is judged.
pub open spec fn after_read(outcome: Result<usize, IoError>) -> AfterRead {
    match outcome {
        Ok(len) => if len == 0 {
            AfterRead::Finish
        } else {
            AfterRead::Write(len)
        },
        Err(error) => if error.is_transient() {
            AfterRead::Retry
        } else {
            AfterRead::GiveUp(error)
        },
    }
}

/// Judges the result of a read by [`after_read`].
pub fn judge_read(outcome: Result<usize, IoError>) -> (verdict: AfterRead)
    ensures
        verdict == after_read(outcome),
{
    match outcome {
        Ok(len) => {
            if len == 0 {
                AfterRead::Finish
            } else {
                AfterRead::Write(len)
            }
        },
        Err(error) => {
            if error.transient() {
                AfterRead::Retry
            } else {
                AfterRead::GiveUp(error)
            }
        },
    }
}

/// Whether the copier reads again after a read that ended in `event`: it does
/// after a chunk and after an interruption, and after nothing else.
pub open spec fn reads_on(event: ReadEvent) -> bool {
    match event {
        ReadEvent::Chunk(data) => data.len() > 0,
        ReadEvent::End => false,
        ReadEvent::Failed(error) => error.is_transient(),
    }
}

/// Whether what a read handed out had room in the buffer.
pub open spec fn fits_buffer(event: ReadEvent) -> bool {
    event matches ReadEvent::Chunk(data) ==> data.len() <= BUFFER_SIZE
}

/// The writes by which a sink takes each of `chunks` whole, in order.
pub open spec fn accepted_all(chunks: Seq<Seq<u8>>) -> Seq<WriteEvent> {
    chunks.map_values(|chunk: Seq<u8>| WriteEvent::Accepted(chunk))
}

/// Number of bytes in the first `count` of `chunks`.
pub open spec fn total_after(chunks: Seq<Seq<u8>>, count: int) -> nat {
    chunks.take(count).flatten().len()
}

/// Whether `reports` are the running totals of `chunks`: one report for each
/// chunk, giving the number of bytes up to and including it.
pub open spec fn reports_follow(reports: Seq<u64>, chunks: Seq<Seq<u8>>) -> bool {
    &&& reports.len() == chunks.len()
    &&& forall|i: int| 0 <= i < reports.len() ==> #[trigger] reports[i] == total_after(chunks, i + 1)
}

/// What one run of the copier amounts to, told by what it added to the three
/// records: `reads` to the source's, `writes` to the sink's, `reports` to the
/// observer's.
///
/// The run reads until a read ends in something other than a chunk or an
/// interruption, and no read is handed more room than the one buffer has.
/// Every chunk read before the last read was written whole and then reported
/// with the running total. The last read decides the result: the
/// end of the stream gives the number of bytes written; a failure that is no
/// interruption is handed on as it is; and a chunk is last only where the
/// sink refused it, which hands on the sink's failure.
pub open spec fn copy_result(
    reads: Seq<ReadEvent>,
    writes: Seq<WriteEvent>,
    reports: Seq<u64>,
    result: Result<u64, IoError>,
) -> bool {
    let earlier = chunks_of(reads.drop_last());
    &&& reads.len() > 0
    &&& forall|i: int| 0 <= i < reads.len() - 1 ==> reads_on(#[trigger] reads[i])
    &&& forall|i: int| 0 <= i < reads.len() ==> fits_buffer(#[trigger] reads[i])
    &&& reports_follow(reports, earlier)
    &&& match reads.last() {
        ReadEvent::End => {
            &&& writes == accepted_all(earlier)
            &&& result matches Ok(total)
            &&& total == earlier.flatten().len()
        },
        ReadEvent::Failed(error) => {
            &&& !error.is_transient()
            &&& writes == accepted_all(earlier)
            &&& result == Err::<u64, IoError>(error)
        },
        ReadEvent::Chunk(data) => {
            &&& data.len() > 0
            &&& result matches Err(error)
            &&& writes == accepted_all(earlier).push(WriteEvent::Refused(data, error))
        },
    }
}

/// What a run on a source of known content does to that content: the
/// chunks read, followed by what the source has left, are the content `rest`
/// that the source had when the run began; and a run that came to the end of
/// the stream has left nothing.
pub open spec fn drawn_from(
    rest: Seq<u8>,
    reads: Seq<ReadEvent>,
    remaining: Option<Seq<u8>>,
    result: Result<u64, IoError>,
) -> bool {
    &&& remaining matches Some(left)
    &&& chunks_of(reads).flatten() + left == rest
    &&& result is Ok ==> left.len() == 0
}

/// What `now` holds beyond `before`.
pub open spec fn added<A>(before: Seq<A>, now: Seq<A>) -> Seq<A> {
    now.skip(before.len() as int)
}

/// Copies everything from `rdr` to `wrt`, telling `cb` the running total
/// after every chunk.
///
/// Nothing that was in the three records is changed, and what the run adds
/// to them is a [`copy_result`].
pub fn copy_with_cb<R: ByteSource, W: ByteSink, F: ChunkObserver>(
    rdr: &mut R,
    wrt: &mut W,
    cb: &mut F,
) -> (result: Result<u64, IoError>)
    requires
        old(rdr).wf(),
        old(wrt).wf(),
        old(cb).wf(),
    ensures
        final(rdr).wf(),
        final(wrt).wf(),
        final(cb).wf(),
        old(rdr).reads().is_prefix_of(final(rdr).reads()),
        old(wrt).writes().is_prefix_of(final(wrt).writes()),
        old(cb).seen().is_prefix_of(final(cb).seen()),
        copy_result(
            added(old(rdr).reads(), final(rdr).reads()),
            added(old(wrt).writes(), final(wrt).writes()),
            added(old(cb).seen(), final(cb).seen()),
            result,
        ),
        old(rdr).remaining() matches Some(rest) ==> drawn_from(
            rest,
            added(old(rdr).reads(), final(rdr).reads()),
            final(rdr).remaining(),
            result,
        ),
{
    let mut buf = [0u8; BUFFER_SIZE];
    let mut written: u64 = 0;
    let ghost mut reads: Seq<ReadEvent> = Seq::empty();
    let ghost mut reports: Seq<u64> = Seq::empty();
    proof {
        rdr.lemma_pending_is_countable();
        assert(accepted_all(chunks_of(reads)) =~= Seq::<WriteEvent>::empty());
        assert(chunks_of(reads).flatten() =~= Seq::<u8>::empty());
    }
    loop
        invariant
            rdr.wf(),
            wrt.wf(),
            cb.wf(),
            rdr.reads() == old(rdr).reads() + reads,
            wrt.writes() == old(wrt).writes() + accepted_all(chunks_of(reads)),
            cb.seen() == old(cb).seen() + reports,
            forall|i: int| 0 <= i < reads.len() ==> reads_on(#[trigger] reads[i]),
            forall|i: int| 0 <= i < reads.len() ==> fits_buffer(#[trigger] reads[i]),
            reports_follow(reports, chunks_of(reads)),
            written == chunks_of(reads).flatten().len(),
            written + rdr.pending() <= u64::MAX,
            old(rdr).remaining() is Some <==> rdr.remaining() is Some,
            old(rdr).remaining() matches Some(rest) ==> chunks_of(reads).flatten()
                + rdr.remaining()->Some_0 == rest,
        decreases rdr.pending() + rdr.interruptions_left(),
    {
        let ghost chunks = chunks_of(reads);
        let ghost left = rdr.remaining();
        let outcome = rdr.read(&mut buf);
        let ghost event = read_event(outcome, buf@);
        proof {
            lemma_chunks_of_push(reads, event);
            assert(reads.push(event).drop_last() =~= reads);
            assert(rdr.reads() =~= old(rdr).reads() + reads.push(event));
            assert(added(old(rdr).reads(), rdr.reads()) =~= reads.push(event));
            assert(added(old(wrt).writes(), wrt.writes()) =~= accepted_all(chunks));
            assert(added(old(cb).seen(), cb.seen()) =~= reports);
        }
        match judge_read(outcome) {
            AfterRead::Finish => {
                return Ok(written);
            },
            AfterRead::Retry => {
                proof {
                    reads = reads.push(event);
                }
            },
            AfterRead::GiveUp(error) => {
                return Err(error);
            },
            AfterRead::Write(len) => {
                proof {
                    lemma_chunk_drawn(left, chunks, len as int);
                }
                let data = vstd::slice::slice_subrange(buf.as_slice(), 0, len);
                let ghost chunk = buf@.take(len as int);
                match wrt.write_all(data) {
                    Ok(_) => {},
                    Err(error) => {
                        proof {
                            assert(added(old(wrt).writes(), wrt.writes()) =~= accepted_all(
                                chunks,
                            ).push(WriteEvent::Refused(chunk, error)));
                        }
                        return Err(error);
                    },
                }
                written = written + len as u64;
                cb.on_chunk(written);
                proof {
                    let grown = chunks.push(chunk);
                    chunks.lemma_flatten_push(chunk);
                    assert(accepted_all(grown) =~= accepted_all(chunks).push(
                        WriteEvent::Accepted(chunk),
                    ));
                    assert forall|i: int| 0 <= i < reports.len() + 1 implies #[trigger] reports.push(
                        written,
                    )[i] == total_after(grown, i + 1) by {
                        if i < reports.len() {
                            assert(grown.take(i + 1) =~= chunks.take(i + 1));
                        } else {
                            assert(grown.take(i + 1) =~= grown);
                        }
                    }
                    reads = reads.push(event);
                    reports = reports.push(written);
                }
            },
        }
    }
}

/// Taking a chunk from the front of what a source has left does not change
/// what the chunks read and the rest amount to together.
proof fn lemma_chunk_drawn(left: Option<Seq<u8>>, chunks: Seq<Seq<u8>>, len: int)
    requires
        left matches Some(rest) ==> 0 <= len <= rest.len(),
    ensures
        left matches Some(rest) ==> chunks.push(rest.take(len)).flatten() + rest.skip(len)
            == chunks.flatten() + rest,
{
    match left {
        Some(rest) => {
            chunks.lemma_flatten_push(rest.take(len));
            assert(chunks.flatten() + rest.take(len) + rest.skip(len) =~= chunks.flatten() + rest);
        },
        None => {},
    }
}

/// The copier reads on after exactly those reads whose verdict is to write or
/// to retry.
pub proof fn lemma_reads_on_by_verdict(outcome: Result<usize, IoError>, buf: Seq<u8>)
    requires
        outcome matches Ok(len) ==> len <= buf.len(),
    ensures
        reads_on(read_event(outcome, buf)) <==> (after_read(outcome) is Write || after_read(
            outcome,
        ) is Retry),
{
}

/// Whether `event` is an interruption: a failed read that is tried again.
pub open spec fn is_interruption(event: ReadEvent) -> bool {
    event matches ReadEvent::Failed(error) && error.is_transient()
}

/// The reads `reads` with the interruptions left out.
pub open spec fn without_interruptions(reads: Seq<ReadEvent>) -> Seq<ReadEvent>
    decreases reads.len(),
{
    if reads.len() == 0 {
        reads
    } else if is_interruption(reads.last()) {
        without_interruptions(reads.drop_last())
    } else {
        without_interruptions(reads.drop_last()).push(reads.last())
    }
}

/// Reads after each of which the copier went on have handed out chunks of
/// at least one byte each.
pub proof fn lemma_chunks_hold_bytes(reads: Seq<ReadEvent>)
    requires
        forall|i: int| 0 <= i < reads.len() ==> reads_on(#[trigger] reads[i]),
    ensures
        forall|k: int| 0 <= k < chunks_of(reads).len() ==> (#[trigger] chunks_of(reads)[k]).len() > 0,
    decreases reads.len(),
{
    if reads.len() > 0 {
        let rest = reads.drop_last();
        assert forall|i: int| 0 <= i < rest.len() implies reads_on(#[trigger] rest[i]) by {
            assert(reads_on(reads[i]));
        }
        lemma_chunks_hold_bytes(rest);
        assert(reads_on(reads[reads.len() - 1]));
        assert forall|k: int| 0 <= k < chunks_of(reads).len() implies (#[trigger] chunks_of(
            reads,
        )[k]).len() > 0 by {
            if k < chunks_of(rest).len() {
                assert(chunks_of(reads)[k] == chunks_of(rest)[k]);
            }
        }
    }
}

/// The running total grows by the length of each chunk.
pub proof fn lemma_total_after_next(chunks: Seq<Seq<u8>>, count: int)
    requires
        0 <= count < chunks.len(),
    ensures
        total_after(chunks, count + 1) == total_after(chunks, count) + chunks[count].len(),
{
    assert(chunks.take(count + 1) =~= chunks.take(count).push(chunks[count]));
    chunks.take(count).lemma_flatten_push(chunks[count]);
}

/// Where every chunk holds a byte, a later running total is above an
/// earlier one.
pub proof fn lemma_totals_rise(chunks: Seq<Seq<u8>>, earlier: int, later: int)
    requires
        forall|k: int| 0 <= k < chunks.len() ==> (#[trigger] chunks[k]).len() > 0,
        0 <= earlier < later <= chunks.len(),
    ensures
        total_after(chunks, earlier) < total_after(chunks, later),
    decreases later,
{
    lemma_total_after_next(chunks, later - 1);
    if earlier < later - 1 {
        lemma_totals_rise(chunks, earlier, later - 1);
    }
}

/// The totals that the observer is told in one run rise strictly, and none
/// is zero. If the run came to the end of the stream, no total is above the
/// number it returned, the last one is that number, and there is none only
/// if the stream was empty.
pub proof fn lemma_reports_rise_to_the_total(
    reads: Seq<ReadEvent>,
    writes: Seq<WriteEvent>,
    reports: Seq<u64>,
    result: Result<u64, IoError>,
)
    requires
        copy_result(reads, writes, reports, result),
    ensures
        forall|i: int, j: int| 0 <= i < j < reports.len() ==> reports[i] < reports[j],
        forall|i: int| 0 <= i < reports.len() ==> 0 < #[trigger] reports[i],
        result matches Ok(total) ==> {
            &&& forall|i: int| 0 <= i < reports.len() ==> #[trigger] reports[i] <= total
            &&& reports.len() > 0 ==> reports.last() == total
            &&& reports.len() == 0 ==> total == 0
        },
{
    let earlier = chunks_of(reads.drop_last());
    assert forall|i: int| 0 <= i < reads.drop_last().len() implies reads_on(
        #[trigger] reads.drop_last()[i],
    ) by {
        assert(reads_on(reads[i]));
    }
    lemma_chunks_hold_bytes(reads.drop_last());
    assert(earlier.take(0).flatten() =~= Seq::<u8>::empty());
    assert(earlier.take(earlier.len() as int) =~= earlier);
    assert forall|i: int, j: int| 0 <= i < j < reports.len() implies reports[i] < reports[j] by {
        lemma_totals_rise(earlier, i + 1, j + 1);
    }
    assert forall|i: int| 0 <= i < reports.len() implies 0 < #[trigger] reports[i] by {
        lemma_totals_rise(earlier, 0, i + 1);
    }
    assert forall|i: int| 0 <= i < reports.len() implies #[trigger] reports[i]
        <= earlier.flatten().len() by {
        if i + 1 < earlier.len() {
            lemma_totals_rise(earlier, i + 1, earlier.len() as int);
        }
    }
    if reports.len() == 0 {
        assert(earlier =~= Seq::<Seq<u8>>::empty());
    }
}

/// A sink that takes each of `chunks` whole has taken their bytes, in
/// order, on top of what it had taken before.
pub proof fn lemma_accepted_all_bytes(before: Seq<WriteEvent>, chunks: Seq<Seq<u8>>)
    ensures
        accepted_bytes(before + accepted_all(chunks)) == accepted_bytes(before) + chunks.flatten(),
    decreases chunks.len(),
{
    if chunks.len() == 0 {
        assert(before + accepted_all(chunks) =~= before);
        assert(accepted_bytes(before) + chunks.flatten() =~= accepted_bytes(before));
    } else {
        let rest = chunks.drop_last();
        let last = chunks.last();
        lemma_accepted_all_bytes(before, rest);
        assert(chunks =~= rest.push(last));
        rest.lemma_flatten_push(last);
        assert(before + accepted_all(chunks) =~= (before + accepted_all(rest)).push(
            WriteEvent::Accepted(last),
        ));
        lemma_accepted_bytes_push(before + accepted_all(rest), WriteEvent::Accepted(last));
        assert(accepted_bytes(before) + rest.flatten() + last =~= accepted_bytes(before) + (
        rest.flatten() + last));
    }
}

/// After a run that came to the end of the stream, the sink holds what it
/// held before and then every byte that the source handed out, in order, and
/// the number returned is the number of those bytes.
pub proof fn lemma_copy_delivers_every_byte(
    before: Seq<WriteEvent>,
    reads: Seq<ReadEvent>,
    writes: Seq<WriteEvent>,
    reports: Seq<u64>,
    total: u64,
)
    requires
        copy_result(reads, writes, reports, Ok(total)),
    ensures
        accepted_bytes(before + writes) == accepted_bytes(before) + chunks_of(reads).flatten(),
        total == chunks_of(reads).flatten().len(),
{
    lemma_accepted_all_bytes(before, chunks_of(reads.drop_last()));
}

/// A source of known content that is read to its end is copied whole: the
/// sink holds what it held before and then the content, the number returned
/// is the length of the content, and so is the last total reported, if the
/// content was not empty.
pub proof fn lemma_known_content_is_copied_whole(
    content: Seq<u8>,
    before: Seq<WriteEvent>,
    reads: Seq<ReadEvent>,
    writes: Seq<WriteEvent>,
    reports: Seq<u64>,
    remaining: Option<Seq<u8>>,
    total: u64,
)
    requires
        copy_result(reads, writes, reports, Ok(total)),
        drawn_from(content, reads, remaining, Ok(total)),
    ensures
        accepted_bytes(before + writes) == accepted_bytes(before) + content,
        total == content.len(),
        content.len() > 0 ==> reports.len() > 0 && reports.last() == content.len(),
        content.len() == 0 ==> reports.len() == 0,
{
    lemma_copy_delivers_every_byte(before, reads, writes, reports, total);
    lemma_reports_rise_to_the_total(reads, writes, reports, Ok(total));
    assert(chunks_of(reads).flatten() + remaining->Some_0 =~= chunks_of(reads).flatten());
    if reports.len() > 0 {
        assert(reports[0] > 0);
    }
}

/// After a run that failed, the sink holds what it held before and then the
/// bytes of every chunk that was read before the one at which the run ended.
/// Nothing of a refused chunk is counted.
pub proof fn lemma_failed_copy_keeps_earlier_bytes(
    before: Seq<WriteEvent>,
    reads: Seq<ReadEvent>,
    writes: Seq<WriteEvent>,
    reports: Seq<u64>,
    error: IoError,
)
    requires
        copy_result(reads, writes, reports, Err(error)),
    ensures
        accepted_bytes(before + writes) == accepted_bytes(before) + chunks_of(
            reads.drop_last(),
        ).flatten(),
{
    let earlier = chunks_of(reads.drop_last());
    lemma_accepted_all_bytes(before, earlier);
    if reads.last() is Chunk {
        let refused = WriteEvent::Refused(reads.last()->Chunk_0, error);
        assert(before + writes =~= (before + accepted_all(earlier)).push(refused));
        lemma_accepted_bytes_push(before + accepted_all(earlier), refused);
    }
}

/// Leaving out the interruptions leaves the chunks as they are.
pub proof fn lemma_interruptions_carry_no_bytes(reads: Seq<ReadEvent>)
    ensures
        chunks_of(without_interruptions(reads)) == chunks_of(reads),
        forall|i: int|
            0 <= i < without_interruptions(reads).len() ==> !is_interruption(
                #[trigger] without_interruptions(reads)[i],
            ),
        (forall|i: int| 0 <= i < reads.len() ==> reads_on(#[trigger] reads[i])) ==> (forall|i: int|
            0 <= i < without_interruptions(reads).len() ==> reads_on(
                #[trigger] without_interruptions(reads)[i],
            )),
        (forall|i: int| 0 <= i < reads.len() ==> fits_buffer(#[trigger] reads[i])) ==> (forall|
            i: int,
        |
            0 <= i < without_interruptions(reads).len() ==> fits_buffer(
                #[trigger] without_interruptions(reads)[i],
            )),
    decreases reads.len(),
{
    if reads.len() > 0 {
        lemma_interruptions_carry_no_bytes(reads.drop_last());
        let rest = without_interruptions(reads.drop_last());
        if !is_interruption(reads.last()) {
            lemma_chunks_of_push(rest, reads.last());
        }
        if forall|i: int| 0 <= i < reads.len() ==> reads_on(#[trigger] reads[i]) {
            assert forall|i: int| 0 <= i < reads.drop_last().len() implies reads_on(
                #[trigger] reads.drop_last()[i],
            ) by {
                assert(reads_on(reads[i]));
            }
            assert(reads_on(reads[reads.len() - 1]));
        }
        if forall|i: int| 0 <= i < reads.len() ==> fits_buffer(#[trigger] reads[i]) {
            assert forall|i: int| 0 <= i < reads.drop_last().len() implies fits_buffer(
                #[trigger] reads.drop_last()[i],
            ) by {
                assert(fits_buffer(reads[i]));
            }
            assert(fits_buffer(reads[reads.len() - 1]));
        }
    }
}

/// Interruptions leave no trace in what a run amounts to: the same run with
/// the interrupted reads left out has the same writes, the same reports and
/// the same result. In particular an interruption never comes back as the
/// failure of the run.
pub proof fn lemma_interruptions_leave_no_trace(
    reads: Seq<ReadEvent>,
    writes: Seq<WriteEvent>,
    reports: Seq<u64>,
    result: Result<u64, IoError>,
)
    requires
        copy_result(reads, writes, reports, result),
    ensures
        copy_result(without_interruptions(reads), writes, reports, result),
        !is_interruption(reads.last()),
{
    let quiet = without_interruptions(reads);
    let rest = without_interruptions(reads.drop_last());
    assert(quiet == rest.push(reads.last()));
    assert(quiet.drop_last() =~= rest);
    assert forall|i: int| 0 <= i < reads.drop_last().len() implies reads_on(
        #[trigger] reads.drop_last()[i],
    ) by {
        assert(reads_on(reads[i]));
    }
    lemma_interruptions_carry_no_bytes(reads.drop_last());
    lemma_interruptions_carry_no_bytes(reads);
}

} // verus!

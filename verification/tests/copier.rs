use kf2_map_install::{
    copy_with_cb, judge_read, AfterRead, Fault, FnObserver, FnSink, FnSource, IoError,
    IoErrorKind, MemorySink, MemorySource, ProgressLog, BUFFER_SIZE,
};

fn pattern(len: usize) -> Vec<u8> {
    (0..len).map(|i| (i % 251) as u8).collect()
}

#[test]
fn copies_everything_and_reports_running_totals() {
    let data = pattern(10);
    let mut source = MemorySource::new(data.clone(), 4);
    let mut sink = MemorySink::new();
    let mut log = ProgressLog::new();
    let result = copy_with_cb(&mut source, &mut sink, &mut log);
    assert_eq!(result, Ok(10));
    assert_eq!(sink.contents(), &data);
    assert_eq!(log.totals(), &vec![4, 8, 10]);
}

#[test]
fn empty_source_gives_zero_and_no_report() {
    let mut source = MemorySource::new(Vec::new(), 4);
    let mut sink = MemorySink::new();
    let mut log = ProgressLog::new();
    assert_eq!(copy_with_cb(&mut source, &mut sink, &mut log), Ok(0));
    assert!(sink.contents().is_empty());
    assert!(log.totals().is_empty());
}

#[test]
fn source_larger_than_the_buffer_is_copied_in_buffer_sized_chunks() {
    let data = pattern(200_000);
    let mut source = MemorySource::new(data.clone(), usize::MAX);
    let mut sink = MemorySink::new();
    let mut log = ProgressLog::new();
    assert_eq!(copy_with_cb(&mut source, &mut sink, &mut log), Ok(200_000));
    assert_eq!(sink.contents(), &data);
    assert_eq!(log.totals(), &vec![65536, 131072, 196608, 200_000]);
}

#[test]
fn one_interruption_is_retried() {
    let data = pattern(6);
    let faults = vec![Fault { at: 0, error: IoError::interrupted("signal") }];
    let mut source = MemorySource::with_faults(data.clone(), 4, faults);
    let mut sink = MemorySink::new();
    let mut log = ProgressLog::new();
    assert_eq!(copy_with_cb(&mut source, &mut sink, &mut log), Ok(6));
    assert_eq!(sink.contents(), &data);
    assert_eq!(log.totals(), &vec![4, 6]);
}

#[test]
fn fatal_read_failure_is_handed_on() {
    let data = pattern(10);
    let faults = vec![Fault { at: 4, error: IoError::other("connection reset") }];
    let mut source = MemorySource::with_faults(data.clone(), 4, faults);
    let mut sink = MemorySink::new();
    let mut log = ProgressLog::new();
    let result = copy_with_cb(&mut source, &mut sink, &mut log);
    assert_eq!(result, Err(IoError::other("connection reset")));
    assert_eq!(sink.contents(), &data[..4].to_vec());
    assert_eq!(log.totals(), &vec![4]);
}

#[test]
fn write_failure_is_handed_on() {
    let data = pattern(10);
    let mut source = MemorySource::new(data.clone(), 4);
    let mut sink = MemorySink::bounded(9);
    let mut log = ProgressLog::new();
    let result = copy_with_cb(&mut source, &mut sink, &mut log);
    assert_eq!(result.unwrap_err().kind, IoErrorKind::Other);
    assert_eq!(sink.contents(), &data[..8].to_vec());
    assert_eq!(log.totals(), &vec![4, 8]);
}

#[test]
fn closures_can_stand_for_streams() {
    let data = pattern(100_000);
    let mut offset = 0usize;
    let mut out: Vec<u8> = Vec::new();
    let mut totals: Vec<u64> = Vec::new();
    let result = {
        let mut source = FnSource::new(|buf: &mut [u8]| {
            let n = buf.len().min(data.len() - offset);
            buf[..n].copy_from_slice(&data[offset..offset + n]);
            offset += n;
            Ok(n)
        });
        let mut sink = FnSink::new(|bytes: &[u8]| {
            out.extend_from_slice(bytes);
            Ok(())
        });
        let mut observer = FnObserver::new(|total| totals.push(total));
        copy_with_cb(&mut source, &mut sink, &mut observer)
    };
    assert_eq!(result, Ok(100_000));
    assert_eq!(out, data);
    assert_eq!(totals, vec![65536, 100_000]);
}

#[test]
fn closure_that_overstates_its_read_is_stopped() {
    let mut out: Vec<u8> = Vec::new();
    let result = {
        let mut source = FnSource::new(|buf: &mut [u8]| Ok(buf.len() + 1));
        let mut sink = FnSink::new(|bytes: &[u8]| {
            out.extend_from_slice(bytes);
            Ok(())
        });
        let mut observer = FnObserver::new(|_| {});
        copy_with_cb(&mut source, &mut sink, &mut observer)
    };
    assert_eq!(result.unwrap_err().kind, IoErrorKind::Other);
    assert!(out.is_empty());
}

#[test]
fn chunk_size_of_zero_is_taken_for_one() {
    let mut source = MemorySource::new(vec![1, 2, 3], 0);
    let mut sink = MemorySink::new();
    let mut log = ProgressLog::new();
    assert_eq!(copy_with_cb(&mut source, &mut sink, &mut log), Ok(3));
    assert_eq!(log.totals(), &vec![1, 2, 3]);
}

#[test]
fn totals_rise_strictly_and_end_at_the_size() {
    for (size, chunk) in [(1usize, 1usize), (7, 3), (64, 64), (65, 64), (1000, 1), (70_000, 70_000)] {
        let mut source = MemorySource::new(pattern(size), chunk);
        let mut sink = MemorySink::new();
        let mut log = ProgressLog::new();
        assert_eq!(copy_with_cb(&mut source, &mut sink, &mut log), Ok(size as u64));
        let totals = log.totals();
        assert!(totals.windows(2).all(|pair| pair[0] < pair[1]));
        assert_eq!(totals.last(), Some(&(size as u64)));
        assert_eq!(sink.contents(), &pattern(size));
    }
}

#[test]
fn several_interruptions_in_a_row_are_all_retried() {
    let faults = vec![
        Fault { at: 0, error: IoError::interrupted("one") },
        Fault { at: 0, error: IoError::interrupted("two") },
        Fault { at: 5, error: IoError::interrupted("three") },
        Fault { at: 9, error: IoError::interrupted("four") },
    ];
    let mut source = MemorySource::with_faults(pattern(9), 5, faults);
    let mut sink = MemorySink::new();
    let mut log = ProgressLog::new();
    assert_eq!(copy_with_cb(&mut source, &mut sink, &mut log), Ok(9));
    assert_eq!(sink.contents(), &pattern(9));
    assert_eq!(log.totals(), &vec![5, 9]);
}

#[test]
fn copy_appends_to_what_sink_and_observer_already_hold() {
    let mut sink = MemorySink::new();
    let mut log = ProgressLog::new();
    let mut first = MemorySource::new(vec![1, 2, 3], 2);
    assert_eq!(copy_with_cb(&mut first, &mut sink, &mut log), Ok(3));
    let mut second = MemorySource::new(vec![4, 5], 2);
    assert_eq!(copy_with_cb(&mut second, &mut sink, &mut log), Ok(2));
    assert_eq!(sink.contents(), &vec![1, 2, 3, 4, 5]);
    assert_eq!(log.totals(), &vec![2, 3, 2]);
}

#[test]
fn every_read_result_has_its_verdict() {
    assert_eq!(judge_read(Ok(0)), AfterRead::Finish);
    assert_eq!(judge_read(Ok(1)), AfterRead::Write(1));
    assert_eq!(judge_read(Ok(BUFFER_SIZE)), AfterRead::Write(65536));
    assert_eq!(judge_read(Err(IoError::interrupted("signal"))), AfterRead::Retry);
    assert_eq!(
        judge_read(Err(IoError::other("connection reset"))),
        AfterRead::GiveUp(IoError::other("connection reset"))
    );
}

#[test]
fn no_read_is_offered_more_than_the_buffer() {
    let mut offered: Vec<usize> = Vec::new();
    let mut sink = MemorySink::new();
    let mut log = ProgressLog::new();
    let result = {
        let mut source = FnSource::new(|buf: &mut [u8]| {
            offered.push(buf.len());
            Ok(if offered.len() < 4 { buf.len() } else { 0 })
        });
        copy_with_cb(&mut source, &mut sink, &mut log)
    };
    assert_eq!(result, Ok(3 * 65536));
    assert_eq!(offered, vec![BUFFER_SIZE; 4]);
}

use kf2_map_install::{
    copy_with_cb, ChunkObserver, FnSink, FnSource, IoError, IoErrorKind, MemorySink, MemorySource,
    ProgressLog, ProgressReporter,
};

#[test]
fn reporter_draws_the_bar_for_a_known_total() {
    let mut shown: Vec<(u64, String)> = Vec::new();
    {
        let mut reporter = ProgressReporter::new(Some(200), |bytes, text: &str| {
            shown.push((bytes, text.to_string()))
        });
        assert_eq!(reporter.last_line(), "");
        reporter.on_chunk(50);
        assert_eq!(reporter.last_line(), "[=====---------------]25%");
        reporter.on_chunk(200);
        assert_eq!(reporter.last_line(), "[====================]100%");
        assert_eq!(reporter.current().bytes_transferred(), 200);
        assert_eq!(reporter.current().total_bytes(), Some(200));
    }
    assert_eq!(
        shown,
        vec![
            (50, String::from("[=====---------------]25%")),
            (200, String::from("[====================]100%")),
        ]
    );
}

#[test]
fn reporter_counts_bytes_for_an_unknown_total() {
    let mut shown: Vec<String> = Vec::new();
    {
        let mut reporter = ProgressReporter::new(None, |_, text: &str| shown.push(text.to_string()));
        reporter.on_chunk(65536);
        reporter.on_chunk(70000);
        assert_eq!(reporter.last_line(), "70000");
    }
    assert_eq!(shown, vec![String::from("65536"), String::from("70000")]);
}

#[test]
fn reporter_does_not_divide_by_an_announced_zero() {
    let mut reporter = ProgressReporter::new(Some(0), |_, _: &str| {});
    reporter.on_chunk(3);
    assert_eq!(reporter.last_line(), "3");
}

#[test]
fn reporter_follows_a_copy_to_one_hundred_percent() {
    let data: Vec<u8> = vec![7; 1000];
    let mut source = MemorySource::new(data, 300);
    let mut sink = MemorySink::new();
    let mut lines: Vec<String> = Vec::new();
    let result = {
        let mut reporter =
            ProgressReporter::new(Some(1000), |_, text: &str| lines.push(text.to_string()));
        copy_with_cb(&mut source, &mut sink, &mut reporter)
    };
    assert_eq!(result, Ok(1000));
    assert_eq!(
        lines,
        vec![
            "[======--------------]30%",
            "[============--------]60%",
            "[==================--]90%",
            "[====================]100%",
        ]
    );
}

#[test]
fn interrupted_closure_is_called_again() {
    let mut calls = 0;
    let mut sink = MemorySink::new();
    let mut log = ProgressLog::new();
    let result = {
        let mut source = FnSource::new(|buf: &mut [u8]| {
            calls += 1;
            match calls {
                1 => Err(IoError::interrupted("signal")),
                2 => {
                    buf[..3].copy_from_slice(b"abc");
                    Ok(3)
                },
                3 => Err(IoError::interrupted("signal")),
                _ => Ok(0),
            }
        });
        copy_with_cb(&mut source, &mut sink, &mut log)
    };
    assert_eq!(result, Ok(3));
    assert_eq!(calls, 4);
    assert_eq!(sink.contents(), &b"abc".to_vec());
    assert_eq!(log.totals(), &vec![3]);
}

#[test]
fn fatal_closure_error_stops_the_copy_at_once() {
    let mut calls = 0;
    let mut sink = MemorySink::new();
    let mut log = ProgressLog::new();
    let result = {
        let mut source = FnSource::new(|_: &mut [u8]| {
            calls += 1;
            Err(IoError::other("connection reset"))
        });
        copy_with_cb(&mut source, &mut sink, &mut log)
    };
    assert_eq!(result, Err(IoError::other("connection reset")));
    assert_eq!(calls, 1);
}

#[test]
fn failing_sink_closure_stops_the_copy() {
    let mut source = MemorySource::new(vec![1, 2, 3, 4, 5, 6], 2);
    let mut log = ProgressLog::new();
    let mut writes = 0;
    let result = {
        let mut sink = FnSink::new(|_: &[u8]| {
            writes += 1;
            if writes == 2 {
                Err(IoError::other("disk full"))
            } else {
                Ok(())
            }
        });
        copy_with_cb(&mut source, &mut sink, &mut log)
    };
    assert_eq!(result, Err(IoError::other("disk full")));
    assert_eq!(writes, 2);
    assert_eq!(log.totals(), &vec![2]);
}

#[test]
fn error_kinds_are_told_apart() {
    assert!(IoError::interrupted("x").transient());
    assert!(!IoError::other("x").transient());
    assert_eq!(IoError::interrupted("x").kind, IoErrorKind::Interrupted);
    assert_eq!(IoError::other("why").message, "why");
    let error = IoError::other("twice");
    assert_eq!(error.duplicate(), error);
}

#[test]
fn source_beyond_its_byte_limit_fails() {
    let mut sink = MemorySink::new();
    let mut log = ProgressLog::new();
    let result = {
        let mut source = FnSource::with_limits(
            |buf: &mut [u8]| {
                buf[..4].copy_from_slice(b"abcd");
                Ok(4)
            },
            10,
            0,
        );
        copy_with_cb(&mut source, &mut sink, &mut log)
    };
    assert_eq!(result.unwrap_err().kind, IoErrorKind::Other);
    assert_eq!(sink.contents(), &b"abcdabcd".to_vec());
    assert_eq!(log.totals(), &vec![4, 8]);
}

#[test]
fn source_beyond_its_interruption_limit_fails() {
    let mut calls = 0;
    let mut sink = MemorySink::new();
    let mut log = ProgressLog::new();
    let result = {
        let mut source = FnSource::with_limits(
            |_: &mut [u8]| {
                calls += 1;
                Err(IoError::interrupted("signal"))
            },
            100,
            3,
        );
        copy_with_cb(&mut source, &mut sink, &mut log)
    };
    let error = result.unwrap_err();
    assert_eq!(error.kind, IoErrorKind::Other);
    assert!(!error.transient());
    assert_eq!(calls, 4);
}

#[test]
fn source_within_its_limits_is_copied() {
    let mut left = 3;
    let mut sink = MemorySink::new();
    let mut log = ProgressLog::new();
    let result = {
        let mut source = FnSource::with_limits(
            |buf: &mut [u8]| {
                if left == 0 {
                    return Ok(0);
                }
                left -= 1;
                buf[..2].copy_from_slice(b"xy");
                Ok(2)
            },
            6,
            0,
        );
        copy_with_cb(&mut source, &mut sink, &mut log)
    };
    assert_eq!(result, Ok(6));
    assert_eq!(sink.contents(), &b"xyxyxy".to_vec());
}

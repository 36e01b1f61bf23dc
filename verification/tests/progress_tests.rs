use upload::total_from_content_length;
use upload::Error;
use upload::ProgressSample;
use upload::ProgressTracker;
use upload::StepAction;
use upload::StreamEvent;

#[test]
fn accumulates_inside_the_window() {
    let mut t = ProgressTracker::new(7, 100);
    assert_eq!(t.on_chunk(5, 0), None);
    assert_eq!(t.accum, 5);
    assert_eq!(t.on_chunk(4, 999), None);
    assert_eq!(t.accum, 9);
    assert_eq!(t.fed, 9);
}

#[test]
fn emits_accumulated_bytes_when_interval_elapses() {
    let mut t = ProgressTracker::new(7, 100);
    assert_eq!(t.on_chunk(5, 0), None);
    let sample = t.on_chunk(6, 1000);
    assert_eq!(
        sample,
        Some(ProgressSample {
            id: 7,
            progress: 11,
            total: 100
        })
    );
    assert_eq!(t.accum, 0);
    assert_eq!(t.last_emit_ms, 1000);
}

#[test]
fn finish_flushes_the_residual_exactly_once() {
    let mut t = ProgressTracker::new(3, 0);
    assert_eq!(t.on_chunk(10, 5), None);
    assert_eq!(
        t.finish(),
        Some(ProgressSample {
            id: 3,
            progress: 10,
            total: 0
        })
    );
    assert_eq!(t.finish(), None);
}

#[test]
fn finish_emits_nothing_when_nothing_is_pending() {
    let mut t = ProgressTracker::new(1, 0);
    assert_eq!(t.finish(), None);
}

#[test]
fn rate_is_bounded_under_continuous_arrival() {
    // One 100-byte chunk every 100 ms for three seconds.
    let mut t = ProgressTracker::new(2, 3100);
    let mut timed = 0;
    for i in 0..31u64 {
        if t.on_chunk(100, i * 100).is_some() {
            timed += 1;
        }
    }
    // At most one rate-limited emission per elapsed second.
    assert!(timed <= 3);
    assert_eq!(timed, 3);
    assert_eq!(t.finish(), None);
}

#[test]
fn failure_mid_stream_stops_reporting() {
    let mut t = ProgressTracker::new(9, 0);
    let mut samples = Vec::new();
    if let Some(s) = t.on_chunk(400, 0) {
        samples.push(s);
    }
    if let Some(s) = t.on_chunk(600, 1500) {
        samples.push(s);
    }
    // The residual accumulates, then the source fails: the transfer aborts
    // with the source's error and no further sample is emitted.
    if let Some(s) = t.on_chunk(50, 1600) {
        samples.push(s);
    }
    let action = upload::transfer_step(
        &mut t,
        StreamEvent::Failed {
            error: Error::Request(String::from("connection reset")),
        },
    );
    match action {
        StepAction::Abort { error } => {
            assert_eq!(error.message().as_str(), "connection reset");
        }
        _ => panic!("a source failure must abort the transfer"),
    }
    assert_eq!(
        samples,
        vec![ProgressSample {
            id: 9,
            progress: 1000,
            total: 0
        }]
    );
    // Bytes reported never exceed bytes observed; the unflushed remainder
    // (50 bytes) is dropped from reporting.
    let reported: u64 = samples.iter().map(|s| s.progress).sum();
    assert!(reported <= t.fed);
    assert_eq!(t.fed, 1050);
    assert_eq!(reported, 1000);
}

#[test]
fn content_length_hint() {
    assert_eq!(total_from_content_length(Some(2_500_000)), 2_500_000);
    assert_eq!(total_from_content_length(None), 0);
}

#[test]
fn error_messages_are_transparent() {
    assert_eq!(Error::Io(String::from("open failed")).message().as_str(), "open failed");
    assert_eq!(Error::Request(String::from("dns")).message().as_str(), "dns");
    assert_eq!(Error::ContentLength(String::from("bad size")).message().as_str(), "bad size");
    assert_eq!(Error::ResponseParse(String::from("not json")).message().as_str(), "not json");
}

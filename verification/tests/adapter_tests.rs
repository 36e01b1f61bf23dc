use upload::relay_chunks;
use upload::transfer_step;
use upload::ProgressSample;
use upload::ProgressTracker;
use upload::StepAction;
use upload::StreamEvent;

#[test]
fn chunks_pass_through_unchanged() {
    let chunks = vec![vec![1u8], vec![2, 3], vec![], vec![4, 5, 6]];
    let arrivals = vec![0u64, 10, 20, 30];
    let log = relay_chunks(1, 6, chunks.clone(), &arrivals);
    assert_eq!(log.delivered, chunks);
}

#[test]
fn samples_account_for_every_byte() {
    let chunks = vec![vec![0u8; 700], vec![0u8; 800], vec![0u8; 500]];
    let arrivals = vec![0u64, 1200, 1300];
    let log = relay_chunks(5, 2000, chunks, &arrivals);
    let reported: u64 = log.samples.iter().map(|s| s.progress).sum();
    assert_eq!(reported, 2000);
    // One rate-limited emission (at 1200 ms) plus the final residual flush.
    assert_eq!(
        log.samples,
        vec![
            ProgressSample { id: 5, progress: 1500, total: 2000 },
            ProgressSample { id: 5, progress: 500, total: 2000 },
        ]
    );
}

#[test]
fn empty_source_reports_nothing() {
    let log = relay_chunks(1, 0, Vec::new(), &Vec::new());
    assert!(log.delivered.is_empty());
    assert!(log.samples.is_empty());
}

#[test]
fn steady_download_scenario() {
    // 2,500,000 bytes over three seconds in 100 steady chunks, with the
    // content length declared up front.
    let total = upload::total_from_content_length(Some(2_500_000));
    let chunks: Vec<Vec<u8>> = (0..100u32)
        .map(|i| vec![(i % 251) as u8; 25_000])
        .collect();
    let arrivals: Vec<u64> = (0..100u64).map(|i| i * 30).collect();
    let log = relay_chunks(42, total, chunks.clone(), &arrivals);

    // The received file is byte-identical to the source.
    assert_eq!(log.delivered, chunks);
    let source: Vec<u8> = chunks.concat();
    let written: Vec<u8> = log.delivered.concat();
    assert_eq!(written, source);
    assert_eq!(written.len(), 2_500_000);

    // At least two progress samples, every one carrying the declared total
    // and the supplied id, together accounting for every byte.
    assert!(log.samples.len() >= 2);
    assert!(log.samples.iter().all(|s| s.total == 2_500_000 && s.id == 42));
    let reported: u64 = log.samples.iter().map(|s| s.progress).sum();
    assert_eq!(reported, 2_500_000);

    // Rate bound: at most one sample per elapsed second, plus the flush.
    assert!(log.samples.len() as u64 <= arrivals[99] / 1000 + 1);
}

#[test]
fn small_upload_reports_residual_once() {
    // A 10-byte source streamed in one chunk, well inside the first window:
    // no rate-limited sample, exactly one final residual sample.
    let log = relay_chunks(3, 0, vec![vec![7u8; 10]], &vec![5]);
    assert_eq!(log.delivered, vec![vec![7u8; 10]]);
    assert_eq!(
        log.samples,
        vec![ProgressSample { id: 3, progress: 10, total: 0 }]
    );
}

#[test]
fn step_delivers_chunks_and_completes() {
    let mut t = ProgressTracker::new(8, 30);
    let action = transfer_step(
        &mut t,
        StreamEvent::Chunk { data: vec![9u8, 8, 7], at_ms: 1 },
    );
    match action {
        StepAction::Deliver { chunk, sample } => {
            assert_eq!(chunk, vec![9u8, 8, 7]);
            assert_eq!(sample, None);
        }
        _ => panic!("a chunk must be delivered"),
    }
    let action = transfer_step(&mut t, StreamEvent::Done);
    match action {
        StepAction::Complete { sample } => {
            assert_eq!(
                sample,
                Some(ProgressSample { id: 8, progress: 3, total: 30 })
            );
        }
        _ => panic!("an exhausted source must complete the transfer"),
    }
}

use capture_sidecar::capture::{
    stop_applies_to, CaptureEndReason, CaptureOutcome, FrameBlocks, LoopbackAction,
    LoopbackCapture, LOOPBACK_FRAME_BYTES,
};

#[test]
fn maps_capture_end_reasons() {
    assert_eq!(CaptureEndReason::CaptureError.as_str(), "capture_error");
    assert_eq!(CaptureEndReason::CaptureStopped.as_str(), "capture_stopped");
    assert_eq!(CaptureEndReason::AppExited.as_str(), "app_exited");
    assert_eq!(CaptureEndReason::DeviceLost.as_str(), "device_lost");
}

#[test]
fn capture_outcomes_carry_reason_and_error() {
    let stopped = CaptureOutcome::from_reason(CaptureEndReason::CaptureStopped);
    assert_eq!(stopped.reason, CaptureEndReason::CaptureStopped);
    assert!(stopped.error.is_none());
    let failed = CaptureOutcome::capture_error("boom".to_string());
    assert_eq!(failed.reason, CaptureEndReason::CaptureError);
    assert_eq!(failed.error.as_deref(), Some("boom"));
}

/// Drives a session against a clock in 4 ms steps while a target dies at
/// `death_ms`, feeding one frame of audio per 20 ms; returns the sequence
/// numbers handed out and the time and reason of the end.
fn run_until_end(death_ms: u64) -> (Vec<u64>, u64, CaptureEndReason, Vec<u64>) {
    let mut capture = LoopbackCapture::new(0);
    let mut sequences = Vec::new();
    let mut after_end = Vec::new();
    let mut now: u64 = 0;
    loop {
        match capture.next_action(now, false) {
            LoopbackAction::Stop(_) => unreachable!(),
            LoopbackAction::ProbeLiveness => {
                if let Some(reason) = capture.liveness_probed(now, now < death_ms) {
                    let outcome = capture
                        .finish(CaptureOutcome::from_reason(reason))
                        .expect("first end is reported");
                    assert!(capture.finish(CaptureOutcome::from_reason(reason)).is_none());
                    capture.push_silence(LOOPBACK_FRAME_BYTES / 4);
                    while let Some((sequence, _)) = capture.next_frame() {
                        after_end.push(sequence);
                    }
                    return (sequences, now, outcome.reason, after_end);
                }
            }
            LoopbackAction::ReadPacket => {
                if now % 20 == 0 {
                    capture.push_silence(LOOPBACK_FRAME_BYTES / 4);
                }
                while let Some((sequence, frame)) = capture.next_frame() {
                    assert_eq!(frame.len(), LOOPBACK_FRAME_BYTES);
                    sequences.push(sequence);
                }
            }
        }
        now += 4;
    }
}

#[test]
fn target_exit_ends_session_with_app_exited() {
    let (sequences, ended_at, reason, after_end) = run_until_end(500);
    assert_eq!(reason, CaptureEndReason::AppExited);
    assert!(ended_at >= 500 && ended_at - 500 <= 400, "ended at {ended_at}");
    assert!(after_end.is_empty());
    assert!(!sequences.is_empty());
}

#[test]
fn sequences_start_at_zero_without_gaps() {
    let (sequences, _, _, _) = run_until_end(1000);
    let expected: Vec<u64> = (0..sequences.len() as u64).collect();
    assert_eq!(sequences, expected);
}

#[test]
fn stop_request_wins_over_probe() {
    let capture = LoopbackCapture::new(100);
    assert_eq!(
        capture.next_action(1000, true),
        LoopbackAction::Stop(CaptureEndReason::CaptureStopped)
    );
    assert_eq!(capture.next_action(399, false), LoopbackAction::ReadPacket);
    assert_eq!(capture.next_action(400, false), LoopbackAction::ProbeLiveness);
    assert_eq!(capture.next_action(50, false), LoopbackAction::ReadPacket);
}

#[test]
fn frames_split_pending_bytes_in_order() {
    let mut capture = LoopbackCapture::new(0);
    let bytes: Vec<u8> = (0..LOOPBACK_FRAME_BYTES + 10).map(|i| (i % 251) as u8).collect();
    capture.push_captured(&bytes[..100]);
    assert!(capture.next_frame().is_none());
    capture.push_captured(&bytes[100..]);
    let (sequence, frame) = capture.next_frame().unwrap();
    assert_eq!(sequence, 0);
    assert_eq!(frame, bytes[..LOOPBACK_FRAME_BYTES].to_vec());
    assert!(capture.next_frame().is_none());
    capture.push_captured(&vec![0u8; LOOPBACK_FRAME_BYTES]);
    let (sequence, frame) = capture.next_frame().unwrap();
    assert_eq!(sequence, 1);
    assert_eq!(&frame[..10], &bytes[LOOPBACK_FRAME_BYTES..]);
}

#[test]
fn stop_commands_match_the_active_session() {
    assert!(stop_applies_to("abc", None));
    assert!(stop_applies_to("abc", Some("abc")));
    assert!(!stop_applies_to("abc", Some("abd")));
    assert!(!stop_applies_to("abc", Some("")));
}

#[test]
fn microphone_blocks_are_numbered_in_order() {
    assert!(FrameBlocks::<f32>::new(0).is_none());
    let mut blocks = FrameBlocks::<f32>::new(4).unwrap();
    blocks.push(&[1.0, 2.0, 3.0]);
    assert!(blocks.next_block().is_none());
    blocks.push(&[4.0, 5.0, 6.0, 7.0, 8.0, 9.0]);
    assert_eq!(blocks.next_block(), Some((0, vec![1.0, 2.0, 3.0, 4.0])));
    assert_eq!(blocks.next_block(), Some((1, vec![5.0, 6.0, 7.0, 8.0])));
    assert!(blocks.next_block().is_none());
}

use capture_sidecar::pcm::{decode_f32le_base64, encode_f32le_base64};
use capture_sidecar::voice::{
    agc_hold_step, check_voice_filter_start, AgcStep, AgcTarget,
    FramePlan, HopBuffers, VoiceFilterSession,
};

fn session(hop: Option<usize>, channels: usize, agc: bool, echo: bool) -> VoiceFilterSession<f32> {
    VoiceFilterSession::create_voice_filter_session("vf".to_string(), 48000, channels, hop, agc, echo)
        .unwrap()
}

fn mix(left: f32, right: f32) -> f32 {
    (left + right) * 0.5
}

#[test]
fn passthrough_session_leaves_silence_unchanged() {
    let mut s = session(None, 2, false, false);
    let silence = vec![0.0f32; 960 * 2];
    let plan = s.accept_frame("vf", 48000, 2, 960, Some(1), silence.len()).unwrap();
    assert_eq!(
        plan,
        FramePlan { frame_count: 960, agc: AgcStep::Off, suppress: false, echo: false, limiter: false }
    );
    let bytes: Vec<u8> = silence.iter().flat_map(|v| v.to_le_bytes()).collect();
    let emitted = decode_f32le_base64(&encode_f32le_base64(&bytes)).unwrap();
    assert_eq!(emitted, bytes);
    assert_eq!(s.voice_filter_frames_per_buffer(), 960);
}

#[test]
fn accepted_frame_count_matches_samples() {
    let mut s = session(Some(480), 1, true, true);
    let plan = s.accept_frame("vf", 48000, 1, 480, None, 480).unwrap();
    assert_eq!(plan.frame_count, 480);
    assert_eq!(plan.agc, AgcStep::Bypass);
    assert!(plan.suppress && plan.echo && plan.limiter);
    assert_eq!(s.voice_filter_frames_per_buffer(), 480);
    assert!(s.accept_frame("vf", 48000, 1, 480, None, 481).is_err());
    assert!(s.accept_frame("other", 48000, 1, 480, None, 480).is_err());
    assert!(s.accept_frame("vf", 44100, 1, 480, None, 480).is_err());
    assert!(s.accept_frame("vf", 48000, 2, 240, None, 480).is_err());
    assert!(s.accept_frame("vf", 48000, 1, 480, Some(2), 480).is_err());
}

#[test]
fn startup_bypass_runs_out_after_one_and_a_half_seconds() {
    let mut s = session(None, 1, true, false);
    // 10 ms blocks: 150 of them use up the 1500 ms bypass
    for _ in 0..150 {
        let plan = s.accept_frame("vf", 48000, 1, 480, None, 480).unwrap();
        assert_eq!(plan.agc, AgcStep::Bypass);
    }
    let plan = s.accept_frame("vf", 48000, 1, 480, None, 480).unwrap();
    assert_eq!(plan.agc, AgcStep::Apply);
    // an empty block runs no stage
    let plan = s.accept_frame("vf", 48000, 1, 0, None, 0).unwrap();
    assert_eq!(plan.agc, AgcStep::Off);
}

#[test]
fn session_format_checks() {
    assert!(VoiceFilterSession::<f32>::create_voice_filter_session("x".to_string(), 48000, 3, None, false, false).is_err());
    assert!(VoiceFilterSession::<f32>::create_voice_filter_session("x".to_string(), 48000, 0, None, false, false).is_err());
    assert!(VoiceFilterSession::<f32>::create_voice_filter_session("x".to_string(), 48000, 2, None, false, false).is_ok());
    assert!(VoiceFilterSession::<f32>::create_voice_filter_session("x".to_string(), 16000, 1, None, false, false).is_err());
}

#[test]
fn echo_window_trails_the_newest_reference_by_eighty_ms() {
    let mut s = session(None, 1, false, true);
    assert!(s.get_echo_reference_window(10).is_none());
    let reference: Vec<f32> = (0..9600).map(|i| i as f32).collect();
    s.push_echo_reference_samples(&reference, 1, mix).unwrap();
    // 80 ms at 48 kHz mono is 3840 samples
    let window = s.get_echo_reference_window(480).unwrap();
    let start = 9600 - 3840 - 480;
    assert_eq!(window, reference[start..start + 480].to_vec());
    assert!(s.get_echo_reference_window(9600 - 3840 + 1).is_none());
    assert!(s.get_echo_reference_window(0).is_none());
}

#[test]
fn reference_layout_conversion() {
    let mut stereo = session(None, 2, false, true);
    stereo.push_echo_reference_samples(&[1.0, 2.0], 1, mix).unwrap();
    let mut mono = session(None, 1, false, true);
    mono.push_echo_reference_samples(&[1.0, 3.0, -1.0, 1.0], 2, mix).unwrap();
    // pad with enough later audio that the window reaches the pushed samples
    stereo.push_echo_reference_samples(&vec![0.0; 3840], 1, mix).unwrap();
    mono.push_echo_reference_samples(&vec![0.0; 3840], 1, mix).unwrap();
    assert_eq!(stereo.get_echo_reference_window(4).unwrap(), vec![1.0, 1.0, 2.0, 2.0]);
    assert_eq!(mono.get_echo_reference_window(2).unwrap(), vec![2.0, 0.0]);
    assert!(stereo.push_echo_reference_samples(&[1.0], 3, mix).is_err());
    assert!(stereo.push_echo_reference_samples(&[1.0, 2.0, 3.0], 2, mix).is_err());
    assert!(stereo.push_echo_reference_samples(&[], 2, mix).is_ok());
}

#[test]
fn accepted_reference_frames_reach_the_ring() {
    let mut s = session(None, 1, false, true);
    s.accept_reference_frame("vf", 48000, 2, 2, Some(1), &[1.0, 3.0, 5.0, 7.0], mix).unwrap();
    s.accept_reference_frame("vf", 48000, 1, 3840, None, &vec![0.0; 3840], mix).unwrap();
    assert_eq!(s.get_echo_reference_window(2).unwrap(), vec![2.0, 6.0]);
}

#[test]
fn reference_ring_keeps_the_newest_samples() {
    let mut s = session(None, 1, false, true);
    // capacity is 1.2 s at 48 kHz mono: 57600 samples
    let first: Vec<f32> = (0..40000).map(|i| i as f32).collect();
    let second: Vec<f32> = (40000..80000).map(|i| i as f32).collect();
    s.push_echo_reference_samples(&first, 1, mix).unwrap();
    s.push_echo_reference_samples(&second, 1, mix).unwrap();
    let window = s.get_echo_reference_window(57600 - 3840).unwrap();
    assert_eq!(window[0], (80000 - 57600) as f32);
    assert!(s.get_echo_reference_window(57600 - 3840 + 1).is_none());
    // a push larger than the ring is dropped whole
    let huge = vec![9.0f32; 57601];
    s.push_echo_reference_samples(&huge, 1, mix).unwrap();
    assert_eq!(s.get_echo_reference_window(1).unwrap(), vec![(80000 - 3840 - 1) as f32]);
}

#[test]
fn reference_frames_are_checked_against_the_session() {
    let mut s = session(None, 1, false, true);
    assert!(s.accept_reference_frame("vf", 48000, 2, 2, Some(1), &[0.0; 4], mix).is_ok());
    assert!(s.accept_reference_frame("vf", 48000, 2, 3, Some(1), &[0.0; 4], mix).is_err());
    assert!(s.accept_reference_frame("vf", 44100, 1, 4, None, &[0.0; 4], mix).is_err());
    assert!(s.accept_reference_frame("xx", 48000, 1, 4, None, &[0.0; 4], mix).is_err());
    assert!(s.accept_reference_frame("vf", 48000, 3, 1, None, &[0.0; 3], mix).is_err());
    assert!(s.accept_reference_frame("vf", 48000, 1, 4, Some(9), &[0.0; 4], mix).is_err());
}

#[test]
fn hop_buffers_regroup_blocks_into_hops() {
    assert!(HopBuffers::<f32>::new(0, 480).is_none());
    assert!(HopBuffers::<f32>::new(2, 0).is_none());
    let mut buffers = HopBuffers::<i32>::new(2, 3).unwrap();
    buffers.push_block(&[1, 2, 3, 4]);
    assert!(buffers.take_hop().is_none());
    buffers.push_block(&[5, 6, 7, 8]);
    assert_eq!(buffers.take_hop(), Some(vec![1, 2, 3, 4, 5, 6]));
    assert!(buffers.take_hop().is_none());
    buffers.push_processed(&[10, 20, 30, 40, 50, 60]);
    // a block of four frames: three are replaced, the last stays (latency)
    let mut block = vec![-1, -2, -3, -4, -5, -6, -7, -8];
    buffers.drain_into(&mut block);
    assert_eq!(block, vec![10, 20, 30, 40, 50, 60, -7, -8]);
    let mut next = vec![0, 0];
    buffers.drain_into(&mut next);
    assert_eq!(next, vec![0, 0]);
}

#[test]
fn gain_control_holds_unity_after_pauses() {
    assert_eq!(agc_hold_step(0, true), (20, AgcTarget::Unity));
    assert_eq!(agc_hold_step(5, true), (20, AgcTarget::Unity));
    assert_eq!(agc_hold_step(20, false), (19, AgcTarget::Unity));
    assert_eq!(agc_hold_step(1, false), (0, AgcTarget::Unity));
    assert_eq!(agc_hold_step(0, false), (0, AgcTarget::Track));
}

#[test]
fn start_format_limits_channels() {
    assert!(check_voice_filter_start(48000, 1).is_ok());
    assert!(check_voice_filter_start(48000, 2).is_ok());
    assert!(check_voice_filter_start(48000, 3).is_err());
    assert!(check_voice_filter_start(48000, 0).is_err());
    assert!(check_voice_filter_start(16000, 1).is_err());
}

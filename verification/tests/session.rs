//! Tuning-session and upload-pipeline tests: the deadzone invariant, the
//! bounded feedback history, inbound frame application, the session's
//! command decisions, and the upload chunk/progress arithmetic.

use rovlink::config::{LoopGains, ParamsFrameData, PropellerConfig, PropellerParams};
use rovlink::dispatch::Command;
use rovlink::history::FeedbackHistory;
use rovlink::session::{TunerMsg, TuningSession};
use rovlink::upload::{
    chunk_spans, upload_progress_reports, UploadPipeline, UploadProgress, UploadStage,
};

fn b(s: &str) -> Vec<u8> {
    s.as_bytes().to_vec()
}

#[test]
fn default_session_configuration() {
    let s = TuningSession::new(10);
    assert_eq!(s.config.pwm_freq_calibration, b("0.0"));
    assert_eq!(s.config.propellers.len(), 6);
    let keys: Vec<&str> = vec![
        "front_left",
        "front_right",
        "back_left",
        "back_right",
        "center_left",
        "center_right",
    ];
    for (i, key) in keys.iter().enumerate() {
        assert_eq!(s.config.propellers[i].key, b(key));
        assert_eq!(s.config.propellers[i].deadzone_lower, 0);
        assert_eq!(s.config.propellers[i].deadzone_upper, 0);
        assert_eq!(s.config.propellers[i].power_positive, b("0.75"));
        assert!(s.config.propellers[i].enabled);
        assert!(!s.config.propellers[i].reversed);
    }
    assert_eq!(s.config.control_loops.len(), 2);
    assert_eq!(s.config.control_loops[0].key, b("depth_lock"));
    assert_eq!(s.config.control_loops[1].key, b("direction_lock"));
    assert_eq!(s.config.control_loops[0].gains.p, b("1.0"));
    assert!(!s.debug_active);
    assert!(!s.stopped);
}

#[test]
fn deadzone_upper_edit_pulls_lower_down() {
    let mut p = PropellerConfig::new(b("front_left"));
    p.set_deadzone_lower(10);
    assert_eq!((p.deadzone_lower, p.deadzone_upper), (10, 10));
    p.set_deadzone_upper(-20);
    // Setting the upper bound below the lower bound drags the lower bound
    // down with it; the invariant holds after the edit.
    assert_eq!((p.deadzone_lower, p.deadzone_upper), (-20, -20));
    assert!(p.deadzone_lower <= p.deadzone_upper);
}

#[test]
fn deadzone_lower_edit_pulls_upper_up() {
    let mut p = PropellerConfig::new(b("back_left"));
    p.set_deadzone_upper(-5);
    assert_eq!((p.deadzone_lower, p.deadzone_upper), (-5, -5));
    p.set_deadzone_lower(30);
    assert_eq!((p.deadzone_lower, p.deadzone_upper), (30, 30));
    assert!(p.deadzone_lower <= p.deadzone_upper);
}

#[test]
fn deadzone_invariant_through_session_edits() {
    let mut s = TuningSession::new(4);
    s.update(TunerMsg::SetPropellerLowerDeadzone(0, 15));
    assert_eq!(s.config.propellers[0].deadzone_lower, 15);
    assert_eq!(s.config.propellers[0].deadzone_upper, 15);
    s.update(TunerMsg::SetPropellerUpperDeadzone(0, -3));
    assert_eq!(s.config.propellers[0].deadzone_lower, -3);
    assert_eq!(s.config.propellers[0].deadzone_upper, -3);
    for p in &s.config.propellers {
        assert!(p.deadzone_lower <= p.deadzone_upper);
    }
}

#[test]
fn history_never_exceeds_capacity_and_evicts_oldest() {
    let mut h: FeedbackHistory<i32> = FeedbackHistory::new(3);
    h.push(1);
    h.push(2);
    h.push(3);
    assert_eq!(h.len(), 3);
    // The fourth sample evicts exactly the oldest.
    h.push(4);
    assert_eq!(h.len(), 3);
    assert_eq!(*h.get(0), 2);
    assert_eq!(*h.get(1), 3);
    assert_eq!(*h.get(2), 4);
}

#[test]
fn feedback_frames_fill_the_bounded_history() {
    let mut s = TuningSession::new(2);
    for sample in ["0.1", "0.2", "0.3"] {
        let cmds = s.update(TunerMsg::FeedbacksReceived(vec![(b("depth_lock"), b(sample))]));
        assert!(cmds.is_empty());
    }
    let fb = &s.config.control_loops[0].feedbacks;
    assert_eq!(fb.len(), 2);
    assert_eq!(*fb.get(0), b("0.2"));
    assert_eq!(*fb.get(1), b("0.3"));
    // The other loop got nothing.
    assert_eq!(s.config.control_loops[1].feedbacks.len(), 0);
}

#[test]
fn received_parameters_are_applied_with_reordered_deadzones() {
    let mut s = TuningSession::new(4);
    let d = ParamsFrameData {
        pwm_freq_calibration: b("0.02"),
        propellers: vec![(
            b("front_right"),
            PropellerParams {
                deadzone_lower: 9,
                deadzone_upper: -9,
                power_positive: b("0.5"),
                power_negative: b("0.25"),
                reversed: true,
                enabled: false,
            },
        )],
        control_loops: vec![(
            b("direction_lock"),
            LoopGains { p: b("4.0"), i: b("5.0"), d: b("6.0") },
        )],
    };
    s.update(TunerMsg::ParametersReceived(d));
    assert_eq!(s.config.pwm_freq_calibration, b("0.02"));
    let p = &s.config.propellers[1];
    // The unordered pair from the wire is normalized.
    assert_eq!((p.deadzone_lower, p.deadzone_upper), (-9, 9));
    assert_eq!(p.power_positive, b("0.5"));
    assert!(p.reversed);
    assert!(!p.enabled);
    // A record the payload does not mention stays as it was.
    assert_eq!(s.config.propellers[0].power_positive, b("0.75"));
    assert_eq!(s.config.control_loops[1].gains.p, b("4.0"));
    assert_eq!(s.config.control_loops[0].gains.p, b("1.0"));
}

#[test]
fn parameters_with_unknown_keys_change_nothing() {
    let mut s = TuningSession::new(4);
    let d = ParamsFrameData {
        pwm_freq_calibration: b("0.5"),
        propellers: vec![(
            b("unknown_prop"),
            PropellerParams {
                deadzone_lower: 1,
                deadzone_upper: 2,
                power_positive: b("0.1"),
                power_negative: b("0.1"),
                reversed: true,
                enabled: false,
            },
        )],
        control_loops: Vec::new(),
    };
    s.update(TunerMsg::ParametersReceived(d));
    // The calibration is global and always taken; no local record matched.
    assert_eq!(s.config.pwm_freq_calibration, b("0.5"));
    for p in &s.config.propellers {
        assert_eq!((p.deadzone_lower, p.deadzone_upper), (0, 0));
        assert_eq!(p.power_positive, b("0.75"));
    }
}

#[test]
fn edits_preview_only_while_debugging() {
    let mut s = TuningSession::new(4);
    // No debug session: an edit changes state but sends nothing.
    let cmds = s.update(TunerMsg::SetPropellerLowerDeadzone(0, 5));
    assert!(cmds.is_empty());
    let cmds = s.update(TunerMsg::StartDebug);
    assert_eq!(cmds.len(), 1);
    assert!(matches!(cmds[0], Command::SetDebugModeEnabled(true)));
    assert!(s.debug_active);
    let cmds = s.update(TunerMsg::SetPropellerUpperDeadzone(0, 7));
    assert_eq!(cmds.len(), 1);
    match &cmds[0] {
        Command::PreviewPropeller(key, v) => {
            assert_eq!(key, &b("front_left"));
            assert_eq!(*v, 7);
        },
        _ => panic!("expected a buffered propeller preview"),
    }
    let cmds = s.update(TunerMsg::SetP(1, b("2.5")));
    assert_eq!(cmds.len(), 1);
    match &cmds[0] {
        Command::PreviewControlLoop(key, g) => {
            assert_eq!(key, &b("direction_lock"));
            assert_eq!(g.p, b("2.5"));
            assert_eq!(g.i, b("1.0"));
        },
        _ => panic!("expected a buffered control-loop preview"),
    }
}

#[test]
fn out_of_range_edit_is_a_no_op() {
    let mut s = TuningSession::new(4);
    s.update(TunerMsg::StartDebug);
    let cmds = s.update(TunerMsg::SetPropellerLowerDeadzone(99, 5));
    assert!(cmds.is_empty());
    let cmds = s.update(TunerMsg::SetP(99, b("2.0")));
    assert!(cmds.is_empty());
}

#[test]
fn apply_parameters_sends_snapshot_and_stop_terminates() {
    let mut s = TuningSession::new(4);
    s.update(TunerMsg::StartDebug);
    let cmds = s.update(TunerMsg::ApplyParameters);
    assert_eq!(cmds.len(), 1);
    match &cmds[0] {
        Command::UploadParameters(d) => {
            assert_eq!(d.pwm_freq_calibration, b("0.0"));
            assert_eq!(d.propellers.len(), 6);
            assert_eq!(d.control_loops.len(), 2);
            assert_eq!(d.propellers[0].0, b("front_left"));
        },
        _ => panic!("expected an upload of the snapshot"),
    }
    let cmds = s.update(TunerMsg::ResetParameters);
    assert_eq!(cmds.len(), 1);
    assert!(matches!(cmds[0], Command::RequestParameters));
    let cmds = s.update(TunerMsg::StopDebug);
    assert_eq!(cmds.len(), 2);
    assert!(matches!(cmds[0], Command::SetDebugModeEnabled(false)));
    assert!(matches!(cmds[1], Command::Terminate));
    assert!(!s.debug_active);
    assert!(s.stopped);
    // A second stop does nothing.
    assert!(s.update(TunerMsg::StopDebug).is_empty());
}

#[test]
fn zero_length_upload_is_complete_with_no_chunks() {
    assert_eq!(chunk_spans(0).len(), 0);
    let reports = upload_progress_reports(0);
    assert_eq!(reports.len(), 1);
    match reports[0] {
        UploadProgress::Fraction { chunks_sent, chunk_count } => {
            assert_eq!((chunks_sent, chunk_count), (0, 0));
            // The fraction shown for a zero-chunk upload is one.
            assert_eq!(fraction(chunks_sent, chunk_count), 1.0);
        },
        _ => panic!("expected a fraction"),
    }
}

/// The fraction the owner displays for a progress report.
fn fraction(chunks_sent: usize, chunk_count: usize) -> f32 {
    if chunk_count == 0 {
        1.0
    } else {
        chunks_sent as f32 / chunk_count as f32
    }
}

#[test]
fn upload_of_2560_bytes_takes_three_chunks() {
    let spans = chunk_spans(2560);
    assert_eq!(spans, vec![(0, 1024), (1024, 1024), (2048, 512)]);
    let reports = upload_progress_reports(spans.len());
    assert_eq!(reports.len(), 3);
    let mut fractions: Vec<f32> = Vec::new();
    for r in &reports {
        match r {
            UploadProgress::Fraction { chunks_sent, chunk_count } => {
                fractions.push(fraction(*chunks_sent, *chunk_count));
            },
            _ => panic!("expected a fraction"),
        }
    }
    assert_eq!(fractions, vec![1.0f32 / 3.0f32, 2.0f32 / 3.0f32, 1.0f32]);
}

#[test]
fn chunk_spans_cover_exact_multiples() {
    assert_eq!(chunk_spans(1024), vec![(0, 1024)]);
    assert_eq!(chunk_spans(1), vec![(0, 1)]);
    assert_eq!(chunk_spans(2048), vec![(0, 1024), (1024, 1024)]);
}

#[test]
fn upload_pipeline_walks_its_states() {
    let mut u = UploadPipeline::new();
    assert!(matches!(u.stage, UploadStage::Idle));
    u.select_file(b("/tmp/firmware.bin"));
    assert!(matches!(u.stage, UploadStage::FileSelected));
    // The chosen path is not a regular file: starting is a no-op.
    assert!(!u.start(false));
    assert!(matches!(u.stage, UploadStage::FileSelected));
    assert!(u.start(true));
    assert!(matches!(u.stage, UploadStage::Uploading));
    u.report(UploadProgress::Fraction { chunks_sent: 1, chunk_count: 3 });
    assert!(matches!(u.stage, UploadStage::Uploading));
    u.report(UploadProgress::Fraction { chunks_sent: 3, chunk_count: 3 });
    assert!(matches!(u.stage, UploadStage::Succeeded));
}

#[test]
fn upload_failure_is_terminal() {
    let mut u = UploadPipeline::new();
    u.select_file(b("/tmp/firmware.bin"));
    assert!(u.start(true));
    u.report(UploadProgress::Failed);
    assert!(matches!(u.stage, UploadStage::Failed));
    match u.progress {
        Some(UploadProgress::Failed) => {},
        _ => panic!("expected the failure sentinel"),
    }
}

#[test]
fn start_before_selecting_a_file_is_refused() {
    let mut u = UploadPipeline::new();
    assert!(!u.start(true));
    assert!(matches!(u.stage, UploadStage::Idle));
}

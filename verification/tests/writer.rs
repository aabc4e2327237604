//! Writer-path tests: mailbox ordering and backpressure, single-writer
//! dispatch, preview coalescing, the safety timer and the receive path.

use rovlink::dispatch::{Command, Dispatcher, StepOutcome};
use rovlink::frames::{encode_debug_mode_frame, encode_load_frame, encode_propeller_values_frame};
use rovlink::mailbox::Mailbox;
use rovlink::receiver::{classify_read, ReadEvent};

fn b(s: &str) -> Vec<u8> {
    s.as_bytes().to_vec()
}

#[test]
fn mailbox_is_fifo() {
    let mut m: Mailbox<u32> = Mailbox::new(8);
    assert!(m.try_send(1));
    assert!(m.try_send(2));
    m.send(3);
    assert_eq!(m.len(), 3);
    assert_eq!(m.recv(), Some(1));
    assert_eq!(m.recv(), Some(2));
    assert_eq!(m.recv(), Some(3));
    assert_eq!(m.recv(), None);
}

#[test]
fn mailbox_drops_when_full() {
    let mut m: Mailbox<u32> = Mailbox::new(2);
    assert!(m.try_send(10));
    assert!(m.try_send(11));
    assert!(!m.try_send(12));
    assert_eq!(m.len(), 2);
    assert_eq!(m.recv(), Some(10));
    assert!(m.try_send(13));
    assert_eq!(m.recv(), Some(11));
    assert_eq!(m.recv(), Some(13));
}

#[test]
fn wire_is_concatenation_in_enqueue_order() {
    let mut mailbox: Mailbox<Command> = Mailbox::new(128);
    mailbox.send(Command::SetDebugModeEnabled(true));
    mailbox.send(Command::RequestParameters);
    mailbox.send(Command::PreviewPropellers(vec![(b("front_left"), 4i8)]));
    let mut d = Dispatcher::new();
    let wire = d.drain(&mut mailbox, 0);
    let mut expected = encode_debug_mode_frame(true);
    expected.extend_from_slice(&encode_load_frame());
    expected.extend_from_slice(&encode_propeller_values_frame(&vec![(b("front_left"), 4i8)]));
    assert_eq!(wire, expected);
    assert_eq!(mailbox.len(), 0);
    assert!(d.running);
}

#[test]
fn terminate_stops_writer_and_activities() {
    let mut mailbox: Mailbox<Command> = Mailbox::new(128);
    mailbox.send(Command::RequestParameters);
    mailbox.send(Command::Terminate);
    mailbox.send(Command::SetDebugModeEnabled(true));
    let mut d = Dispatcher::new();
    let wire = d.drain(&mut mailbox, 0);
    // Only the frame enqueued before Terminate reaches the wire.
    assert_eq!(wire, encode_load_frame());
    // The command after Terminate was never consumed.
    assert_eq!(mailbox.len(), 1);
    assert!(!d.running);
    assert!(!d.receiver_active);
    assert!(!d.coalescer_active);
    assert!(!d.safety_active);
}

#[test]
fn connection_lost_stops_writer() {
    let mut d = Dispatcher::new();
    let step = d.handle_command(Command::ConnectionLost(b("read failed")), 0);
    assert!(step.frames.is_empty());
    match step.outcome {
        StepOutcome::Lost(m) => assert_eq!(m, b("read failed")),
        _ => panic!("expected a lost-connection outcome"),
    }
    assert!(!d.running);
    assert!(!d.receiver_active);
}

#[test]
fn coalescer_flushes_latest_value_per_key() {
    let mut d = Dispatcher::new();
    // Fifty preview edits inside one tick window, alternating two keys.
    for i in 0..50i32 {
        let key = if i % 2 == 0 { b("front_left") } else { b("front_right") };
        let step = d.handle_command(Command::PreviewPropeller(key, i as i8), 100);
        assert!(step.frames.is_empty());
    }
    let cmds = d.coalescer_tick();
    // Exactly one batched frame, carrying the latest value per key.
    assert_eq!(cmds.len(), 1);
    match &cmds[0] {
        Command::PreviewPropellers(m) => {
            assert_eq!(m.len(), 2);
            assert_eq!(m[0], (b("front_left"), 48i8));
            assert_eq!(m[1], (b("front_right"), 49i8));
        },
        _ => panic!("expected a batched propeller preview"),
    }
    // The window is empty again: the next tick flushes nothing.
    assert_eq!(d.coalescer_tick().len(), 0);
}

#[test]
fn coalescer_flushes_control_loops_separately() {
    let mut d = Dispatcher::new();
    let gains = rovlink::config::LoopGains { p: b("2.0"), i: b("0.1"), d: b("0.0") };
    d.handle_command(Command::PreviewControlLoop(b("depth_lock"), gains), 0);
    let cmds = d.coalescer_tick();
    assert_eq!(cmds.len(), 1);
    match &cmds[0] {
        Command::PreviewControlLoops(m) => {
            assert_eq!(m.len(), 1);
            assert_eq!(m[0].0, b("depth_lock"));
            assert_eq!(m[0].1.p, b("2.0"));
        },
        _ => panic!("expected a batched control-loop preview"),
    }
}

#[test]
fn coalescer_flushes_propellers_before_control_loops() {
    let mut d = Dispatcher::new();
    let gains = rovlink::config::LoopGains { p: b("1.0"), i: b("1.0"), d: b("1.0") };
    d.handle_command(Command::PreviewControlLoop(b("depth_lock"), gains), 0);
    d.handle_command(Command::PreviewPropeller(b("front_left"), 3), 0);
    let cmds = d.coalescer_tick();
    assert_eq!(cmds.len(), 2);
    assert!(matches!(cmds[0], Command::PreviewPropellers(_)));
    assert!(matches!(cmds[1], Command::PreviewControlLoops(_)));
}

#[test]
fn safety_timer_reverts_all_propellers_once() {
    let keys = vec![b("front_left"), b("front_right"), b("back_left")];
    let mut d = Dispatcher::new();
    d.handle_command(Command::PreviewPropeller(b("front_left"), 9), 100);
    // Well inside the window: nothing happens.
    assert_eq!(d.safety_tick(600, &keys).len(), 0);
    assert_eq!(d.safety_tick(1100, &keys).len(), 0);
    // More than 1000 ms after the last edit: exactly one neutral frame
    // covering every known propeller identity.
    let cmds = d.safety_tick(1101, &keys);
    assert_eq!(cmds.len(), 1);
    match &cmds[0] {
        Command::PreviewPropellers(m) => {
            assert_eq!(m.len(), 3);
            for (i, key) in ["front_left", "front_right", "back_left"].iter().enumerate() {
                assert_eq!(m[i], (b(key), 0i8));
            }
        },
        _ => panic!("expected a neutral revert frame"),
    }
    // The stamp is cleared: no second revert.
    assert_eq!(d.safety_tick(9999, &keys).len(), 0);
    // A later edit restarts the window.
    d.handle_command(Command::PreviewPropeller(b("back_left"), -2), 20000);
    assert_eq!(d.safety_tick(20500, &keys).len(), 0);
    assert_eq!(d.safety_tick(21001, &keys).len(), 1);
}

#[test]
fn empty_read_is_connection_lost() {
    // A read of zero useful bytes is a graceful remote close, treated
    // exactly like a transport error.
    assert!(matches!(classify_read(&[]), ReadEvent::ConnectionLost));
    assert!(matches!(classify_read(&[0u8, 65, 66]), ReadEvent::ConnectionLost));
}

#[test]
fn read_splits_on_first_nul() {
    match classify_read(b"{\"a\":1}\0garbage") {
        ReadEvent::Frame(t) => assert_eq!(t, b"{\"a\":1}".to_vec()),
        _ => panic!("expected a frame"),
    }
    match classify_read(b"{\"a\":2}") {
        ReadEvent::Frame(t) => assert_eq!(t, b"{\"a\":2}".to_vec()),
        _ => panic!("expected a frame"),
    }
}

#[test]
fn encoded_frame_survives_the_read_path() {
    // A frame written by the writer, landing in a NUL-filled read buffer as
    // the device sends it, is recovered byte for byte.
    let frame = encode_propeller_values_frame(&vec![(b("front_left"), -7i8)]);
    let mut buffer = vec![0u8; 1024];
    buffer[..frame.len()].copy_from_slice(&frame);
    match classify_read(&buffer) {
        ReadEvent::Frame(t) => assert_eq!(t, frame),
        _ => panic!("expected the frame back"),
    }
}

#[test]
fn non_utf8_read_is_discarded() {
    assert!(matches!(classify_read(&[0xff, 0xfe, 0x41]), ReadEvent::Discarded));
}

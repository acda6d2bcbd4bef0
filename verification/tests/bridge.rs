use ptybridge::bridge::session_init;
use ptybridge::bridge::step;
use ptybridge::bridge::Action;
use ptybridge::bridge::Event;
use ptybridge::bridge::Phase;
use ptybridge::bridge::SessionModel;

fn relaying() -> SessionModel {
    let s = session_init();
    assert_eq!(s.phase, Phase::Created);
    let (s, _) = step(s, Event::Attach);
    assert_eq!(s.phase, Phase::Attached);
    let (s, _) = step(s, Event::StartRelay);
    assert_eq!(s.phase, Phase::Relaying);
    s
}

#[test]
fn lifecycle_reaches_relaying() {
    let s = relaying();
    assert_eq!(s, SessionModel { phase: Phase::Relaying, cols: 0, rows: 0, child_reaped: false });
}

#[test]
fn chunk_becomes_one_outbound_message() {
    let s = relaying();
    let (s2, a) = step(s, Event::Chunk(b"hello".to_vec()));
    assert_eq!(s2, s);
    match a {
        Action::SendText(t) => assert_eq!(t, "hello"),
        other => panic!("expected SendText, got {:?}", other),
    }
}

#[test]
fn invalid_encoding_is_substituted_not_fatal() {
    let s = relaying();
    let (s2, a) = step(s, Event::Chunk(vec![0xff, 0x68, 0x69]));
    assert_eq!(s2.phase, Phase::Relaying);
    match a {
        Action::SendText(t) => assert_eq!(t, "\u{fffd}hi"),
        other => panic!("expected SendText, got {:?}", other),
    }
}

#[test]
fn chunk_order_is_preserved() {
    let mut s = relaying();
    let chunks: Vec<&[u8]> = vec![b"ab", b"cd", b"ef"];
    let mut seen = String::new();
    for c in chunks {
        let (s2, a) = step(s, Event::Chunk(c.to_vec()));
        s = s2;
        match a {
            Action::SendText(t) => seen.push_str(&t),
            other => panic!("expected SendText, got {:?}", other),
        }
    }
    assert_eq!(seen, "abcdef");
    assert_eq!(s.phase, Phase::Relaying);
}

#[test]
fn resize_updates_window_size() {
    let s = relaying();
    let (s2, a) = step(s, Event::Inbound(br#"{"type":"resize","cols":80,"rows":24}"#.to_vec()));
    assert_eq!(s2.cols, 80);
    assert_eq!(s2.rows, 24);
    assert_eq!(s2.phase, Phase::Relaying);
    match a {
        Action::Resize(c, r) => {
            assert_eq!(c, 80);
            assert_eq!(r, 24);
        },
        other => panic!("expected Resize, got {:?}", other),
    }
}

#[test]
fn keystrokes_are_forwarded_verbatim() {
    let s = relaying();
    let (s2, a) = step(s, Event::Inbound(b"echo hi\n".to_vec()));
    assert_eq!(s2, s);
    match a {
        Action::WriteBytes(b) => assert_eq!(b, b"echo hi\n".to_vec()),
        other => panic!("expected WriteBytes, got {:?}", other),
    }
}

#[test]
fn malformed_control_message_is_dropped_and_relay_continues() {
    let s = relaying();
    let (s2, a) = step(s, Event::Inbound(br#"{"type":"resize","cols":"x"}"#.to_vec()));
    assert_eq!(s2, s);
    assert!(matches!(a, Action::Ignore));
    // The session relays normally afterwards.
    let (s3, a2) = step(s2, Event::Chunk(b"ok".to_vec()));
    assert_eq!(s3.phase, Phase::Relaying);
    match a2 {
        Action::SendText(t) => assert_eq!(t, "ok"),
        other => panic!("expected SendText, got {:?}", other),
    }
    // And the window size was not changed by the bad message.
    assert_eq!(s3.cols, 0);
    assert_eq!(s3.rows, 0);
}

#[test]
fn remote_close_directs_teardown_and_reaping() {
    let s = relaying();
    let (s2, a) = step(s, Event::ChannelClosed);
    assert_eq!(s2.phase, Phase::Closing);
    assert!(matches!(a, Action::BeginTeardown));
    let (s3, a2) = step(s2, Event::Released);
    assert_eq!(s3.phase, Phase::Closed);
    assert!(s3.child_reaped);
    assert!(matches!(a2, Action::Ignore));
}

#[test]
fn process_exit_directs_teardown() {
    let s = relaying();
    let (s2, a) = step(s, Event::TerminalEof);
    assert_eq!(s2.phase, Phase::Closing);
    assert!(matches!(a, Action::BeginTeardown));
    let (s3, _) = step(s2, Event::Released);
    assert_eq!(s3.phase, Phase::Closed);
    assert!(s3.child_reaped);
}

#[test]
fn send_failure_and_terminal_error_direct_teardown() {
    let s = relaying();
    let (s2, a) = step(s, Event::SendFailed);
    assert_eq!(s2.phase, Phase::Closing);
    assert!(matches!(a, Action::BeginTeardown));
    let (s4, a2) = step(relaying(), Event::TerminalError);
    assert_eq!(s4.phase, Phase::Closing);
    assert!(matches!(a2, Action::BeginTeardown));
}

#[test]
fn teardown_is_one_directional() {
    let s = relaying();
    let (closing, _) = step(s, Event::ChannelClosed);
    // Nothing relays and nothing reopens once closing.
    let (c2, a) = step(closing, Event::Inbound(b"echo hi\n".to_vec()));
    assert_eq!(c2.phase, Phase::Closing);
    assert!(matches!(a, Action::Ignore));
    let (c3, a2) = step(c2, Event::Chunk(b"late".to_vec()));
    assert_eq!(c3.phase, Phase::Closing);
    assert!(matches!(a2, Action::Ignore));
    let (closed, _) = step(c3, Event::Released);
    assert_eq!(closed.phase, Phase::Closed);
    let (c4, a3) = step(closed, Event::StartRelay);
    assert_eq!(c4, closed);
    assert!(matches!(a3, Action::Ignore));
}

#[test]
fn sessions_are_isolated() {
    // Two concurrent sessions: traffic on one never shows in the other.
    let a0 = relaying();
    let b0 = relaying();
    let (a1, act_a) = step(a0, Event::Inbound(b"secret keystrokes".to_vec()));
    match act_a {
        Action::WriteBytes(b) => assert_eq!(b, b"secret keystrokes".to_vec()),
        other => panic!("expected WriteBytes, got {:?}", other),
    }
    // Stepping session A is a pure function of A's state and A's event:
    // session B's state is untouched and B emits for its own events alone.
    assert_eq!(b0, relaying());
    let (b1, act_b) = step(b0, Event::Chunk(b"b output".to_vec()));
    match act_b {
        Action::SendText(t) => assert_eq!(t, "b output"),
        other => panic!("expected SendText, got {:?}", other),
    }
    assert_eq!(a1.phase, Phase::Relaying);
    assert_eq!(b1.phase, Phase::Relaying);
    // Closing A directs no action for B and leaves B relaying.
    let (a2, _) = step(a1, Event::ChannelClosed);
    assert_eq!(a2.phase, Phase::Closing);
    assert_eq!(b1.phase, Phase::Relaying);
}

#[test]
fn early_failure_before_relay_tears_down() {
    let s = session_init();
    let (s, _) = step(s, Event::Attach);
    let (s2, a) = step(s, Event::ChannelClosed);
    assert_eq!(s2.phase, Phase::Closing);
    assert!(matches!(a, Action::BeginTeardown));
}

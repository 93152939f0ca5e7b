use tphone::app::{CallEvent, CallStats};
use tphone::session::{Session, SessionAction, SessionEvent, MAX_MESSAGES};
use tphone::tui::{CallScreen, UiEvent};

fn session() -> Session {
    Session::new(CallScreen::default())
}

#[test]
fn talking_starts_once_capture_runs() {
    let mut s = session();
    let step = s.on(SessionEvent::Ui(UiEvent::PttStart));
    assert!(matches!(step.action, SessionAction::StartCapture));
    assert!(!step.render);
    assert!(!s.screen.local_ptt);

    let step = s.on(SessionEvent::CaptureStarted);
    assert!(matches!(step.action, SessionAction::AnnounceTalking));
    assert!(step.render);
    assert!(s.screen.local_ptt && s.capturing);

    // Key repeat while talking starts nothing.
    let step = s.on(SessionEvent::Ui(UiEvent::PttStart));
    assert!(matches!(step.action, SessionAction::Nothing));
    assert!(!step.render);

    let step = s.on(SessionEvent::Ui(UiEvent::PttStop));
    assert!(matches!(step.action, SessionAction::StopCapture));
    assert!(step.render);
    assert!(!s.screen.local_ptt && !s.capturing);
}

#[test]
fn a_failed_capture_changes_nothing() {
    let mut s = session();
    s.on(SessionEvent::Ui(UiEvent::PttStart));
    let step = s.on(SessionEvent::CaptureFailed);
    assert!(matches!(step.action, SessionAction::Nothing));
    assert!(!step.render && !s.capturing && !s.screen.local_ptt);
    assert!(matches!(
        s.on(SessionEvent::Ui(UiEvent::PttStart)).action,
        SessionAction::StartCapture
    ));
}

#[test]
fn text_goes_out_and_into_the_history() {
    let mut s = session();
    s.on(SessionEvent::Ui(UiEvent::Compose(Some("hi".to_string()))));
    assert!(s.screen.composing);
    assert_eq!(s.screen.compose_buffer, "hi");
    let step = s.on(SessionEvent::Ui(UiEvent::SendText("hi".to_string())));
    match step.action {
        SessionAction::SendText(t) => assert_eq!(t, "hi"),
        other => panic!("expected the text, got {other:?}"),
    }
    assert!(!s.screen.composing);
    assert_eq!(s.screen.compose_buffer, "");
    assert!(s.on(SessionEvent::PeerText("yo".to_string())).render);
    assert_eq!(s.screen.messages, vec!["you : hi".to_string(), "peer: yo".to_string()]);
    s.on(SessionEvent::Ui(UiEvent::Compose(Some("x".to_string()))));
    s.on(SessionEvent::Ui(UiEvent::Compose(None)));
    assert!(!s.screen.composing);
}

#[test]
fn the_history_keeps_the_newest_hundred() {
    assert_eq!(MAX_MESSAGES, 100);
    let mut s = session();
    for i in 0..250 {
        s.on(SessionEvent::PeerText(format!("{i}")));
        assert_eq!(s.screen.messages.len(), (i + 1).min(100));
    }
    assert_eq!(s.screen.messages[0], "peer: 150");
    assert_eq!(s.screen.messages[99], "peer: 249");
}

#[test]
fn the_peer_and_the_counters_reach_the_screen() {
    let mut s = session();
    assert!(s.on(SessionEvent::Call(CallEvent::RemotePtt(true))).render);
    assert!(s.screen.remote_ptt);
    assert!(s.on(SessionEvent::Call(CallEvent::RemotePtt(false))).render);
    assert!(!s.screen.remote_ptt);
    let mut stats = CallStats::default();
    assert!(!s.on(SessionEvent::Stats(stats)).render);
    stats.bytes_recv = 9;
    assert!(s.on(SessionEvent::Stats(stats)).render);
    assert_eq!(s.screen.bytes_recv, 9);
    assert!(!s.on(SessionEvent::Stats(stats)).render);
}

#[test]
fn every_way_out_leaves() {
    assert!(matches!(
        session().on(SessionEvent::Ui(UiEvent::Hangup)).action,
        SessionAction::Hangup
    ));
    assert!(matches!(
        session().on(SessionEvent::InputClosed).action,
        SessionAction::Hangup
    ));
    assert!(matches!(
        session().on(SessionEvent::CallFinished).action,
        SessionAction::Leave
    ));
}

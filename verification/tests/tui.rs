use tphone::config::Config;
use tphone::config::{OpusParams, SpeedMode};
use tphone::crypto::AeadSuite;
use tphone::proto::PeerInfo;
use tphone::transport::OnionAddr;
use tphone::tui::{
    ends_input, hop_mode_label, human_bytes, map_key, render_screen, suite_label, CallScreen, InputState, KeyCode,
    KeyEventKind, KeyModifiers, Keyboard, UiEvent,
};

const PTT: char = ' ';

type Key = (KeyCode, KeyModifiers, KeyEventKind);

fn press(c: char) -> Key {
    (KeyCode::Char(c), KeyModifiers::Plain, KeyEventKind::Press)
}

fn release(c: char) -> Key {
    (KeyCode::Char(c), KeyModifiers::Plain, KeyEventKind::Release)
}

fn feed(state: &mut InputState, ptt: char, (code, m, kind): Key) -> Vec<UiEvent> {
    map_key(state, ptt, code, m, kind)
}

fn tap(k: &mut Keyboard, (code, m, kind): Key) -> Vec<UiEvent> {
    k.on_key(PTT, code, m, kind)
}

#[test]
fn ptt_press_and_release_maps_to_start_stop() {
    let mut st = InputState::new();
    assert_eq!(feed(&mut st, PTT, press(' ')), vec![UiEvent::PttStart]);
    assert_eq!(feed(&mut st, PTT, release(' ')), vec![UiEvent::PttStop]);
}

#[test]
fn custom_ptt_key_is_honored() {
    let mut st = InputState::new();
    assert_eq!(feed(&mut st, 'x', press('x')), vec![UiEvent::PttStart]);
    assert_eq!(feed(&mut st, 'x', release('x')), vec![UiEvent::PttStop]);
    // Space is inert when it is not the PTT key.
    assert_eq!(feed(&mut st, 'x', press(' ')), Vec::<UiEvent>::new());
}

#[test]
fn q_and_ctrl_c_hang_up() {
    let mut st = InputState::new();
    assert_eq!(feed(&mut st, PTT, press('q')), vec![UiEvent::Hangup]);
    let ctrl_c = (KeyCode::Char('c'), KeyModifiers::Control, KeyEventKind::Press);
    assert_eq!(feed(&mut st, PTT, ctrl_c), vec![UiEvent::Hangup]);
}

#[test]
fn release_of_non_ptt_key_is_ignored() {
    let mut st = InputState::new();
    // A 'q' *release* must not hang up (only press does).
    assert_eq!(feed(&mut st, PTT, release('q')), Vec::<UiEvent>::new());
}

#[test]
fn t_enters_compose_and_enter_sends() {
    let mut st = InputState::new();
    assert_eq!(feed(&mut st, PTT, press('t')), Vec::<UiEvent>::new());
    assert!(st.composing());
    for c in "hi there".chars() {
        assert_eq!(feed(&mut st, PTT, press(c)), Vec::<UiEvent>::new());
    }
    let evs = feed(&mut st, PTT, (KeyCode::Enter, KeyModifiers::Plain, KeyEventKind::Press));
    assert_eq!(evs, vec![UiEvent::SendText("hi there".to_string())]);
    assert!(!st.composing(), "compose mode exits after send");
}

#[test]
fn space_types_into_message_while_composing() {
    let mut st = InputState::new();
    feed(&mut st, PTT, press('t'));
    // Space must NOT toggle PTT in compose mode; it appends to the buffer.
    assert_eq!(feed(&mut st, PTT, press(' ')), Vec::<UiEvent>::new());
    assert_eq!(st.compose_buffer(), Some(" "));
}

#[test]
fn backspace_and_esc_in_compose() {
    let mut st = InputState::new();
    feed(&mut st, PTT, press('t'));
    feed(&mut st, PTT, press('a'));
    feed(&mut st, PTT, press('b'));
    feed(
        &mut st,
        PTT,
        (KeyCode::Backspace, KeyModifiers::Plain, KeyEventKind::Press),
    );
    assert_eq!(st.compose_buffer(), Some("a"));
    let evs = feed(&mut st, PTT, (KeyCode::Esc, KeyModifiers::Plain, KeyEventKind::Press));
    assert_eq!(evs, Vec::<UiEvent>::new());
    assert!(!st.composing(), "Esc cancels compose without sending");
}

#[test]
fn empty_message_is_not_sent() {
    let mut st = InputState::new();
    feed(&mut st, PTT, press('t'));
    let evs = feed(&mut st, PTT, (KeyCode::Enter, KeyModifiers::Plain, KeyEventKind::Press));
    assert_eq!(evs, Vec::<UiEvent>::new(), "empty line yields no SendText");
    assert!(!st.composing());
}

#[test]
fn ctrl_c_hangs_up_even_while_composing() {
    let mut st = InputState::new();
    feed(&mut st, PTT, press('t'));
    let ctrl_c = (KeyCode::Char('c'), KeyModifiers::Control, KeyEventKind::Press);
    assert_eq!(feed(&mut st, PTT, ctrl_c), vec![UiEvent::Hangup]);
}

#[test]
fn other_keys_do_nothing() {
    let mut st = InputState::default();
    let other = (KeyCode::Other, KeyModifiers::Plain, KeyEventKind::Press);
    assert_eq!(feed(&mut st, PTT, other), Vec::<UiEvent>::new());
    assert_eq!(feed(&mut st, PTT, press('Q')), Vec::<UiEvent>::new());
    feed(&mut st, PTT, press('T'));
    feed(&mut st, PTT, press('a'));
    assert_eq!(feed(&mut st, PTT, other), Vec::<UiEvent>::new());
    assert_eq!(feed(&mut st, PTT, release('a')), Vec::<UiEvent>::new());
    assert_eq!(st.compose_buffer(), Some("a"));
    // Backspace on an empty line stays on it.
    let back = (KeyCode::Backspace, KeyModifiers::Plain, KeyEventKind::Repeat);
    feed(&mut st, PTT, back);
    feed(&mut st, PTT, back);
    assert_eq!(st.compose_buffer(), Some(""));
    // A talk key of 't' leaves no key to open the line with.
    let mut st = InputState::new();
    assert_eq!(feed(&mut st, 't', press('t')), vec![UiEvent::PttStart]);
    assert_eq!(feed(&mut st, 't', press('T')), Vec::<UiEvent>::new());
    assert!(!st.composing());
}

#[test]
fn holding_talks_where_keys_go_up() {
    let mut k = Keyboard::new(true);
    assert_eq!(tap(&mut k, press(' ')), vec![UiEvent::PttStart]);
    let repeat = (KeyCode::Char(' '), KeyModifiers::Plain, KeyEventKind::Repeat);
    assert_eq!(tap(&mut k, repeat), vec![UiEvent::PttStart]);
    assert_eq!(tap(&mut k, release(' ')), vec![UiEvent::PttStop]);
}

#[test]
fn two_taps_talk_where_keys_do_not_go_up() {
    let mut k = Keyboard::new(false);
    for _ in 0..3 {
        assert_eq!(tap(&mut k, press(' ')), vec![UiEvent::PttStart]);
        assert_eq!(tap(&mut k, release(' ')), Vec::<UiEvent>::new());
        assert_eq!(tap(&mut k, press(' ')), vec![UiEvent::PttStop]);
    }
    assert_eq!(tap(&mut k, press('q')), vec![UiEvent::Hangup]);
}

#[test]
fn the_compose_line_is_reported_as_it_changes() {
    let mut k = Keyboard::new(true);
    assert_eq!(tap(&mut k, press('t')), vec![UiEvent::Compose(Some(String::new()))]);
    assert_eq!(tap(&mut k, press('o')), vec![UiEvent::Compose(Some("o".to_string()))]);
    assert_eq!(tap(&mut k, press('k')), vec![UiEvent::Compose(Some("ok".to_string()))]);
    assert_eq!(tap(&mut k, release('k')), Vec::<UiEvent>::new());
    assert_eq!(
        tap(&mut k, (KeyCode::Enter, KeyModifiers::Plain, KeyEventKind::Press)),
        vec![UiEvent::SendText("ok".to_string()), UiEvent::Compose(None)]
    );
    assert!(ends_input(&UiEvent::Hangup));
    assert!(!ends_input(&UiEvent::PttStop));
    assert!(!ends_input(&UiEvent::SendText("q".to_string())));
}

#[test]
fn human_bytes_scales() {
    assert_eq!(human_bytes(512), "512 B");
    assert_eq!(human_bytes(2048), "2.0 KiB");
    assert_eq!(human_bytes(3 * 1024 * 1024), "3.0 MiB");
}

// The integer arithmetic gives what formatting the quotient of doubles gives.
#[test]
fn human_bytes_agrees_with_floating_point() {
    fn by_floats(n: u64) -> String {
        const KIB: f64 = 1024.0;
        let f = n as f64;
        if f >= KIB * KIB {
            format!("{:.1} MiB", f / (KIB * KIB))
        } else if f >= KIB {
            format!("{:.1} KiB", f / KIB)
        } else {
            format!("{n} B")
        }
    }
    for n in 0..200_000u64 {
        assert_eq!(human_bytes(n), by_floats(n), "{n}");
    }
    let mut n: u64 = 1;
    while n < u64::MAX / 3 {
        for d in 0..40u64 {
            assert_eq!(human_bytes(n + d), by_floats(n + d), "{}", n + d);
            assert_eq!(human_bytes(n - d.min(n)), by_floats(n - d.min(n)));
        }
        n = n * 2 + (n >> 3) + (n >> 5);
    }
    for d in 0..3000u64 {
        assert_eq!(human_bytes(u64::MAX - d), by_floats(u64::MAX - d));
        assert_eq!(human_bytes((1 << 53) + d), by_floats((1 << 53) + d));
        assert_eq!(human_bytes((1 << 20) - 1500 + d), by_floats((1 << 20) - 1500 + d));
        // Ties between two tenths.
        assert_eq!(human_bytes(d * 52_428 + d), by_floats(d * 52_428 + d));
        assert_eq!(human_bytes((1 << 20) + d * 262_144), by_floats((1 << 20) + d * 262_144));
    }
}

#[test]
fn a_screen_starts_from_the_handshake() {
    let mut cfg = Config::in_dir("/d");
    cfg.speed_mode = SpeedMode::FullAnonymity;
    let peer = PeerInfo {
        onion: OnionAddr("peer.onion".to_string()),
        suite: AeadSuite::ChaCha20Poly1305,
        opus: OpusParams::default(),
    };
    let s = CallScreen::from_peer(&cfg, "me.onion", &peer);
    assert_eq!(s.local_onion, "me.onion");
    assert_eq!(s.remote_onion, "peer.onion");
    assert!(!s.suite_match);
    assert_eq!(s.suite_label, "ChaCha20-Poly1305");
    assert_eq!(s.hop_mode, "full anonymity (3+3)");
    assert_eq!(suite_label(AeadSuite::Aes256Gcm), "AES-256-GCM");
    assert_eq!(hop_mode_label(&Config::in_dir("/d")), "speed-first (reduced hops)");
    cfg.speed_mode = SpeedMode::SingleHopService;
    assert_eq!(hop_mode_label(&cfg), "single-hop service (IP-revealing!)");
}

#[test]
fn the_screen_shows_the_call() {
    let mut s = CallScreen::default();
    s.local_onion = "me.onion".to_string();
    s.remote_onion = "you.onion".to_string();
    s.suite_label = "AES-256-GCM".to_string();
    s.hop_mode = "speed-first (reduced hops)".to_string();
    s.bytes_sent = 2048;
    s.bytes_recv = 7;
    s.latency_ms = 12;
    s.local_ptt = true;
    s.messages = vec!["you : a".to_string(), "peer: b".to_string(), "you : c".to_string()];
    let lines = render_screen(&s, 11);
    let expected: Vec<String> = vec![
        "TerminalPhone \u{2014} secure push-to-talk".to_string(),
        "you   : me.onion".to_string(),
        "peer  : you.onion".to_string(),
        "cipher: AES-256-GCM [OK]   hops: speed-first (reduced hops)".to_string(),
        "stats : 12 ms   tx 2.0 KiB   rx 7 B".to_string(),
        "ptt   : local [REC]   remote   idle     ".to_string(),
        "\u{2500}".repeat(60),
        "peer: b".to_string(),
        "you : c".to_string(),
        String::new(),
        "[hold PTT key = talk]   [t = text]   [q / Ctrl-C = hangup]".to_string(),
    ];
    assert_eq!(lines, expected);
    s.suite_match = false;
    s.remote_ptt = true;
    s.local_ptt = false;
    s.ptt_hold = false;
    let lines = render_screen(&s, 24);
    assert_eq!(lines.len(), 12);
    assert_eq!(lines[3], "cipher: AES-256-GCM [MISMATCH]   hops: speed-first (reduced hops)");
    assert_eq!(lines[5], "ptt   : local  ---    remote [RECORDING]");
    assert_eq!(lines[11], "[tap PTT key = talk]   [t = text]   [q / Ctrl-C = hangup]");
    s.composing = true;
    s.compose_buffer = "typ".to_string();
    let lines = render_screen(&s, 0);
    assert_eq!(lines.len(), 9);
    assert_eq!(lines[8], "msg> typ");
}

use tphone::app::Command;
use tphone::cli::{parse_args, Action, ActionCommand, Flags};
use tphone::config::{Config, SpeedMode};

fn parse(words: &[&str]) -> Result<Action, String> {
    let args: Vec<String> = words.iter().map(|w| w.to_string()).collect();
    parse_args(&args)
}

fn refusal(words: &[&str]) -> String {
    parse(words).expect_err("the arguments should be refused")
}

#[test]
fn each_command_is_recognized() {
    assert!(matches!(parse(&[]).unwrap().command, ActionCommand::Usage));
    assert!(matches!(parse(&["selftest"]).unwrap().command, ActionCommand::SelfTest));
    assert!(matches!(
        parse(&["host"]).unwrap().command,
        ActionCommand::Call(Command::Host)
    ));
    match parse(&["dial", " abc.onion// "]).unwrap().command {
        ActionCommand::Call(Command::Dial(o)) => assert_eq!(o.host(), "abc.onion"),
        other => panic!("expected a dial, got {other:?}"),
    }
    match parse(&["qr", "abc.onion"]).unwrap().command {
        ActionCommand::Qr(o) => assert_eq!(o.host(), "abc.onion"),
        other => panic!("expected a qr, got {other:?}"),
    }
}

#[test]
fn options_stand_anywhere_and_the_last_counts() {
    let a = parse(&["--speed", "full_anonymity", "host", "--data-dir", "/x", "--log", "debug", "--speed", "speed_first"])
        .unwrap();
    assert!(matches!(a.command, ActionCommand::Call(Command::Host)));
    assert_eq!(a.flags.data_dir, Some("/x".to_string()));
    assert_eq!(a.flags.speed_mode, Some(SpeedMode::SpeedFirst));
    assert_eq!(a.flags.log_level, Some("debug".to_string()));
    assert_eq!(a.flags.log_level_or_default(), "debug");
    let a = parse(&["host", "--speed", "single_hop_service"]).unwrap();
    assert_eq!(a.flags.speed_mode, Some(SpeedMode::SingleHopService));
    assert_eq!(a.flags.log_level_or_default(), "info");
}

#[test]
fn an_option_takes_whatever_stands_behind_it() {
    let a = parse(&["--data-dir", "--log", "host"]).unwrap();
    assert_eq!(a.flags.data_dir, Some("--log".to_string()));
    assert!(matches!(a.command, ActionCommand::Call(Command::Host)));
}

#[test]
fn help_wins_once_it_is_reached() {
    for word in ["-h", "--help", "help"] {
        let a = parse(&["--log", "warn", "host", word, "--nonsense"]).unwrap();
        assert!(matches!(a.command, ActionCommand::Usage));
        assert_eq!(a.flags.log_level, Some("warn".to_string()));
    }
    assert_eq!(refusal(&["--nonsense", "--help"]), "unknown flag `--nonsense`");
}

#[test]
fn refusals_say_why() {
    assert_eq!(refusal(&["dial"]), "`dial` requires an <onion> argument");
    assert_eq!(refusal(&["qr"]), "`qr` requires an <onion> argument");
    assert_eq!(refusal(&["frobnicate"]), "unknown command `frobnicate`");
    assert_eq!(refusal(&["host", "--data-dir"]), "--data-dir requires a path argument");
    assert_eq!(refusal(&["--speed"]), "--speed requires a mode argument");
    assert_eq!(refusal(&["--log"]), "--log requires a level argument");
    assert_eq!(refusal(&["--speed", "warp", "host"]), "unknown speed mode `warp`");
    assert_eq!(refusal(&["-x"]), "unknown command `-x`");
    assert_eq!(refusal(&["--"]), "unknown flag `--`");
}

#[test]
fn flags_override_the_configuration() {
    let mut cfg = Config::in_dir("/d");
    Flags::default().apply(&mut cfg);
    assert_eq!(cfg.speed_mode, SpeedMode::SpeedFirst);
    let flags = parse(&["--speed", "full_anonymity"]).unwrap().flags;
    flags.apply(&mut cfg);
    assert_eq!(cfg.speed_mode, SpeedMode::FullAnonymity);
    assert_eq!(cfg.data_dir, "/d");
}

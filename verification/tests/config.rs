use tphone::audio::voice::VoiceEffect;
use tphone::config::{default_data_dir, join_path, Config, ConfigFile, OpusFile, OpusParams, SpeedMode};
use tphone::crypto::AeadSuite;

#[test]
fn config_toml_round_trip() {
    let data_dir = "/tmp/tphone-config-test";
    let orig = Config {
        data_dir: data_dir.to_string(),
        aead_suite: AeadSuite::ChaCha20Poly1305,
        ptt_key: 'p',
        app_port: 8888,
        speed_mode: SpeedMode::FullAnonymity,
        jitter_lead_ms: 500,
        opus: OpusParams {
            sample_rate: 8_000,
            channels: 1,
            bitrate: 16_000,
            frame_ms: 40,
        },
        voice_effect: VoiceEffect::Tremolo,
    };

    let file = orig.save();
    let loaded = Config::load(data_dir, Some(file));

    assert_eq!(orig.aead_suite, loaded.aead_suite);
    assert_eq!(orig.ptt_key, loaded.ptt_key);
    assert_eq!(orig.app_port, loaded.app_port);
    assert_eq!(orig.speed_mode, loaded.speed_mode);
    assert_eq!(orig.jitter_lead_ms, loaded.jitter_lead_ms);
    assert_eq!(orig.opus.sample_rate, loaded.opus.sample_rate);
    assert_eq!(orig.opus.channels, loaded.opus.channels);
    assert_eq!(orig.opus.bitrate, loaded.opus.bitrate);
    assert_eq!(orig.opus.frame_ms, loaded.opus.frame_ms);
    assert_eq!(orig.voice_effect, loaded.voice_effect);
    assert_eq!(orig.data_dir, loaded.data_dir);
}

#[test]
fn missing_config_yields_defaults() {
    let cfg = Config::load("/tmp/tphone-config-test", None);
    assert_eq!(cfg.aead_suite, AeadSuite::Aes256Gcm);
    assert_eq!(cfg.speed_mode, SpeedMode::SpeedFirst);
    assert_eq!(cfg.opus, OpusParams::default());
    assert_eq!(cfg.opus.sample_rate, 16_000);
    assert_eq!(cfg.opus.channels, 1);
    assert_eq!(cfg.opus.bitrate, 24_000);
    assert_eq!(cfg.opus.frame_ms, 20);
    assert_eq!(cfg.ptt_key, ' ');
    assert_eq!(cfg.jitter_lead_ms, 250);
    assert_eq!(cfg.app_port, 7777);
    assert_eq!(cfg.voice_effect, VoiceEffect::Off);
    assert_eq!(SpeedMode::default(), SpeedMode::SpeedFirst);
}

#[test]
fn a_partial_file_leaves_the_rest() {
    let file = ConfigFile {
        aead_suite: None,
        opus: OpusFile {
            sample_rate: None,
            channels: None,
            bitrate: None,
            frame_ms: None,
        },
        ptt_key: Some('v'),
        speed_mode: None,
        jitter_lead_ms: Some(90),
        app_port: None,
        voice_effect: None,
    };
    let cfg = Config::load("/d", Some(file));
    assert_eq!(cfg.ptt_key, 'v');
    assert_eq!(cfg.jitter_lead_ms, 90);
    assert_eq!(cfg.aead_suite, AeadSuite::Aes256Gcm);
    assert_eq!(cfg.app_port, 7777);
}

// A file that holds `[opus]` with `sample_rate = 8000` and nothing else.
#[test]
fn a_partial_codec_table_leaves_the_rest() {
    let file = ConfigFile {
        aead_suite: None,
        opus: OpusFile {
            sample_rate: Some(8000),
            channels: None,
            bitrate: None,
            frame_ms: None,
        },
        ptt_key: None,
        speed_mode: None,
        jitter_lead_ms: None,
        app_port: None,
        voice_effect: None,
    };
    let cfg = Config::load("/d", Some(file));
    assert_eq!(
        cfg.opus,
        OpusParams {
            sample_rate: 8000,
            channels: 1,
            bitrate: 24000,
            frame_ms: 20,
        }
    );
    assert_eq!(cfg.aead_suite, AeadSuite::Aes256Gcm);
    assert_eq!(cfg.ptt_key, ' ');
    assert_eq!(cfg.speed_mode, SpeedMode::SpeedFirst);
    assert_eq!(cfg.jitter_lead_ms, 250);
    assert_eq!(cfg.app_port, 7777);
    assert_eq!(cfg.voice_effect, VoiceEffect::Off);
    let mut cfg = Config::load("/d", None);
    cfg.merge(&ConfigFile {
        opus: OpusFile {
            sample_rate: None,
            channels: Some(2),
            bitrate: Some(16_000),
            frame_ms: Some(40),
        },
        ..file
    });
    assert_eq!(
        cfg.opus,
        OpusParams {
            sample_rate: 16_000,
            channels: 2,
            bitrate: 16_000,
            frame_ms: 40,
        }
    );
}

#[test]
fn paths_derive_from_the_data_directory() {
    let cfg = Config::in_dir("/d");
    assert_eq!(cfg.identity_dir(), "/d/identity");
    assert_eq!(cfg.arti_dir(), "/d/arti");
    assert_eq!(cfg.secret_path(), "/d/secret");
    assert_eq!(cfg.config_path(), "/d/config.toml");
    let tor = cfg.tor_config();
    assert_eq!(tor.speed_mode, SpeedMode::SpeedFirst);
    assert_eq!(tor.cache_dir, "/d/arti");
    assert_eq!(tor.state_dir, "/d/arti");
    assert_eq!(tor.app_port, 7777);
    let cfg = Config {
        app_port: 8888,
        ..Config::in_dir("/d")
    };
    assert_eq!(cfg.tor_config().app_port, 8888);
}

#[test]
fn joining_agrees_with_the_standard_library() {
    for dir in ["/d", "/d/", "", "d", "."] {
        for name in ["x", ".terminalphone", "config.toml"] {
            assert_eq!(
                join_path(dir, name),
                std::path::Path::new(dir).join(name).to_str().unwrap()
            );
        }
    }
}

#[test]
fn the_data_directory_has_a_default() {
    assert_eq!(default_data_dir(Some("/x"), Some("/h")), "/x");
    assert_eq!(default_data_dir(None, Some("/h")), "/h/.terminalphone");
    assert_eq!(default_data_dir(None, None), "./.terminalphone");
}

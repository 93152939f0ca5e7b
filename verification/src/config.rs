//! User configuration and the on-disk layout under the data directory.

use vstd::prelude::*;

use crate::audio::voice::VoiceEffect;
use crate::crypto::AeadSuite;
use crate::text::put;
use crate::transport::{TorConfig, APP_PORT};

verus! {

/// Opus codec parameters. Defaults: 16 kHz wideband mono, 24 kbit/s, 20 ms frames.
#[derive(Debug, Clone, Copy, PartialEq, Eq, Structural)]
pub struct OpusParams {
    /// Sample rate in Hz.
    pub sample_rate: u32,
    /// Channel count (mono = 1).
    pub channels: u8,
    /// Target bitrate in bits per second.
    pub bitrate: u32,
    /// Frame duration in milliseconds.
    pub frame_ms: u8,
}

/// The codec parameters used unless configured otherwise.
pub open spec fn default_opus() -> OpusParams {
    OpusParams { sample_rate: 16_000, channels: 1, bitrate: 24_000, frame_ms: 20 }
}

impl Default for OpusParams {
    fn default() -> (p: OpusParams)
        ensures
            p == default_opus(),
    {
        OpusParams { sample_rate: 16_000, channels: 1, bitrate: 24_000, frame_ms: 20 }
    }
}

/// Anonymity versus latency posture.
#[derive(Debug, Clone, Copy, PartialEq, Eq, Structural)]
pub enum SpeedMode {
    /// Full anonymity: standard 3+3 hop circuits.
    FullAnonymity,
    /// Speed-first default, still client-anonymous.
    SpeedFirst,
    /// IP-revealing single-hop service mode: explicit opt-in, never silent.
    SingleHopService,
}

impl Default for SpeedMode {
    fn default() -> (m: SpeedMode)
        ensures
            m == SpeedMode::SpeedFirst,
    {
        SpeedMode::SpeedFirst
    }
}

/// The codec parameters that a configuration file holds; an absent one keeps its default.
#[derive(Debug, Clone, Copy, PartialEq, Eq, Structural)]
pub struct OpusFile {
    /// Sample rate in Hz.
    pub sample_rate: Option<u32>,
    /// Channel count.
    pub channels: Option<u8>,
    /// Target bitrate in bits per second.
    pub bitrate: Option<u32>,
    /// Frame duration in milliseconds.
    pub frame_ms: Option<u8>,
}

impl OpusFile {
    /// `base` with the parameters that the file holds in place of its own.
    pub open spec fn over(self, base: OpusParams) -> OpusParams {
        OpusParams {
            sample_rate: match self.sample_rate {
                Some(v) => v,
                None => base.sample_rate,
            },
            channels: match self.channels {
                Some(v) => v,
                None => base.channels,
            },
            bitrate: match self.bitrate {
                Some(v) => v,
                None => base.bitrate,
            },
            frame_ms: match self.frame_ms {
                Some(v) => v,
                None => base.frame_ms,
            },
        }
    }

    /// A file that holds all parameters of `p`.
    pub open spec fn of(p: OpusParams) -> OpusFile {
        OpusFile {
            sample_rate: Some(p.sample_rate),
            channels: Some(p.channels),
            bitrate: Some(p.bitrate),
            frame_ms: Some(p.frame_ms),
        }
    }
}

/// The settings that a configuration file holds; an absent one keeps its default.
#[derive(Debug, Clone, Copy)]
pub struct ConfigFile {
    /// Advertised AEAD suite.
    pub aead_suite: Option<AeadSuite>,
    /// Codec parameters.
    pub opus: OpusFile,
    /// Push-to-talk key.
    pub ptt_key: Option<char>,
    /// Posture.
    pub speed_mode: Option<SpeedMode>,
    /// Jitter-buffer lead in milliseconds.
    pub jitter_lead_ms: Option<u64>,
    /// Application port.
    pub app_port: Option<u16>,
    /// Outgoing voice effect.
    pub voice_effect: Option<VoiceEffect>,
}

/// Top-level user configuration.
#[derive(Debug)]
pub struct Config {
    /// AEAD suite advertised in HELLO.
    pub aead_suite: AeadSuite,
    /// Opus encoder and decoder parameters.
    pub opus: OpusParams,
    /// Push-to-talk key.
    pub ptt_key: char,
    /// Anonymity and speed posture.
    pub speed_mode: SpeedMode,
    /// Jitter-buffer lead before playout begins, in milliseconds.
    pub jitter_lead_ms: u64,
    /// Application port carried inside the onion circuit.
    pub app_port: u16,
    /// Effect applied to outgoing voice.
    pub voice_effect: VoiceEffect,
    /// Root data directory; all other paths derive from it.
    pub data_dir: String,
}

impl Clone for Config {
    fn clone(&self) -> (r: Config)
        ensures
            r == *self,
    {
        Config { data_dir: self.data_dir.clone(), ..*self }
    }
}

/// `dir` with the relative component `name` appended.
pub open spec fn joined(dir: Seq<char>, name: Seq<char>) -> Seq<char> {
    if dir.len() == 0 || dir.last() == '/' {
        dir + name
    } else {
        dir.push('/') + name
    }
}

/// `dir` with the relative component `name` appended.
pub fn join_path(dir: &str, name: &str) -> (p: String)
    ensures
        p@ == joined(dir@, name@),
{
    let mut p = dir.to_owned();
    let n: usize = dir.unicode_len();
    if n > 0 && dir.get_char(n - 1) != '/' {
        p.push('/');
    }
    put(&mut p, name);
    p
}

/// The default data directory: `$TERMINALPHONE_DIR` if it is set, else `.terminalphone` under
/// `$HOME`, else under the current directory.
pub open spec fn data_dir_of(dir: Option<Seq<char>>, home: Option<Seq<char>>) -> Seq<char> {
    match dir {
        Some(d) => d,
        None => joined(
            match home {
                Some(h) => h,
                None => "."@,
            },
            ".terminalphone"@,
        ),
    }
}

/// A string that may be absent, by its view.
pub open spec fn opt_view(s: Option<&str>) -> Option<Seq<char>> {
    match s {
        Some(t) => Some(t@),
        None => None,
    }
}

/// Resolve the default data directory from the values of `$TERMINALPHONE_DIR` and `$HOME`.
pub fn default_data_dir(dir: Option<&str>, home: Option<&str>) -> (p: String)
    ensures
        p@ == data_dir_of(opt_view(dir), opt_view(home)),
        dir matches Some(d) ==> p@ == d@,
        dir is None && home is Some ==> p@ == joined(home.unwrap()@, ".terminalphone"@),
        dir is None && home is None ==> p@ == joined("."@, ".terminalphone"@),
{
    match dir {
        Some(d) => d.to_owned(),
        None => match home {
            Some(h) => join_path(h, ".terminalphone"),
            None => join_path(".", ".terminalphone"),
        },
    }
}

impl Config {
    /// Whether every setting other than the data directory has its default value.
    pub open spec fn has_defaults(&self) -> bool {
        &&& self.aead_suite == AeadSuite::Aes256Gcm
        &&& self.opus == default_opus()
        &&& self.ptt_key == ' '
        &&& self.speed_mode == SpeedMode::SpeedFirst
        &&& self.jitter_lead_ms == 250
        &&& self.app_port == APP_PORT
        &&& self.voice_effect == VoiceEffect::Off
    }

    /// Whether `self` is `base` with the settings that `file` holds in place of its own.
    pub open spec fn overrides(&self, base: Config, file: ConfigFile) -> bool {
        &&& self.aead_suite == (match file.aead_suite {
            Some(v) => v,
            None => base.aead_suite,
        })
        &&& self.opus == file.opus.over(base.opus)
        &&& self.ptt_key == (match file.ptt_key {
            Some(v) => v,
            None => base.ptt_key,
        })
        &&& self.speed_mode == (match file.speed_mode {
            Some(v) => v,
            None => base.speed_mode,
        })
        &&& self.jitter_lead_ms == (match file.jitter_lead_ms {
            Some(v) => v,
            None => base.jitter_lead_ms,
        })
        &&& self.app_port == (match file.app_port {
            Some(v) => v,
            None => base.app_port,
        })
        &&& self.voice_effect == (match file.voice_effect {
            Some(v) => v,
            None => base.voice_effect,
        })
        &&& self.data_dir == base.data_dir
    }

    /// The default configuration for a data directory.
    pub fn in_dir(data_dir: &str) -> (c: Config)
        ensures
            c.has_defaults(),
            c.data_dir@ == data_dir@,
            c.aead_suite == AeadSuite::Aes256Gcm,
            c.ptt_key == ' ',
            c.speed_mode == SpeedMode::SpeedFirst,
            c.jitter_lead_ms == 250,
            c.app_port == 7777,
            c.voice_effect == VoiceEffect::Off,
            c.opus.sample_rate == 16_000,
            c.opus.channels == 1,
            c.opus.bitrate == 24_000,
            c.opus.frame_ms == 20,
    {
        Config {
            aead_suite: AeadSuite::Aes256Gcm,
            opus: OpusParams::default(),
            ptt_key: ' ',
            speed_mode: SpeedMode::default(),
            jitter_lead_ms: 250,
            app_port: APP_PORT,
            voice_effect: VoiceEffect::Off,
            data_dir: data_dir.to_owned(),
        }
    }

    /// Put the settings that `file` holds in place of the current ones; the others stay.
    pub fn merge(&mut self, file: &ConfigFile)
        ensures
            final(self).overrides(*old(self), *file),
            file.aead_suite matches Some(v) ==> final(self).aead_suite == v,
            file.aead_suite is None ==> final(self).aead_suite == old(self).aead_suite,
            file.ptt_key matches Some(v) ==> final(self).ptt_key == v,
            file.ptt_key is None ==> final(self).ptt_key == old(self).ptt_key,
            file.speed_mode matches Some(v) ==> final(self).speed_mode == v,
            file.speed_mode is None ==> final(self).speed_mode == old(self).speed_mode,
            file.jitter_lead_ms matches Some(v) ==> final(self).jitter_lead_ms == v,
            file.jitter_lead_ms is None ==> final(self).jitter_lead_ms == old(self).jitter_lead_ms,
            file.app_port matches Some(v) ==> final(self).app_port == v,
            file.app_port is None ==> final(self).app_port == old(self).app_port,
            file.voice_effect matches Some(v) ==> final(self).voice_effect == v,
            file.voice_effect is None ==> final(self).voice_effect == old(self).voice_effect,
            file.opus.sample_rate matches Some(v) ==> final(self).opus.sample_rate == v,
            file.opus.sample_rate is None ==> final(self).opus.sample_rate == old(self).opus.sample_rate,
            file.opus.channels matches Some(v) ==> final(self).opus.channels == v,
            file.opus.channels is None ==> final(self).opus.channels == old(self).opus.channels,
            file.opus.bitrate matches Some(v) ==> final(self).opus.bitrate == v,
            file.opus.bitrate is None ==> final(self).opus.bitrate == old(self).opus.bitrate,
            file.opus.frame_ms matches Some(v) ==> final(self).opus.frame_ms == v,
            file.opus.frame_ms is None ==> final(self).opus.frame_ms == old(self).opus.frame_ms,
            final(self).data_dir@ == old(self).data_dir@,
    {
        if let Some(v) = file.aead_suite {
            self.aead_suite = v;
        }
        if let Some(v) = file.opus.sample_rate {
            self.opus.sample_rate = v;
        }
        if let Some(v) = file.opus.channels {
            self.opus.channels = v;
        }
        if let Some(v) = file.opus.bitrate {
            self.opus.bitrate = v;
        }
        if let Some(v) = file.opus.frame_ms {
            self.opus.frame_ms = v;
        }
        if let Some(v) = file.ptt_key {
            self.ptt_key = v;
        }
        if let Some(v) = file.speed_mode {
            self.speed_mode = v;
        }
        if let Some(v) = file.jitter_lead_ms {
            self.jitter_lead_ms = v;
        }
        if let Some(v) = file.app_port {
            self.app_port = v;
        }
        if let Some(v) = file.voice_effect {
            self.voice_effect = v;
        }
    }

    /// The configuration for a data directory whose configuration file holds `file`, or that has
    /// none.
    pub fn load(data_dir: &str, file: Option<ConfigFile>) -> (c: Config)
        ensures
            file is None ==> c.has_defaults(),
            file matches Some(f) ==> exists|base: Config| #[trigger] base.has_defaults() && c.overrides(base, f),
            c.data_dir@ == data_dir@,
            c.aead_suite == (if file is Some && file.unwrap().aead_suite is Some {
                file.unwrap().aead_suite.unwrap()
            } else {
                AeadSuite::Aes256Gcm
            }),
            c.ptt_key == (if file is Some && file.unwrap().ptt_key is Some {
                file.unwrap().ptt_key.unwrap()
            } else {
                ' '
            }),
            c.speed_mode == (if file is Some && file.unwrap().speed_mode is Some {
                file.unwrap().speed_mode.unwrap()
            } else {
                SpeedMode::SpeedFirst
            }),
            c.jitter_lead_ms == (if file is Some && file.unwrap().jitter_lead_ms is Some {
                file.unwrap().jitter_lead_ms.unwrap()
            } else {
                250
            }),
            c.app_port == (if file is Some && file.unwrap().app_port is Some {
                file.unwrap().app_port.unwrap()
            } else {
                7777
            }),
            c.voice_effect == (if file is Some && file.unwrap().voice_effect is Some {
                file.unwrap().voice_effect.unwrap()
            } else {
                VoiceEffect::Off
            }),
            c.opus.sample_rate == (if file is Some && file.unwrap().opus.sample_rate is Some {
                file.unwrap().opus.sample_rate.unwrap()
            } else {
                16_000
            }),
            c.opus.channels == (if file is Some && file.unwrap().opus.channels is Some {
                file.unwrap().opus.channels.unwrap()
            } else {
                1
            }),
            c.opus.bitrate == (if file is Some && file.unwrap().opus.bitrate is Some {
                file.unwrap().opus.bitrate.unwrap()
            } else {
                24_000
            }),
            c.opus.frame_ms == (if file is Some && file.unwrap().opus.frame_ms is Some {
                file.unwrap().opus.frame_ms.unwrap()
            } else {
                20
            }),
    {
        let mut c = Config::in_dir(data_dir);
        let ghost base = c;
        if let Some(f) = file {
            c.merge(&f);
            assert(base.has_defaults() && c.overrides(base, f));
        }
        c
    }

    /// The settings to write to the configuration file.
    pub open spec fn saved(&self) -> ConfigFile {
        ConfigFile {
            aead_suite: Some(self.aead_suite),
            opus: OpusFile::of(self.opus),
            ptt_key: Some(self.ptt_key),
            speed_mode: Some(self.speed_mode),
            jitter_lead_ms: Some(self.jitter_lead_ms),
            app_port: Some(self.app_port),
            voice_effect: Some(self.voice_effect),
        }
    }

    /// The settings to write to the configuration file: all of them but the data directory.
    pub fn save(&self) -> (file: ConfigFile)
        ensures
            file == self.saved(),
            file.aead_suite == Some(self.aead_suite),
            file.ptt_key == Some(self.ptt_key),
            file.speed_mode == Some(self.speed_mode),
            file.jitter_lead_ms == Some(self.jitter_lead_ms),
            file.app_port == Some(self.app_port),
            file.voice_effect == Some(self.voice_effect),
            file.opus.sample_rate == Some(self.opus.sample_rate),
            file.opus.channels == Some(self.opus.channels),
            file.opus.bitrate == Some(self.opus.bitrate),
            file.opus.frame_ms == Some(self.opus.frame_ms),
    {
        ConfigFile {
            aead_suite: Some(self.aead_suite),
            opus: OpusFile {
                sample_rate: Some(self.opus.sample_rate),
                channels: Some(self.opus.channels),
                bitrate: Some(self.opus.bitrate),
                frame_ms: Some(self.opus.frame_ms),
            },
            ptt_key: Some(self.ptt_key),
            speed_mode: Some(self.speed_mode),
            jitter_lead_ms: Some(self.jitter_lead_ms),
            app_port: Some(self.app_port),
            voice_effect: Some(self.voice_effect),
        }
    }

    /// Project the transport-relevant subset.
    pub fn tor_config(&self) -> (t: TorConfig)
        ensures
            t.speed_mode == self.speed_mode,
            t.cache_dir@ == joined(self.data_dir@, "arti"@),
            t.state_dir@ == joined(self.data_dir@, "arti"@),
            t.app_port == self.app_port,
    {
        TorConfig {
            speed_mode: self.speed_mode,
            cache_dir: self.arti_dir(),
            state_dir: self.arti_dir(),
            app_port: self.app_port,
        }
    }

    /// `identity` under the data directory: onion service key material.
    pub fn identity_dir(&self) -> (p: String)
        ensures
            p@ == joined(self.data_dir@, "identity"@),
    {
        join_path(self.data_dir.as_str(), "identity")
    }

    /// `arti` under the data directory: cached consensus and state.
    pub fn arti_dir(&self) -> (p: String)
        ensures
            p@ == joined(self.data_dir@, "arti"@),
    {
        join_path(self.data_dir.as_str(), "arti")
    }

    /// `secret` under the data directory: the PSK, optionally passphrase-wrapped.
    pub fn secret_path(&self) -> (p: String)
        ensures
            p@ == joined(self.data_dir@, "secret"@),
    {
        join_path(self.data_dir.as_str(), "secret")
    }

    /// `config.toml` under the data directory.
    pub fn config_path(&self) -> (p: String)
        ensures
            p@ == joined(self.data_dir@, "config.toml"@),
    {
        join_path(self.data_dir.as_str(), "config.toml")
    }
}

/// Each setting is merged by itself: one that the file holds is the loaded one, and one that it does not
/// hold stays as it was, whichever others the file holds. The data directory always stays.
pub proof fn law_each_setting_is_merged_by_itself(loaded: Config, base: Config, file: ConfigFile)
    requires
        loaded.overrides(base, file),
    ensures
        file.aead_suite matches Some(v) ==> loaded.aead_suite == v,
        file.aead_suite is None ==> loaded.aead_suite == base.aead_suite,
        file.ptt_key matches Some(v) ==> loaded.ptt_key == v,
        file.ptt_key is None ==> loaded.ptt_key == base.ptt_key,
        file.speed_mode matches Some(v) ==> loaded.speed_mode == v,
        file.speed_mode is None ==> loaded.speed_mode == base.speed_mode,
        file.jitter_lead_ms matches Some(v) ==> loaded.jitter_lead_ms == v,
        file.jitter_lead_ms is None ==> loaded.jitter_lead_ms == base.jitter_lead_ms,
        file.app_port matches Some(v) ==> loaded.app_port == v,
        file.app_port is None ==> loaded.app_port == base.app_port,
        file.voice_effect matches Some(v) ==> loaded.voice_effect == v,
        file.voice_effect is None ==> loaded.voice_effect == base.voice_effect,
        file.opus.sample_rate matches Some(v) ==> loaded.opus.sample_rate == v,
        file.opus.sample_rate is None ==> loaded.opus.sample_rate == base.opus.sample_rate,
        file.opus.channels matches Some(v) ==> loaded.opus.channels == v,
        file.opus.channels is None ==> loaded.opus.channels == base.opus.channels,
        file.opus.bitrate matches Some(v) ==> loaded.opus.bitrate == v,
        file.opus.bitrate is None ==> loaded.opus.bitrate == base.opus.bitrate,
        file.opus.frame_ms matches Some(v) ==> loaded.opus.frame_ms == v,
        file.opus.frame_ms is None ==> loaded.opus.frame_ms == base.opus.frame_ms,
        loaded.data_dir == base.data_dir,
{
}

/// The defaults, setting by setting.
pub proof fn law_defaults(c: Config)
    ensures
        c.has_defaults() <==> {
            &&& c.aead_suite == AeadSuite::Aes256Gcm
            &&& c.ptt_key == ' '
            &&& c.speed_mode == SpeedMode::SpeedFirst
            &&& c.jitter_lead_ms == 250
            &&& c.app_port == 7777
            &&& c.voice_effect == VoiceEffect::Off
            &&& c.opus.sample_rate == 16_000
            &&& c.opus.channels == 1
            &&& c.opus.bitrate == 24_000
            &&& c.opus.frame_ms == 20
        },
{
}

/// Two files merged one after the other: the later one counts where it holds a setting, the earlier one
/// where only that does.
pub proof fn law_the_later_file_counts(base: Config, one: ConfigFile, both: Config, middle: Config, two: ConfigFile)
    requires
        middle.overrides(base, one),
        both.overrides(middle, two),
    ensures
        two.speed_mode is Some ==> both.speed_mode == two.speed_mode.unwrap(),
        two.speed_mode is None && one.speed_mode is Some ==> both.speed_mode == one.speed_mode.unwrap(),
        two.ptt_key is Some ==> both.ptt_key == two.ptt_key.unwrap(),
        two.ptt_key is None && one.ptt_key is Some ==> both.ptt_key == one.ptt_key.unwrap(),
        two.aead_suite is Some ==> both.aead_suite == two.aead_suite.unwrap(),
        two.aead_suite is None && one.aead_suite is Some ==> both.aead_suite == one.aead_suite.unwrap(),
        two.jitter_lead_ms is Some ==> both.jitter_lead_ms == two.jitter_lead_ms.unwrap(),
        two.app_port is Some ==> both.app_port == two.app_port.unwrap(),
        two.voice_effect is Some ==> both.voice_effect == two.voice_effect.unwrap(),
        both.data_dir == base.data_dir,
{
}

/// A path below a directory is the directory, one slash unless there is one already or no directory at
/// all, and the name.
pub proof fn law_joined_paths(dir: Seq<char>, name: Seq<char>)
    ensures
        dir.len() == 0 ==> joined(dir, name) == name,
        dir.len() > 0 && dir.last() == '/' ==> joined(dir, name) == dir + name,
        dir.len() > 0 && dir.last() != '/' ==> joined(dir, name) == dir + seq!['/'] + name,
{
    if dir.len() == 0 {
        assert(joined(dir, name) =~= name);
    } else if dir.last() != '/' {
        assert(joined(dir, name) =~= dir + seq!['/'] + name);
    }
}

/// What is saved is what is loaded: whatever the defaults, the loaded configuration has every
/// setting of the saved one.
pub proof fn law_saved_config_loads_back(saved: Config, base: Config, loaded: Config)
    requires
        loaded.overrides(base, saved.saved()),
        base.data_dir == saved.data_dir,
    ensures
        loaded == saved,
{
}

} // verus!

//! What the daemon is told from outside: the channel it serves and the
//! directories it works in, and the names and ports that follow from them.

use vstd::prelude::*;
use vstd::string::*;
use crate::text::{
    chars_of, decimal_text, has_suffix, ends_with, parse_u16, text_of, u16_of_text,
    u64_to_decimal,
};

verus! {

/// Where the scripts that every channel shares are installed.
pub const GLOBAL_DATA_DIR: &'static str = "/usr/local/share/neopult";

/// The channel served where none is named.
pub const CHANNEL_DEFAULT: u8 = 0;

/// The highest channel number.
pub const CHANNEL_MAX: u8 = 99;

/// The port of channel 0; each channel listens on this port plus its number.
pub const BASE_PORT: u16 = 4200;

/// The password that clients authenticate with where the scripts set none.
pub const DEFAULT_WEBSOCKET_PASSWORD: &'static str = "admin";

/// What the environment says before any script has run.
#[derive(Debug, Clone, PartialEq, Eq)]
pub struct EnvConfig {
    pub channel: u8,
    pub neopult_home: String,
    pub channel_home: String,
}

/// The configuration in force once the scripts are loaded.
#[derive(Debug, Clone, PartialEq, Eq)]
pub struct Config {
    pub channel: u8,
    pub neopult_home: String,
    pub channel_home: String,
    pub websocket_password: String,
}

/// Why the environment does not describe a usable installation.
#[derive(Debug, PartialEq, Eq, Copy, Clone, Structural)]
pub enum ConfigError {
    /// The variable that names the home directory is not set.
    HomeNotSet,
    /// The home directory does not exist.
    HomeMissing,
    /// The home directory holds no directory for the channel.
    ChannelHomeMissing,
}

/// A text without the one plus sign that may stand in front of a number.
pub open spec fn without_plus(s: Seq<char>) -> Seq<char> {
    if s.len() > 0 && s[0] == '+' {
        s.skip(1)
    } else {
        s
    }
}

/// The channel that a text names: a run of decimal digits, with or without
/// one plus sign in front, whose value is at most 99.
pub open spec fn channel_of_text(s: Seq<char>) -> Option<u8> {
    match u16_of_text(without_plus(s)) {
        Some(n) => if n <= CHANNEL_MAX {
            Some(n as u8)
        } else {
            None
        },
        None => None,
    }
}

/// The channel to serve, given what the environment holds for it: the channel
/// that the value names, and the default where there is no value or it names
/// none.
pub open spec fn chosen_channel(value: Option<Seq<char>>) -> u8 {
    match value {
        Some(s) => match channel_of_text(s) {
            Some(c) => c,
            None => CHANNEL_DEFAULT,
        },
        None => CHANNEL_DEFAULT,
    }
}

/// `name` below the directory `base`: the two with one `/` between them,
/// unless `base` is empty or brings the `/` along.
pub open spec fn joined_path(base: Seq<char>, name: Seq<char>) -> Seq<char> {
    if base.len() == 0 || has_suffix(base, "/"@) {
        base + name
    } else {
        base + "/"@ + name
    }
}

/// The name of a channel's directory below the home directory.
pub open spec fn channel_dir_name(channel: u8) -> Seq<char> {
    "channel-"@ + decimal_text(channel as nat)
}

/// The directory in which the PID files of a channel's helpers are kept.
pub open spec fn pid_dir_text(channel: u8) -> Seq<char> {
    "/tmp/neopult-channel-"@ + decimal_text(channel as nat)
}

/// The script search path that a channel puts in front of the loader's own:
/// three patterns below the channel's directory, then the same three below
/// the shared data directory.
pub open spec fn script_search_path(channel_home: Seq<char>, load_path: Seq<char>) -> Seq<char> {
    search_patterns(channel_home) + search_patterns(GLOBAL_DATA_DIR@) + load_path
}

/// The three places below `dir` in which a script is looked for.
pub open spec fn search_patterns(dir: Seq<char>) -> Seq<char> {
    dir + "/?.lua;"@ + dir + "/plugins/?.lua;"@ + dir + "/plugins/?/init.lua;"@
}

/// Reads a channel number; gives nothing for a text that is no number or a
/// number above 99.
pub fn parse_channel(s: &str) -> (r: Option<u8>)
    ensures
        r == channel_of_text(s@),
{
    let v = chars_of(s);
    let from: usize = if v.len() > 0 && v[0] == '+' {
        1
    } else {
        0
    };
    proof {
        if from == 1 {
            assert(v@.subrange(1, v.len() as int) =~= v@.skip(1));
        } else {
            assert(v@.subrange(0, v.len() as int) =~= v@);
        }
    }
    match parse_u16(&v, from, v.len()) {
        Some(n) => if n <= 99 {
            Some(n as u8)
        } else {
            None
        },
        None => None,
    }
}

/// Puts `name` below the directory `base`.
pub fn join_path(base: &str, name: &str) -> (r: String)
    ensures
        r@ == joined_path(base@, name@),
{
    let mut r = String::from_str(base);
    let empty = base.unicode_len() == 0;
    if !empty && !ends_with(base, "/") {
        r.append("/");
    }
    r.append(name);
    proof {
        if empty {
            assert(base@ =~= Seq::<char>::empty());
        }
    }
    r
}

/// Appends the three search patterns below `dir` to `out`.
fn push_search_patterns(out: &mut String, dir: &str)
    ensures
        final(out)@ == old(out)@ + search_patterns(dir@),
{
    out.append(dir);
    out.append("/?.lua;");
    out.append(dir);
    out.append("/plugins/?.lua;");
    out.append(dir);
    out.append("/plugins/?/init.lua;");
    assert(out@ =~= old(out)@ + search_patterns(dir@));
}

/// The script search path for a channel, given the loader's own path.
pub fn lua_search_path(channel_home: &str, load_path: &str) -> (r: String)
    ensures
        r@ == script_search_path(channel_home@, load_path@),
{
    let mut r = String::new();
    push_search_patterns(&mut r, channel_home);
    push_search_patterns(&mut r, GLOBAL_DATA_DIR);
    r.append(load_path);
    assert(r@ =~= script_search_path(channel_home@, load_path@));
    r
}

/// The directory in which the PID files of a channel's helpers are kept.
pub fn pid_dir_path(channel: u8) -> (r: String)
    ensures
        r@ == pid_dir_text(channel),
{
    let mut r = String::from_str("/tmp/neopult-channel-");
    let n = u64_to_decimal(channel as u64);
    r.append(n.as_str());
    r
}

/// The port on which a channel's server listens.
pub fn server_port(channel: u8) -> (r: u16)
    ensures
        r == BASE_PORT + channel,
{
    BASE_PORT + channel as u16
}

/// What the environment says: the channel from the value of its variable,
/// and the home directory with the channel's directory below it. Fails where
/// no home directory is named.
pub fn get_env_config(channel_value: Option<String>, home_value: Option<String>) -> (r: Result<
    EnvConfig,
    ConfigError,
>)
    ensures
        match r {
            Ok(c) => {
                &&& home_value is Some
                &&& c.channel == chosen_channel(text_of(channel_value))
                &&& c.channel <= CHANNEL_MAX
                &&& c.neopult_home@ == home_value->0@
                &&& c.channel_home@ == joined_path(home_value->0@, channel_dir_name(c.channel))
            },
            Err(e) => home_value is None && e == ConfigError::HomeNotSet,
        },
{
    let channel: u8 = match &channel_value {
        Some(s) => match parse_channel(s.as_str()) {
            Some(c) => c,
            None => CHANNEL_DEFAULT,
        },
        None => CHANNEL_DEFAULT,
    };
    let neopult_home = match home_value {
        Some(home) => home,
        None => {
            return Err(ConfigError::HomeNotSet);
        },
    };
    let mut dir = String::from_str("channel-");
    let n = u64_to_decimal(channel as u64);
    dir.append(n.as_str());
    let channel_home = join_path(neopult_home.as_str(), dir.as_str());
    Ok(EnvConfig { channel, neopult_home, channel_home })
}

/// Whether the directories that a configuration names are there: the home
/// directory is looked at first.
pub fn check_directories(home_exists: bool, channel_home_exists: bool) -> (r: Result<
    (),
    ConfigError,
>)
    ensures
        r == if !home_exists {
            Err::<(), ConfigError>(ConfigError::HomeMissing)
        } else if !channel_home_exists {
            Err::<(), ConfigError>(ConfigError::ChannelHomeMissing)
        } else {
            Ok::<(), ConfigError>(())
        },
{
    if !home_exists {
        Err(ConfigError::HomeMissing)
    } else if !channel_home_exists {
        Err(ConfigError::ChannelHomeMissing)
    } else {
        Ok(())
    }
}

impl ConfigError {
    /// The wording of the error.
    pub open spec fn text(self) -> Seq<char> {
        match self {
            ConfigError::HomeNotSet => "the home environment variable has to be set to the neopult home"@,
            ConfigError::HomeMissing => "neopult home directory does not exist"@,
            ConfigError::ChannelHomeMissing => "channel home directory does not exist"@,
        }
    }

    /// The wording of the error, for the message printed before the daemon
    /// gives up.
    pub fn message(&self) -> (r: String)
        ensures
            r@ == self.text(),
    {
        match self {
            ConfigError::HomeNotSet => String::from_str(
                "the home environment variable has to be set to the neopult home",
            ),
            ConfigError::HomeMissing => String::from_str("neopult home directory does not exist"),
            ConfigError::ChannelHomeMissing => String::from_str(
                "channel home directory does not exist",
            ),
        }
    }
}

/// What a script may have put in the configuration table under one key.
#[derive(Debug, Clone, PartialEq, Eq)]
pub enum ConfigValue {
    /// A text.
    Text(String),
    /// Anything that is not a text.
    Other,
}

/// One entry of the configuration table: its key, where that is a text, and
/// its value.
#[derive(Debug, Clone, PartialEq, Eq)]
pub struct ConfigEntry {
    pub key: Option<String>,
    pub value: ConfigValue,
}

/// What the scripts configure.
#[derive(Debug, Clone, PartialEq, Eq)]
pub struct LuaConfig {
    pub websocket_password: String,
}

impl Default for LuaConfig {
    /// The password is `admin`.
    fn default() -> (r: LuaConfig)
        ensures
            r.websocket_password@ == DEFAULT_WEBSOCKET_PASSWORD@,
    {
        LuaConfig { websocket_password: String::from_str(DEFAULT_WEBSOCKET_PASSWORD) }
    }
}

/// The password after one more entry of the table was read: a text under the
/// key `websocket_password` replaces it, any other entry leaves it.
pub open spec fn password_after(password: Seq<char>, entry: ConfigEntry) -> Seq<char> {
    match (entry.key, entry.value) {
        (Some(key), ConfigValue::Text(value)) => if key@ == "websocket_password"@ {
            value@
        } else {
            password
        },
        _ => password,
    }
}

/// The password after the entries of the table were read in order.
pub open spec fn configured_password(entries: Seq<ConfigEntry>) -> Seq<char>
    decreases entries.len(),
{
    if entries.len() == 0 {
        DEFAULT_WEBSOCKET_PASSWORD@
    } else {
        password_after(configured_password(entries.drop_last()), entries.last())
    }
}

/// What the host is to say of an entry of the configuration table.
#[derive(Debug, PartialEq, Eq, Copy, Clone, Structural)]
pub enum ConfigRemark {
    /// The entry was used.
    Accepted,
    /// The password is not a text.
    PasswordNotText,
    /// The key is a text that names no setting.
    UnknownKey,
    /// The key is not a text.
    KeyNotText,
}

/// What is to be said of one entry of the configuration table.
pub fn remark_on(entry: &ConfigEntry) -> (r: ConfigRemark)
    ensures
        r == match (entry.key, entry.value) {
            (None, _) => ConfigRemark::KeyNotText,
            (Some(key), value) => if key@ != "websocket_password"@ {
                ConfigRemark::UnknownKey
            } else if value is Text {
                ConfigRemark::Accepted
            } else {
                ConfigRemark::PasswordNotText
            },
        },
{
    match &entry.key {
        None => ConfigRemark::KeyNotText,
        Some(key) => {
            if !crate::text::str_equals(key.as_str(), "websocket_password") {
                ConfigRemark::UnknownKey
            } else {
                match &entry.value {
                    ConfigValue::Text(_) => ConfigRemark::Accepted,
                    ConfigValue::Other => ConfigRemark::PasswordNotText,
                }
            }
        },
    }
}

/// Reads the configuration table that the scripts filled.
pub fn get_config(entries: &Vec<ConfigEntry>) -> (r: LuaConfig)
    ensures
        r.websocket_password@ == configured_password(entries@),
{
    let mut config = LuaConfig::default();
    let mut i: usize = 0;
    assert(entries@.take(0) =~= Seq::<ConfigEntry>::empty());
    while i < entries.len()
        invariant
            i <= entries.len(),
            config.websocket_password@ == configured_password(entries@.take(i as int)),
        decreases entries.len() - i,
    {
        proof {
            assert(entries@.take(i + 1).drop_last() =~= entries@.take(i as int));
            assert(entries@.take(i + 1).last() == entries@[i as int]);
        }
        match remark_on(&entries[i]) {
            ConfigRemark::Accepted => {
                match &entries[i].value {
                    ConfigValue::Text(value) => {
                        config.websocket_password = value.clone();
                    },
                    ConfigValue::Other => {},
                }
            },
            _ => {},
        }
        i += 1;
    }
    assert(entries@.take(entries.len() as int) =~= entries@);
    config
}

impl Config {
    /// The configuration made of what the environment and the scripts say.
    pub fn new(env_config: &EnvConfig, lua_config: LuaConfig) -> (r: Config)
        ensures
            r.channel == env_config.channel,
            r.neopult_home@ == env_config.neopult_home@,
            r.channel_home@ == env_config.channel_home@,
            r.websocket_password@ == lua_config.websocket_password@,
    {
        Config {
            channel: env_config.channel,
            neopult_home: env_config.neopult_home.clone(),
            channel_home: env_config.channel_home.clone(),
            websocket_password: lua_config.websocket_password,
        }
    }
}

} // verus!

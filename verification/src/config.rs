//! Configuration from environment values.
//!
//! Reading the process environment is outside work; [`Config::from_values`]
//! takes the values that were read (`None` for a variable that is unset or not
//! Unicode) and decides the configuration or the error, in the order in which
//! the variables are checked.
use vstd::prelude::*;
use crate::text::{
    IntErrorKind,
    decimal_string,
    decimal_text,
    has_comma,
    int_error_text,
    list_entries,
    opt_text,
    parse_unsigned,
    parse_unsigned_decimal,
    split_list,
    trim,
};
use crate::artnet::{artdmx_packet, artdmx_rgb};

verus! {

/// Default Art-Net universe.
pub const DEFAULT_ARTNET_UNIVERSE: u16 = 0;

/// Default 1-indexed DMX channel of the red component.
pub const DEFAULT_RGB_START_CHANNEL: u16 = 1;

/// Highest allowed start channel: the triplet must fit in a 512-channel universe.
pub const MAX_RGB_START_CHANNEL: u16 = 510;

/// Default rate cap between Home Assistant calls, in milliseconds.
pub const DEFAULT_MIN_SEND_INTERVAL_MS: u64 = 100;

/// The environment variables that configure the bridge.
#[derive(Clone, Copy, Debug, PartialEq, Eq, Structural)]
pub enum EnvKey {
    HaUrl,
    HaToken,
    HaLights,
    ArtnetUniverse,
    ArtnetBind,
    RgbStartChannel,
    MinSendIntervalMs,
}

/// The name of each environment variable.
pub open spec fn key_name(k: EnvKey) -> Seq<char> {
    match k {
        EnvKey::HaUrl => "HA_URL"@,
        EnvKey::HaToken => "HA_TOKEN"@,
        EnvKey::HaLights => "HA_LIGHTS"@,
        EnvKey::ArtnetUniverse => "ARTNET_UNIVERSE"@,
        EnvKey::ArtnetBind => "ARTNET_BIND"@,
        EnvKey::RgbStartChannel => "RGB_START_CHANNEL"@,
        EnvKey::MinSendIntervalMs => "MIN_SEND_INTERVAL_MS"@,
    }
}

impl EnvKey {
    /// The variable's name in the environment.
    pub fn name(&self) -> (r: &'static str)
        ensures
            r@ == key_name(*self),
    {
        match self {
            EnvKey::HaUrl => "HA_URL",
            EnvKey::HaToken => "HA_TOKEN",
            EnvKey::HaLights => "HA_LIGHTS",
            EnvKey::ArtnetUniverse => "ARTNET_UNIVERSE",
            EnvKey::ArtnetBind => "ARTNET_BIND",
            EnvKey::RgbStartChannel => "RGB_START_CHANNEL",
            EnvKey::MinSendIntervalMs => "MIN_SEND_INTERVAL_MS",
        }
    }
}

/// The default Art-Net bind address, used when `ARTNET_BIND` is unset.
pub open spec fn default_bind() -> Seq<char> {
    "0.0.0.0:6454"@
}

/// The raw values of the environment variables; `None` where a variable is
/// unset or not valid Unicode.
pub struct EnvValues {
    pub ha_url: Option<String>,
    pub ha_token: Option<String>,
    pub ha_lights: Option<String>,
    pub artnet_universe: Option<String>,
    pub artnet_bind: Option<String>,
    pub rgb_start_channel: Option<String>,
    pub min_send_interval_ms: Option<String>,
}

/// The abstract content of [`EnvValues`].
pub struct EnvValuesView {
    pub ha_url: Option<Seq<char>>,
    pub ha_token: Option<Seq<char>>,
    pub ha_lights: Option<Seq<char>>,
    pub artnet_universe: Option<Seq<char>>,
    pub artnet_bind: Option<Seq<char>>,
    pub rgb_start_channel: Option<Seq<char>>,
    pub min_send_interval_ms: Option<Seq<char>>,
}

impl View for EnvValues {
    type V = EnvValuesView;

    open spec fn view(&self) -> EnvValuesView {
        EnvValuesView {
            ha_url: opt_text(self.ha_url),
            ha_token: opt_text(self.ha_token),
            ha_lights: opt_text(self.ha_lights),
            artnet_universe: opt_text(self.artnet_universe),
            artnet_bind: opt_text(self.artnet_bind),
            rgb_start_channel: opt_text(self.rgb_start_channel),
            min_send_interval_ms: opt_text(self.min_send_interval_ms),
        }
    }
}

/// The bridge's configuration.
pub struct Config {
    /// Home Assistant WebSocket URL.
    pub ha_url: String,
    /// Home Assistant long-lived access token.
    pub ha_token: String,
    /// Entity ids of the lights to drive (at least one).
    pub ha_lights: Vec<String>,
    /// Art-Net universe to listen on.
    pub artnet_universe: u16,
    /// UDP bind address, as text that parses as a socket address.
    pub artnet_bind: String,
    /// 1-indexed DMX channel of the red component, in `1..=510`.
    pub rgb_start_channel: u16,
    /// Rate cap between Home Assistant calls, in milliseconds.
    pub min_send_interval_ms: u64,
}

/// The abstract content of a [`Config`].
pub struct ConfigView {
    pub ha_url: Seq<char>,
    pub ha_token: Seq<char>,
    pub ha_lights: Seq<Seq<char>>,
    pub artnet_universe: u16,
    pub artnet_bind: Seq<char>,
    pub rgb_start_channel: u16,
    pub min_send_interval_ms: u64,
}

impl View for Config {
    type V = ConfigView;

    open spec fn view(&self) -> ConfigView {
        ConfigView {
            ha_url: self.ha_url@,
            ha_token: self.ha_token@,
            ha_lights: self.ha_lights@.map_values(|s: String| s@),
            artnet_universe: self.artnet_universe,
            artnet_bind: self.artnet_bind@,
            rgb_start_channel: self.rgb_start_channel,
            min_send_interval_ms: self.min_send_interval_ms,
        }
    }
}

/// Why the environment does not give a configuration.
#[derive(Clone, Copy, Debug, PartialEq, Eq, Structural)]
pub enum ConfigError {
    /// A required variable is unset.
    Missing(EnvKey),
    /// `HA_LIGHTS` lists no entity id.
    NoLights,
    /// A numeric variable does not parse as a number of its type.
    Invalid(EnvKey, IntErrorKind),
    /// `ARTNET_BIND` is not a socket address.
    BindInvalid,
    /// `RGB_START_CHANNEL` is outside `1..=510`; the value read.
    StartChannelOutOfRange(u16),
}

/// The message of each configuration error.
pub open spec fn config_error_text(e: ConfigError) -> Seq<char> {
    match e {
        ConfigError::Missing(k) => key_name(k) + " must be set"@,
        ConfigError::NoLights => "HA_LIGHTS must list at least one entity_id"@,
        ConfigError::Invalid(k, kind) => key_name(k) + " invalid: "@ + int_error_text(kind),
        ConfigError::BindInvalid => "ARTNET_BIND must be a valid socket address"@,
        ConfigError::StartChannelOutOfRange(v) => "RGB_START_CHANNEL must be in 1..=510 (got "@
            + decimal_text(v as nat) + ")"@,
    }
}

impl ConfigError {
    /// The error's message, naming the variable at fault.
    pub fn message(&self) -> (r: String)
        ensures
            r@ == config_error_text(*self),
    {
        match self {
            ConfigError::Missing(k) => {
                let mut r = String::from_str(k.name());
                r.append(" must be set");
                r
            },
            ConfigError::NoLights => String::from_str("HA_LIGHTS must list at least one entity_id"),
            ConfigError::Invalid(k, kind) => {
                let mut r = String::from_str(k.name());
                r.append(" invalid: ");
                let m = kind.message();
                r.append(m.as_str());
                r
            },
            ConfigError::BindInvalid => String::from_str("ARTNET_BIND must be a valid socket address"),
            ConfigError::StartChannelOutOfRange(v) => {
                let mut r = String::from_str("RGB_START_CHANNEL must be in 1..=510 (got ");
                let d = decimal_string(*v as u64);
                r.append(d.as_str());
                r.append(")");
                r
            },
        }
    }
}

/// A numeric variable: its default when unset, else the parsed value.
pub open spec fn number_or_default(raw: Option<Seq<char>>, max: int, default: int) -> Result<
    int,
    IntErrorKind,
> {
    match raw {
        None => Ok(default),
        Some(t) => parse_unsigned(t, max),
    }
}

/// The bind address text: the variable's value, or the default when unset.
pub open spec fn bind_text(raw: Option<Seq<char>>) -> Seq<char> {
    match raw {
        Some(t) => t,
        None => default_bind(),
    }
}

/// The configuration that the environment values give, or the first error,
/// checking in this order: `HA_URL`, `HA_TOKEN` and `HA_LIGHTS` are set;
/// `HA_LIGHTS` names at least one entity; `ARTNET_UNIVERSE` is a `u16`;
/// the bind address parses (`bind_parses`); `RGB_START_CHANNEL` is a `u16`
/// in `1..=510`; `MIN_SEND_INTERVAL_MS` is a `u64`.
pub open spec fn config_outcome(env: EnvValuesView, bind_parses: bool) -> Result<
    ConfigView,
    ConfigError,
> {
    if env.ha_url is None {
        Err(ConfigError::Missing(EnvKey::HaUrl))
    } else if env.ha_token is None {
        Err(ConfigError::Missing(EnvKey::HaToken))
    } else if env.ha_lights is None {
        Err(ConfigError::Missing(EnvKey::HaLights))
    } else if list_entries(env.ha_lights->0).len() == 0 {
        Err(ConfigError::NoLights)
    } else {
        match number_or_default(env.artnet_universe, 0xffff, 0) {
            Err(e) => Err(ConfigError::Invalid(EnvKey::ArtnetUniverse, e)),
            Ok(universe) => if !bind_parses {
                Err(ConfigError::BindInvalid)
            } else {
                match number_or_default(env.rgb_start_channel, 0xffff, 1) {
                    Err(e) => Err(ConfigError::Invalid(EnvKey::RgbStartChannel, e)),
                    Ok(start) => if start == 0 || start > 510 {
                        Err(ConfigError::StartChannelOutOfRange(start as u16))
                    } else {
                        match number_or_default(env.min_send_interval_ms, 0xffff_ffff_ffff_ffff, 100) {
                            Err(e) => Err(ConfigError::Invalid(EnvKey::MinSendIntervalMs, e)),
                            Ok(ms) => Ok(
                                ConfigView {
                                    ha_url: env.ha_url->0,
                                    ha_token: env.ha_token->0,
                                    ha_lights: list_entries(env.ha_lights->0),
                                    artnet_universe: universe as u16,
                                    artnet_bind: bind_text(env.artnet_bind),
                                    rgb_start_channel: start as u16,
                                    min_send_interval_ms: ms as u64,
                                },
                            ),
                        }
                    },
                }
            },
        }
    }
}

/// A configuration that the environment gives is usable: it names at least
/// one light, every entity id is non-empty, trimmed and free of commas, and the
/// start channel is in `1..=510`.
pub proof fn lemma_config_is_usable(env: EnvValuesView, bind_parses: bool)
    ensures
        config_outcome(env, bind_parses) matches Ok(c) ==> {
            &&& c.ha_lights.len() >= 1
            &&& forall|k: int|
                0 <= k < c.ha_lights.len() ==> {
                    let e = #[trigger] c.ha_lights[k];
                    &&& e.len() > 0
                    &&& trim(e) == e
                    &&& !has_comma(e)
                }
            &&& 1 <= c.rgb_start_channel <= 510
            &&& c.artnet_bind == bind_text(env.artnet_bind)
        },
{
    if env.ha_lights is Some {
        crate::text::lemma_list_entries_clean(env.ha_lights->0);
    }
    crate::text::lemma_parse_unsigned_bounded(env.rgb_start_channel->0, 0xffff);
}

/// The configuration holds exactly what the environment says: the URL and
/// token as given, the entries of `HA_LIGHTS`, and each number as its
/// variable parses in decimal (or its default, 0, 1 and 100, when unset); the
/// bind address as given, or `0.0.0.0:6454` when unset. And such a
/// configuration is given whenever the required variables are set, the lights
/// name an entity, every number parses within its type, the bind address
/// parses and the start channel is in `1..=510`.
pub proof fn lemma_config_holds_the_environment(env: EnvValuesView, bind_parses: bool)
    ensures
        config_outcome(env, bind_parses) matches Ok(c) ==> {
            &&& env.ha_url == Some(c.ha_url)
            &&& env.ha_token == Some(c.ha_token)
            &&& env.ha_lights matches Some(l) && c.ha_lights == list_entries(l)
            &&& match env.artnet_universe {
                None => c.artnet_universe == 0,
                Some(t) => parse_unsigned(t, 0xffff) == Ok::<int, IntErrorKind>(
                    c.artnet_universe as int,
                ),
            }
            &&& match env.rgb_start_channel {
                None => c.rgb_start_channel == 1,
                Some(t) => parse_unsigned(t, 0xffff) == Ok::<int, IntErrorKind>(
                    c.rgb_start_channel as int,
                ),
            }
            &&& match env.min_send_interval_ms {
                None => c.min_send_interval_ms == 100,
                Some(t) => parse_unsigned(t, 0xffff_ffff_ffff_ffff) == Ok::<int, IntErrorKind>(
                    c.min_send_interval_ms as int,
                ),
            }
            &&& c.artnet_bind == match env.artnet_bind {
                None => "0.0.0.0:6454"@,
                Some(t) => t,
            }
            &&& bind_parses
        },
        ({
            &&& env.ha_url is Some
            &&& env.ha_token is Some
            &&& env.ha_lights matches Some(l) && list_entries(l).len() > 0
            &&& env.artnet_universe matches Some(t) ==> parse_unsigned(t, 0xffff) is Ok
            &&& env.rgb_start_channel matches Some(t) ==> parse_unsigned(t, 0xffff) matches Ok(v)
                && 1 <= v <= 510
            &&& env.min_send_interval_ms matches Some(t) ==> parse_unsigned(
                t,
                0xffff_ffff_ffff_ffff,
            ) is Ok
            &&& bind_parses
        }) ==> config_outcome(env, bind_parses) is Ok,
{
    if env.artnet_universe is Some {
        crate::text::lemma_parse_unsigned_bounded(env.artnet_universe->0, 0xffff);
    }
    if env.rgb_start_channel is Some {
        crate::text::lemma_parse_unsigned_bounded(env.rgb_start_channel->0, 0xffff);
    }
    if env.min_send_interval_ms is Some {
        crate::text::lemma_parse_unsigned_bounded(env.min_send_interval_ms->0, 0xffff_ffff_ffff_ffff);
    }
}

/// Each error names the first fault, in the order the variables are checked:
/// `HA_URL`, `HA_TOKEN`, `HA_LIGHTS` unset; no entity in `HA_LIGHTS`; a number
/// that does not parse (with the reason the parse gives); a bind address that
/// does not parse; a start channel outside `1..=510` (with the value read).
pub proof fn lemma_config_errors_name_the_first_fault(env: EnvValuesView, bind_parses: bool)
    ensures
        (config_outcome(env, bind_parses) == Err::<ConfigView, ConfigError>(
            ConfigError::Missing(EnvKey::HaUrl),
        )) <==> env.ha_url is None,
        (config_outcome(env, bind_parses) == Err::<ConfigView, ConfigError>(
            ConfigError::Missing(EnvKey::HaToken),
        )) <==> (env.ha_url is Some && env.ha_token is None),
        (config_outcome(env, bind_parses) == Err::<ConfigView, ConfigError>(
            ConfigError::Missing(EnvKey::HaLights),
        )) <==> (env.ha_url is Some && env.ha_token is Some && env.ha_lights is None),
        (config_outcome(env, bind_parses) == Err::<ConfigView, ConfigError>(ConfigError::NoLights))
            <==> (env.ha_url is Some && env.ha_token is Some && env.ha_lights is Some
            && list_entries(env.ha_lights->0).len() == 0),
        config_outcome(env, bind_parses) matches Err(ConfigError::Missing(k)) ==> (k
            == EnvKey::HaUrl || k == EnvKey::HaToken || k == EnvKey::HaLights),
        config_outcome(env, bind_parses) matches Err(ConfigError::Invalid(k, e)) ==> {
            ||| k == EnvKey::ArtnetUniverse && env.artnet_universe is Some && parse_unsigned(
                env.artnet_universe->0,
                0xffff,
            ) == Err::<int, IntErrorKind>(e)
            ||| k == EnvKey::RgbStartChannel && env.rgb_start_channel is Some && parse_unsigned(
                env.rgb_start_channel->0,
                0xffff,
            ) == Err::<int, IntErrorKind>(e)
            ||| k == EnvKey::MinSendIntervalMs && env.min_send_interval_ms is Some && parse_unsigned(
                env.min_send_interval_ms->0,
                0xffff_ffff_ffff_ffff,
            ) == Err::<int, IntErrorKind>(e)
        },
        config_outcome(env, bind_parses) == Err::<ConfigView, ConfigError>(ConfigError::BindInvalid)
            ==> !bind_parses,
        config_outcome(env, bind_parses) matches Err(ConfigError::StartChannelOutOfRange(v)) ==> {
            &&& env.rgb_start_channel is Some
            &&& parse_unsigned(env.rgb_start_channel->0, 0xffff) == Ok::<int, IntErrorKind>(v as int)
            &&& (v == 0 || v > 510)
        },
        ({
            &&& env.ha_url is Some
            &&& env.ha_token is Some
            &&& env.ha_lights is Some
            &&& list_entries(env.ha_lights->0).len() > 0
        }) ==> {
            &&& (env.artnet_universe is Some && parse_unsigned(env.artnet_universe->0, 0xffff) is Err)
                ==> config_outcome(env, bind_parses) == Err::<ConfigView, ConfigError>(
                ConfigError::Invalid(
                    EnvKey::ArtnetUniverse,
                    parse_unsigned(env.artnet_universe->0, 0xffff)->Err_0,
                ),
            )
            &&& ((env.artnet_universe is Some ==> parse_unsigned(env.artnet_universe->0, 0xffff) is Ok)
                && !bind_parses) ==> config_outcome(env, bind_parses) == Err::<ConfigView, ConfigError>(
                ConfigError::BindInvalid,
            )
            &&& ((env.artnet_universe is Some ==> parse_unsigned(env.artnet_universe->0, 0xffff) is Ok)
                && bind_parses && env.rgb_start_channel is Some && parse_unsigned(
                env.rgb_start_channel->0,
                0xffff,
            ) is Ok && (parse_unsigned(env.rgb_start_channel->0, 0xffff)->Ok_0 == 0 || parse_unsigned(
                env.rgb_start_channel->0,
                0xffff,
            )->Ok_0 > 510)) ==> config_outcome(env, bind_parses) == Err::<ConfigView, ConfigError>(
                ConfigError::StartChannelOutOfRange(
                    parse_unsigned(env.rgb_start_channel->0, 0xffff)->Ok_0 as u16,
                ),
            )
        },
{
    if env.artnet_universe is Some {
        crate::text::lemma_parse_unsigned_bounded(env.artnet_universe->0, 0xffff);
    }
    if env.rgb_start_channel is Some {
        crate::text::lemma_parse_unsigned_bounded(env.rgb_start_channel->0, 0xffff);
    }
}

/// The configured start channel fits a full DMX universe: a packet carrying
/// 512 channels on the configured universe always yields the triplet at the
/// configured start channel.
pub proof fn lemma_configured_channels_fit_universe(
    c: ConfigView,
    sequence: u8,
    physical: u8,
    dmx: Seq<u8>,
    trailing: Seq<u8>,
)
    requires
        1 <= c.rgb_start_channel <= 510,
        dmx.len() == 512,
    ensures
        artdmx_rgb(
            artdmx_packet(c.artnet_universe, sequence, physical, dmx) + trailing,
            c.artnet_universe,
            c.rgb_start_channel,
        ) == Some(
            (
                dmx[c.rgb_start_channel - 1],
                dmx[c.rgb_start_channel as int],
                dmx[c.rgb_start_channel + 1],
            ),
        ),
{
    crate::artnet::lemma_packet_round_trip(
        c.artnet_universe,
        sequence,
        physical,
        dmx,
        trailing,
        c.rgb_start_channel,
    );
}

fn number_or_default_exec(raw: &Option<String>, max: u64, default: u64) -> (r: Result<u64, IntErrorKind>)
    requires
        default <= max,
    ensures
        r matches Ok(x) ==> x <= max && number_or_default(opt_text(*raw), max as int, default as int)
            == Ok::<int, IntErrorKind>(x as int),
        r matches Err(e) ==> number_or_default(opt_text(*raw), max as int, default as int) == Err::<
            int,
            IntErrorKind,
        >(e),
{
    match raw {
        None => Ok(default),
        Some(t) => {
            let r = parse_unsigned_decimal(t.as_str(), max);
            proof {
                assert(opt_text(*raw) == Some(t@));
                crate::text::lemma_parse_unsigned_bounded(t@, max as int);
            }
            r
        },
    }
}

/// The bind address text that `ARTNET_BIND` gives: its value, or
/// `0.0.0.0:6454` when it is unset.
pub fn effective_bind(raw: &Option<String>) -> (r: String)
    ensures
        r@ == bind_text(opt_text(*raw)),
{
    match raw {
        Some(t) => t.clone(),
        None => String::from_str("0.0.0.0:6454"),
    }
}

impl Config {
    /// The configuration that the environment values give, or the first error.
    /// `bind_parses` tells whether [`effective_bind`] of `ARTNET_BIND` parses
    /// as a socket address.
    pub fn from_values(env: EnvValues, bind_parses: bool) -> (r: Result<Config, ConfigError>)
        ensures
            match config_outcome(env@, bind_parses) {
                Ok(c) => r matches Ok(cfg) && cfg@ == c,
                Err(e) => r == Err::<Config, ConfigError>(e),
            },
    {
        let ghost v = env@;
        let EnvValues {
            ha_url,
            ha_token,
            ha_lights,
            artnet_universe,
            artnet_bind,
            rgb_start_channel,
            min_send_interval_ms,
        } = env;
        let ha_url = match ha_url {
            Some(u) => u,
            None => return Err(ConfigError::Missing(EnvKey::HaUrl)),
        };
        let ha_token = match ha_token {
            Some(t) => t,
            None => return Err(ConfigError::Missing(EnvKey::HaToken)),
        };
        let lights_raw = match ha_lights {
            Some(l) => l,
            None => return Err(ConfigError::Missing(EnvKey::HaLights)),
        };
        let ha_lights = split_list(lights_raw.as_str());
        if ha_lights.len() == 0 {
            return Err(ConfigError::NoLights);
        }
        let artnet_universe = match number_or_default_exec(&artnet_universe, 0xffff, 0) {
            Ok(u) => {
                assert(u <= 0xffff);
                u as u16
            },
            Err(e) => return Err(ConfigError::Invalid(EnvKey::ArtnetUniverse, e)),
        };
        let artnet_bind = effective_bind(&artnet_bind);
        if !bind_parses {
            return Err(ConfigError::BindInvalid);
        }
        let rgb_start_channel = match number_or_default_exec(&rgb_start_channel, 0xffff, 1) {
            Ok(s) => {
                assert(s <= 0xffff);
                s as u16
            },
            Err(e) => return Err(ConfigError::Invalid(EnvKey::RgbStartChannel, e)),
        };
        if rgb_start_channel == 0 || rgb_start_channel > MAX_RGB_START_CHANNEL {
            return Err(ConfigError::StartChannelOutOfRange(rgb_start_channel));
        }
        let min_send_interval_ms = match number_or_default_exec(
            &min_send_interval_ms,
            0xffff_ffff_ffff_ffff,
            100,
        ) {
            Ok(m) => m,
            Err(e) => return Err(ConfigError::Invalid(EnvKey::MinSendIntervalMs, e)),
        };
        let cfg = Config {
            ha_url,
            ha_token,
            ha_lights,
            artnet_universe,
            artnet_bind,
            rgb_start_channel,
            min_send_interval_ms,
        };
        proof {
            assert(cfg@.ha_lights =~= list_entries(v.ha_lights->0));
        }
        Ok(cfg)
    }
}

} // verus!

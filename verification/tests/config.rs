use artnet_to_hass::config::{effective_bind, Config, ConfigError, EnvKey, EnvValues};
use artnet_to_hass::text::IntErrorKind;

fn base_env() -> EnvValues {
    EnvValues {
        ha_url: Some("ws://ha.test/api/websocket".into()),
        ha_token: Some("test-token".into()),
        ha_lights: Some("light.a,light.b".into()),
        artnet_universe: None,
        artnet_bind: None,
        rgb_start_channel: None,
        min_send_interval_ms: None,
    }
}

/// Loads with a bind address that parses as a socket address (the caller
/// parses it; the addresses used here, `0.0.0.0:6454` and `127.0.0.1:7000`, do).
fn load(env: EnvValues) -> Result<Config, ConfigError> {
    Config::from_values(env, true)
}

#[test]
fn loads_required_vars_and_defaults() {
    let cfg = load(base_env()).unwrap();
    assert_eq!(cfg.ha_url, "ws://ha.test/api/websocket");
    assert_eq!(cfg.ha_token, "test-token");
    assert_eq!(cfg.ha_lights, vec!["light.a".to_string(), "light.b".to_string()]);
    assert_eq!(cfg.artnet_universe, 0);
    assert_eq!(cfg.artnet_bind, "0.0.0.0:6454");
    assert_eq!(cfg.rgb_start_channel, 1);
    assert_eq!(cfg.min_send_interval_ms, 100);
}

#[test]
fn fails_on_missing_required() {
    let mut env = base_env();
    env.ha_token = None;
    let err = load(env).err().unwrap();
    assert_eq!(err, ConfigError::Missing(EnvKey::HaToken));
    assert!(err.message().contains("HA_TOKEN"), "got: {}", err.message());
    assert_eq!(err.message(), "HA_TOKEN must be set");
}

#[test]
fn trims_entity_ids() {
    let mut env = base_env();
    env.ha_lights = Some(" light.a , light.b ".into());
    let cfg = load(env).unwrap();
    assert_eq!(cfg.ha_lights, vec!["light.a", "light.b"]);
}

#[test]
fn parses_custom_universe_and_bind() {
    let mut env = base_env();
    env.artnet_universe = Some("3".into());
    env.artnet_bind = Some("127.0.0.1:7000".into());
    env.rgb_start_channel = Some("10".into());
    env.min_send_interval_ms = Some("50".into());
    let cfg = load(env).unwrap();
    assert_eq!(cfg.artnet_universe, 3);
    assert_eq!(cfg.artnet_bind, "127.0.0.1:7000");
    assert_eq!(cfg.rgb_start_channel, 10);
    assert_eq!(cfg.min_send_interval_ms, 50);
}

#[test]
fn rejects_rgb_start_channel_zero() {
    let mut env = base_env();
    env.rgb_start_channel = Some("0".into());
    let err = load(env).err().unwrap();
    assert_eq!(err, ConfigError::StartChannelOutOfRange(0));
    assert!(err.message().contains("RGB_START_CHANNEL"), "got: {}", err.message());
    assert_eq!(err.message(), "RGB_START_CHANNEL must be in 1..=510 (got 0)");
}

#[test]
fn rejects_rgb_start_channel_too_high() {
    let mut env = base_env();
    env.rgb_start_channel = Some("511".into());
    let err = load(env).err().unwrap();
    assert_eq!(err, ConfigError::StartChannelOutOfRange(511));
    assert!(err.message().contains("RGB_START_CHANNEL"), "got: {}", err.message());
    assert_eq!(err.message(), "RGB_START_CHANNEL must be in 1..=510 (got 511)");
}

#[test]
fn accepts_rgb_start_channel_510() {
    let mut env = base_env();
    env.rgb_start_channel = Some("510".into());
    assert_eq!(load(env).unwrap().rgb_start_channel, 510);
}

#[test]
fn missing_url_is_reported_first() {
    let env = EnvValues {
        ha_url: None,
        ha_token: None,
        ha_lights: None,
        artnet_universe: Some("x".into()),
        artnet_bind: None,
        rgb_start_channel: None,
        min_send_interval_ms: None,
    };
    assert_eq!(load(env).err().unwrap(), ConfigError::Missing(EnvKey::HaUrl));
}

#[test]
fn missing_lights_is_reported() {
    let mut env = base_env();
    env.ha_lights = None;
    assert_eq!(load(env).err().unwrap(), ConfigError::Missing(EnvKey::HaLights));
}

#[test]
fn lights_with_only_separators_are_rejected() {
    let mut env = base_env();
    env.ha_lights = Some(" , ,".into());
    assert_eq!(load(env).err().unwrap(), ConfigError::NoLights);
}

#[test]
fn invalid_universe_is_reported() {
    let mut env = base_env();
    env.artnet_universe = Some("65536".into());
    assert_eq!(
        load(env).err().unwrap(),
        ConfigError::Invalid(EnvKey::ArtnetUniverse, IntErrorKind::Overflow)
    );
}

#[test]
fn invalid_bind_is_reported() {
    let mut env = base_env();
    env.artnet_bind = Some("not an address".into());
    assert_eq!(effective_bind(&env.artnet_bind), "not an address");
    let err = Config::from_values(env, false).err().unwrap();
    assert_eq!(err, ConfigError::BindInvalid);
    assert_eq!(err.message(), "ARTNET_BIND must be a valid socket address");
}

#[test]
fn default_bind_address() {
    assert_eq!(effective_bind(&None), "0.0.0.0:6454");
}

#[test]
fn error_messages_match_the_environment_variables() {
    assert_eq!(
        ConfigError::Invalid(EnvKey::ArtnetUniverse, IntErrorKind::Overflow).message(),
        "ARTNET_UNIVERSE invalid: number too large to fit in target type"
    );
    assert_eq!(
        ConfigError::Invalid(EnvKey::MinSendIntervalMs, IntErrorKind::Empty).message(),
        "MIN_SEND_INTERVAL_MS invalid: cannot parse integer from empty string"
    );
    assert_eq!(
        ConfigError::Invalid(EnvKey::RgbStartChannel, IntErrorKind::InvalidDigit).message(),
        "RGB_START_CHANNEL invalid: invalid digit found in string"
    );
    assert_eq!(ConfigError::NoLights.message(), "HA_LIGHTS must list at least one entity_id");
    assert_eq!(
        ConfigError::StartChannelOutOfRange(65535).message(),
        "RGB_START_CHANNEL must be in 1..=510 (got 65535)"
    );
}

#[test]
fn invalid_interval_is_reported() {
    let mut env = base_env();
    env.min_send_interval_ms = Some("".into());
    assert_eq!(
        load(env).err().unwrap(),
        ConfigError::Invalid(EnvKey::MinSendIntervalMs, IntErrorKind::Empty)
    );
}

#[test]
fn invalid_start_channel_text_is_reported() {
    let mut env = base_env();
    env.rgb_start_channel = Some("-1".into());
    assert_eq!(
        load(env).err().unwrap(),
        ConfigError::Invalid(EnvKey::RgbStartChannel, IntErrorKind::InvalidDigit)
    );
}

#[test]
fn key_names_match_environment_variables() {
    assert_eq!(EnvKey::HaUrl.name(), "HA_URL");
    assert_eq!(EnvKey::HaLights.name(), "HA_LIGHTS");
    assert_eq!(EnvKey::ArtnetUniverse.name(), "ARTNET_UNIVERSE");
    assert_eq!(EnvKey::ArtnetBind.name(), "ARTNET_BIND");
    assert_eq!(EnvKey::RgbStartChannel.name(), "RGB_START_CHANNEL");
    assert_eq!(EnvKey::MinSendIntervalMs.name(), "MIN_SEND_INTERVAL_MS");
}

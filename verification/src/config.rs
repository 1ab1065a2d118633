//! Core configuration: the socket location and the capability policies, each
//! decided from the values of the process environment.
use vstd::prelude::*;

use crate::protocol::{
    socket_path_from, socket_path_spec, opt_str_view, SocketPathError,
    DEFAULT_TELEMETRY_INTERVAL_MS, MAX_TELEMETRY_DEVICES, MAX_TELEMETRY_INTERFACES,
    MAX_TELEMETRY_INTERVAL_MS, MIN_TELEMETRY_INTERVAL_MS,
};
use crate::text::{chars_of, eq_str, parse_unsigned, parse_unsigned_spec};

verus! {

pub const TELEMETRY_INTERVAL_ENV: &'static str = "VELORA_TELEMETRY_INTERVAL_MS";
pub const TELEMETRY_ENABLED_ENV: &'static str = "VELORA_TELEMETRY_ENABLED";
pub const MEDIA_ENABLED_ENV: &'static str = "VELORA_MEDIA_ENABLED";
pub const NOTIFICATIONS_ENABLED_ENV: &'static str = "VELORA_NOTIFICATIONS_ENABLED";

/// The value of one environment variable, as the process sees it.
#[derive(Debug, Clone, PartialEq, Eq)]
pub enum EnvValue {
    NotPresent,
    NotUnicode,
    Text(String),
}

/// Why the configuration could not be built; each variant names the
/// variable at fault.
#[derive(Debug, Clone, Copy, PartialEq, Eq)]
pub enum ConfigError {
    Socket(SocketPathError),
    NotUnicode(&'static str),
    NotAnInteger(&'static str),
    IntervalOutOfRange(&'static str),
    NotABoolean(&'static str),
}

#[derive(Debug, Clone, Copy, PartialEq, Eq, Structural)]
pub struct TelemetryPolicy {
    pub enabled: bool,
    /// The sampling interval in milliseconds.
    pub interval_ms: u64,
    pub max_devices: u16,
    pub max_interfaces: u16,
}

impl TelemetryPolicy {
    pub open spec fn default_policy() -> TelemetryPolicy {
        TelemetryPolicy {
            enabled: true,
            interval_ms: DEFAULT_TELEMETRY_INTERVAL_MS as u64,
            max_devices: MAX_TELEMETRY_DEVICES,
            max_interfaces: MAX_TELEMETRY_INTERFACES,
        }
    }

    /// What `from_interval_text` yields: the default policy, or the default
    /// with a bounded interval in milliseconds.
    pub open spec fn interval_text_result(value: Option<Seq<char>>) -> Result<
        TelemetryPolicy,
        ConfigError,
    > {
        match value {
            None => Ok(Self::default_policy()),
            Some(v) => match parse_unsigned_spec(v, u32::MAX as nat) {
                None => Err(ConfigError::NotAnInteger(TELEMETRY_INTERVAL_ENV)),
                Some(ms) => if ms < MIN_TELEMETRY_INTERVAL_MS || ms > MAX_TELEMETRY_INTERVAL_MS {
                    Err(ConfigError::IntervalOutOfRange(TELEMETRY_INTERVAL_ENV))
                } else {
                    Ok(TelemetryPolicy { interval_ms: ms as u64, ..Self::default_policy() })
                },
            },
        }
    }

    /// The policy for a given value of the interval variable.
    pub fn from_interval_text(value: Option<&str>) -> (r: Result<Self, ConfigError>)
        ensures
            r == Self::interval_text_result(opt_str_view(value)),
    {
        let Some(value) = value else {
            return Ok(Self::default());
        };
        let chars = chars_of(value);
        let interval_ms = match parse_unsigned(chars.as_slice(), 0xffff_ffff) {
            Some(v) => v,
            None => return Err(ConfigError::NotAnInteger(TELEMETRY_INTERVAL_ENV)),
        };
        if interval_ms < MIN_TELEMETRY_INTERVAL_MS as u64 || interval_ms
            > MAX_TELEMETRY_INTERVAL_MS as u64 {
            return Err(ConfigError::IntervalOutOfRange(TELEMETRY_INTERVAL_ENV));
        }
        Ok(TelemetryPolicy { interval_ms, ..Self::default() })
    }

    /// What `from_env_values` yields for the interval and enabled variables.
    pub open spec fn env_result(interval: EnvValue, enabled: EnvValue) -> Result<
        TelemetryPolicy,
        ConfigError,
    > {
        let base = match interval {
            EnvValue::Text(v) => Self::interval_text_result(Some(v@)),
            EnvValue::NotPresent => Self::interval_text_result(None),
            EnvValue::NotUnicode => Err(ConfigError::NotUnicode(TELEMETRY_INTERVAL_ENV)),
        };
        match base {
            Err(e) => Err(e),
            Ok(policy) => match bool_setting(enabled, TELEMETRY_ENABLED_ENV, true) {
                Err(e) => Err(e),
                Ok(on) => Ok(TelemetryPolicy { enabled: on, ..policy }),
            },
        }
    }

    /// The policy for the values of `VELORA_TELEMETRY_INTERVAL_MS` and
    /// `VELORA_TELEMETRY_ENABLED`.
    pub fn from_env_values(interval: &EnvValue, enabled: &EnvValue) -> (r: Result<Self, ConfigError>)
        ensures
            r == Self::env_result(*interval, *enabled),
    {
        let mut policy = match interval {
            EnvValue::Text(v) => Self::from_interval_text(Some(v.as_str())),
            EnvValue::NotPresent => Self::from_interval_text(None),
            EnvValue::NotUnicode => Err(ConfigError::NotUnicode(TELEMETRY_INTERVAL_ENV)),
        }?;
        policy.enabled = parse_bool_setting(enabled, TELEMETRY_ENABLED_ENV, true)?;
        Ok(policy)
    }
}

impl Default for TelemetryPolicy {
    fn default() -> (p: Self)
        ensures
            p == Self::default_policy(),
    {
        Self {
            enabled: true,
            interval_ms: DEFAULT_TELEMETRY_INTERVAL_MS as u64,
            max_devices: MAX_TELEMETRY_DEVICES,
            max_interfaces: MAX_TELEMETRY_INTERFACES,
        }
    }
}

/// `bool::from_str`: exactly `true` or `false`.
pub open spec fn bool_text(v: Seq<char>) -> Option<bool> {
    if v == "true"@ {
        Some(true)
    } else if v == "false"@ {
        Some(false)
    } else {
        None
    }
}

/// A boolean switch: its value when set, `default` when unset.
pub open spec fn bool_setting(value: EnvValue, name: &'static str, default: bool) -> Result<
    bool,
    ConfigError,
> {
    match value {
        EnvValue::NotPresent => Ok(default),
        EnvValue::NotUnicode => Err(ConfigError::NotUnicode(name)),
        EnvValue::Text(v) => match bool_text(v@) {
            Some(b) => Ok(b),
            None => Err(ConfigError::NotABoolean(name)),
        },
    }
}

fn parse_bool_setting(value: &EnvValue, name: &'static str, default: bool) -> (r: Result<
    bool,
    ConfigError,
>)
    ensures
        r == bool_setting(*value, name, default),
{
    match value {
        EnvValue::NotPresent => Ok(default),
        EnvValue::NotUnicode => Err(ConfigError::NotUnicode(name)),
        EnvValue::Text(v) => {
            let chars = chars_of(v.as_str());
            if eq_str(chars.as_slice(), "true") {
                Ok(true)
            } else if eq_str(chars.as_slice(), "false") {
                Ok(false)
            } else {
                Err(ConfigError::NotABoolean(name))
            }
        },
    }
}

/// Privacy gate for the notification observer. Monitoring every notification
/// is the most privacy-sensitive capability Core has, so it is explicitly
/// toggleable; when disabled Core never opens a monitor connection and answers
/// notification requests with a typed unavailable result.
#[derive(Debug, Clone, Copy, PartialEq, Eq, Structural)]
pub struct NotificationsPolicy {
    pub enabled: bool,
}

impl Default for NotificationsPolicy {
    fn default() -> (p: Self)
        ensures
            !p.enabled,
    {
        Self { enabled: false }
    }
}

impl NotificationsPolicy {
    /// The policy for the value of `VELORA_NOTIFICATIONS_ENABLED`; disabled
    /// when unset.
    pub fn from_env_value(enabled: &EnvValue) -> (r: Result<Self, ConfigError>)
        ensures
            match bool_setting(*enabled, NOTIFICATIONS_ENABLED_ENV, false) {
                Ok(b) => r == Ok::<Self, ConfigError>(Self { enabled: b }),
                Err(e) => r == Err::<Self, ConfigError>(e),
            },
    {
        Ok(Self { enabled: parse_bool_setting(enabled, NOTIFICATIONS_ENABLED_ENV, false)? })
    }
}

/// Capability gate for MPRIS media observation and control. Media remains
/// enabled by default for the desktop experience, but tests and privacy-aware
/// sessions can disable every session-bus media connection explicitly.
#[derive(Debug, Clone, Copy, PartialEq, Eq, Structural)]
pub struct MediaPolicy {
    pub enabled: bool,
}

impl Default for MediaPolicy {
    fn default() -> (p: Self)
        ensures
            p.enabled,
    {
        Self { enabled: true }
    }
}

impl MediaPolicy {
    /// The policy for the value of `VELORA_MEDIA_ENABLED`; enabled when unset.
    pub fn from_env_value(enabled: &EnvValue) -> (r: Result<Self, ConfigError>)
        ensures
            match bool_setting(*enabled, MEDIA_ENABLED_ENV, true) {
                Ok(b) => r == Ok::<Self, ConfigError>(Self { enabled: b }),
                Err(e) => r == Err::<Self, ConfigError>(e),
            },
    {
        Ok(Self { enabled: parse_bool_setting(enabled, MEDIA_ENABLED_ENV, true)? })
    }
}

/// The values of the environment variables Core reads at start-up.
#[derive(Debug, Clone, PartialEq, Eq)]
pub struct CoreEnvironment {
    pub velora_socket: Option<String>,
    pub xdg_runtime_dir: Option<String>,
    pub uid: Option<String>,
    pub telemetry_interval: EnvValue,
    pub telemetry_enabled: EnvValue,
    pub media_enabled: EnvValue,
    pub notifications_enabled: EnvValue,
}

#[derive(Debug, Clone)]
pub struct CoreConfig {
    pub socket_path: String,
    pub telemetry: TelemetryPolicy,
    pub media: MediaPolicy,
    pub notifications: NotificationsPolicy,
}

pub open spec fn opt_string_view(s: Option<String>) -> Option<Seq<char>> {
    match s {
        Some(v) => Some(v@),
        None => None,
    }
}

fn opt_as_str(s: &Option<String>) -> (r: Option<&str>)
    ensures
        opt_str_view(r) == opt_string_view(*s),
{
    match s {
        Some(v) => Some(v.as_str()),
        None => None,
    }
}

impl CoreConfig {
    /// The configuration for the given environment. The socket path is
    /// resolved first, then the telemetry, media and notification policies;
    /// the first failure is returned.
    pub fn from_environment(env: &CoreEnvironment) -> (r: Result<Self, ConfigError>)
        ensures
            match r {
                Ok(c) => {
                    &&& socket_path_spec(
                        opt_string_view(env.velora_socket),
                        opt_string_view(env.xdg_runtime_dir),
                        opt_string_view(env.uid),
                    ) == Ok::<Seq<char>, SocketPathError>(c.socket_path@)
                    &&& TelemetryPolicy::env_result(env.telemetry_interval, env.telemetry_enabled)
                        == Ok::<TelemetryPolicy, ConfigError>(c.telemetry)
                    &&& bool_setting(env.media_enabled, MEDIA_ENABLED_ENV, true) == Ok::<
                        bool,
                        ConfigError,
                    >(c.media.enabled)
                    &&& bool_setting(env.notifications_enabled, NOTIFICATIONS_ENABLED_ENV, false)
                        == Ok::<bool, ConfigError>(c.notifications.enabled)
                },
                Err(e) => {
                    ||| socket_path_spec(
                        opt_string_view(env.velora_socket),
                        opt_string_view(env.xdg_runtime_dir),
                        opt_string_view(env.uid),
                    ) matches Err(s) && e == ConfigError::Socket(s)
                    ||| socket_path_spec(
                        opt_string_view(env.velora_socket),
                        opt_string_view(env.xdg_runtime_dir),
                        opt_string_view(env.uid),
                    ) is Ok && TelemetryPolicy::env_result(
                        env.telemetry_interval,
                        env.telemetry_enabled,
                    ) == Err::<TelemetryPolicy, ConfigError>(e)
                    ||| socket_path_spec(
                        opt_string_view(env.velora_socket),
                        opt_string_view(env.xdg_runtime_dir),
                        opt_string_view(env.uid),
                    ) is Ok && TelemetryPolicy::env_result(
                        env.telemetry_interval,
                        env.telemetry_enabled,
                    ) is Ok && bool_setting(env.media_enabled, MEDIA_ENABLED_ENV, true) == Err::<
                        bool,
                        ConfigError,
                    >(e)
                    ||| socket_path_spec(
                        opt_string_view(env.velora_socket),
                        opt_string_view(env.xdg_runtime_dir),
                        opt_string_view(env.uid),
                    ) is Ok && TelemetryPolicy::env_result(
                        env.telemetry_interval,
                        env.telemetry_enabled,
                    ) is Ok && bool_setting(env.media_enabled, MEDIA_ENABLED_ENV, true) is Ok
                        && bool_setting(env.notifications_enabled, NOTIFICATIONS_ENABLED_ENV, false)
                        == Err::<bool, ConfigError>(e)
                },
            },
    {
        let socket_path = match socket_path_from(
            opt_as_str(&env.velora_socket),
            opt_as_str(&env.xdg_runtime_dir),
            opt_as_str(&env.uid),
        ) {
            Ok(p) => p,
            Err(e) => return Err(ConfigError::Socket(e)),
        };
        let telemetry = TelemetryPolicy::from_env_values(
            &env.telemetry_interval,
            &env.telemetry_enabled,
        )?;
        let media = MediaPolicy::from_env_value(&env.media_enabled)?;
        let notifications = NotificationsPolicy::from_env_value(&env.notifications_enabled)?;
        Ok(CoreConfig { socket_path, telemetry, media, notifications })
    }
}

} // verus!

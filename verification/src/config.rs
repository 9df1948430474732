//! The settings of the service, and how they are read from the values of
//! its environment variables.

use crate::text::append_decimal;
use crate::text::decimal_text;
use crate::text::parse_decimal;
use crate::text::parsed_decimal;
use core::time::Duration;
use vstd::prelude::*;

verus! {

/// The settings of the service.
#[derive(Debug)]
pub struct Config {
    pub database_url: String,
    pub server_host: String,
    pub server_port: u16,
    pub log_level: String,
    /// Where the snapshot file lies.
    pub csv_path: String,
    /// Seconds between two ticks of the reload timer.
    pub check_interval_seconds: u64,
    /// Least number of seconds between two looks at the snapshot file.
    pub file_check_interval_seconds: u64,
    pub metrics_namespace: String,
}

/// The mathematical value of a `Config`.
pub ghost struct ConfigView {
    pub database_url: Seq<char>,
    pub server_host: Seq<char>,
    pub server_port: nat,
    pub log_level: Seq<char>,
    pub csv_path: Seq<char>,
    pub check_interval_seconds: nat,
    pub file_check_interval_seconds: nat,
    pub metrics_namespace: Seq<char>,
}

impl View for Config {
    type V = ConfigView;

    open spec fn view(&self) -> ConfigView {
        ConfigView {
            database_url: self.database_url@,
            server_host: self.server_host@,
            server_port: self.server_port as nat,
            log_level: self.log_level@,
            csv_path: self.csv_path@,
            check_interval_seconds: self.check_interval_seconds as nat,
            file_check_interval_seconds: self.file_check_interval_seconds as nat,
            metrics_namespace: self.metrics_namespace@,
        }
    }
}

impl Clone for Config {
    fn clone(&self) -> (copy: Self)
        ensures
            copy@ == self@,
    {
        Config {
            database_url: self.database_url.clone(),
            server_host: self.server_host.clone(),
            server_port: self.server_port,
            log_level: self.log_level.clone(),
            csv_path: self.csv_path.clone(),
            check_interval_seconds: self.check_interval_seconds,
            file_check_interval_seconds: self.file_check_interval_seconds,
            metrics_namespace: self.metrics_namespace.clone(),
        }
    }
}

/// The values of the environment variables that hold the settings; a
/// variable that is not set has none.
#[derive(Debug)]
pub struct Variables {
    /// `DATABASE_URL`
    pub database_url: Option<String>,
    /// `SERVER_HOST`
    pub server_host: Option<String>,
    /// `SERVER_PORT`
    pub server_port: Option<String>,
    /// `LOG_LEVEL`
    pub log_level: Option<String>,
    /// `CSV_PATH`
    pub csv_path: Option<String>,
    /// `CHECK_INTERVAL_SECONDS`
    pub check_interval_seconds: Option<String>,
    /// `FILE_CHECK_INTERVAL_SECONDS`
    pub file_check_interval_seconds: Option<String>,
    /// `METRICS_NAMESPACE`
    pub metrics_namespace: Option<String>,
}

/// The characters of a value that may be absent.
pub open spec fn value_of(value: Option<String>) -> Option<Seq<char>> {
    match value {
        Some(text) => Some(text@),
        None => None,
    }
}

/// The text of a variable, or `default` where it is not set.
pub open spec fn text_or(value: Option<Seq<char>>, default: Seq<char>) -> Seq<char> {
    match value {
        Some(text) => text,
        None => default,
    }
}

/// The number of a variable, or `default` where it is not set; nothing
/// where its text is no number up to `max`.
pub open spec fn number_or(value: Option<Seq<char>>, default: nat, max: nat) -> Option<nat> {
    match value {
        Some(text) => parsed_decimal(text, max),
        None => Some(default),
    }
}

/// The settings that the variables give, or the complaint about the first
/// variable that is missing or malformed.
pub open spec fn settings_of(vars: Variables) -> Result<ConfigView, Seq<char>> {
    let port = number_or(value_of(vars.server_port), 8001, u16::MAX as nat);
    let check = number_or(value_of(vars.check_interval_seconds), 30, u64::MAX as nat);
    let file_check = number_or(value_of(vars.file_check_interval_seconds), 60, u64::MAX as nat);
    if vars.database_url is None {
        Err("DATABASE_URL environment variable must be set"@)
    } else if port is None {
        Err("SERVER_PORT must be a valid port number"@)
    } else if check is None {
        Err("CHECK_INTERVAL_SECONDS must be a valid number"@)
    } else if file_check is None {
        Err("FILE_CHECK_INTERVAL_SECONDS must be a valid number"@)
    } else {
        Ok(
            ConfigView {
                database_url: vars.database_url->0@,
                server_host: text_or(value_of(vars.server_host), "0.0.0.0"@),
                server_port: port->0,
                log_level: text_or(
                    value_of(vars.log_level),
                    "sponsorblock_mirror=debug,actix_web=info"@,
                ),
                csv_path: text_or(value_of(vars.csv_path), "mirror/sponsorTimes.csv"@),
                check_interval_seconds: check->0,
                file_check_interval_seconds: file_check->0,
                metrics_namespace: text_or(value_of(vars.metrics_namespace), "api"@),
            },
        )
    }
}

/// The text of a variable, or `default` where it is not set.
fn text_or_default(value: Option<String>, default: &str) -> (text: String)
    ensures
        text@ == text_or(value_of(value), default@),
{
    match value {
        Some(text) => text,
        None => String::from_str(default),
    }
}

/// The number of a variable, or `default` where it is not set.
fn number_or_default(value: &Option<String>, default: u64, max: u64) -> (number: Option<u64>)
    requires
        default <= max,
    ensures
        match number {
            Some(n) => number_or(value_of(*value), default as nat, max as nat) == Some(n as nat)
                && n <= max,
            None => number_or(value_of(*value), default as nat, max as nat) is None,
        },
{
    match value {
        Some(text) => parse_decimal(text.as_str(), max),
        None => Some(default),
    }
}

/// The duration of a number of whole seconds.
pub uninterp spec fn seconds_duration(seconds: u64) -> Duration;

/// `Duration::from_secs` of the standard library. Taken on trust: the
/// duration depends on the number of seconds alone, and is the one that
/// `seconds_duration` names.
pub assume_specification[ Duration::from_secs ](secs: u64) -> (duration: Duration)
    ensures
        duration == seconds_duration(secs),
;

/// The address that the server binds to: the host, a colon, and the port in
/// decimal notation.
pub open spec fn bind_address(host: Seq<char>, port: nat) -> Seq<char> {
    host + seq![':'] + decimal_text(port)
}

impl Config {
    /// Reads the settings from the values of the environment variables.
    ///
    /// `DATABASE_URL` must be set. The others have defaults; the port and
    /// the two intervals must be numbers where they are set.
    pub fn from_vars(vars: Variables) -> (settings: Result<Config, String>)
        ensures
            match settings {
                Ok(config) => settings_of(vars) == Ok::<ConfigView, Seq<char>>(config@),
                Err(complaint) => settings_of(vars) == Err::<ConfigView, Seq<char>>(complaint@),
            },
    {
        let port = number_or_default(&vars.server_port, 8001, 65535);
        let check = number_or_default(&vars.check_interval_seconds, 30, u64::MAX);
        let file_check = number_or_default(&vars.file_check_interval_seconds, 60, u64::MAX);
        let database_url = match vars.database_url {
            Some(url) => url,
            None => {
                return Err(String::from_str("DATABASE_URL environment variable must be set"));
            },
        };
        let server_port: u16 = match port {
            Some(n) => n as u16,
            None => {
                return Err(String::from_str("SERVER_PORT must be a valid port number"));
            },
        };
        let check_interval_seconds = match check {
            Some(n) => n,
            None => {
                return Err(String::from_str("CHECK_INTERVAL_SECONDS must be a valid number"));
            },
        };
        let file_check_interval_seconds = match file_check {
            Some(n) => n,
            None => {
                return Err(String::from_str("FILE_CHECK_INTERVAL_SECONDS must be a valid number"));
            },
        };
        Ok(
            Config {
                database_url,
                server_host: text_or_default(vars.server_host, "0.0.0.0"),
                server_port,
                log_level: text_or_default(
                    vars.log_level,
                    "sponsorblock_mirror=debug,actix_web=info",
                ),
                csv_path: text_or_default(vars.csv_path, "mirror/sponsorTimes.csv"),
                check_interval_seconds,
                file_check_interval_seconds,
                metrics_namespace: text_or_default(vars.metrics_namespace, "api"),
            },
        )
    }

    /// The address that the server binds to.
    pub fn server_bind_address(&self) -> (address: String)
        ensures
            address@ == bind_address(self@.server_host, self@.server_port),
    {
        let mut address = self.server_host.clone();
        proof {
            reveal_strlit(":");
        }
        address.append(":");
        append_decimal(&mut address, self.server_port as u64);
        assert(address@ =~= bind_address(self@.server_host, self@.server_port));
        address
    }

    /// The time between two ticks of the reload timer.
    pub fn check_interval(&self) -> (interval: Duration)
        ensures
            interval == seconds_duration(self.check_interval_seconds),
    {
        Duration::from_secs(self.check_interval_seconds)
    }

    /// The least time between two looks at the snapshot file, which is also
    /// the length of the cooldown.
    pub fn file_check_interval(&self) -> (interval: Duration)
        ensures
            interval == seconds_duration(self.file_check_interval_seconds),
    {
        Duration::from_secs(self.file_check_interval_seconds)
    }
}

} // verus!

use sponsorblock_mirror::config::Config;
use sponsorblock_mirror::config::Variables;
use std::time::Duration;

fn only_database() -> Variables {
    Variables {
        database_url: Some(String::from("postgres://localhost/mirror")),
        server_host: None,
        server_port: None,
        log_level: None,
        csv_path: None,
        check_interval_seconds: None,
        file_check_interval_seconds: None,
        metrics_namespace: None,
    }
}

#[test]
fn unset_variables_take_their_defaults() {
    let config = Config::from_vars(only_database()).unwrap();
    assert_eq!(config.database_url, "postgres://localhost/mirror");
    assert_eq!(config.server_host, "0.0.0.0");
    assert_eq!(config.server_port, 8001);
    assert_eq!(config.log_level, "sponsorblock_mirror=debug,actix_web=info");
    assert_eq!(config.csv_path, "mirror/sponsorTimes.csv");
    assert_eq!(config.check_interval_seconds, 30);
    assert_eq!(config.file_check_interval_seconds, 60);
    assert_eq!(config.metrics_namespace, "api");
}

#[test]
fn set_variables_are_taken() {
    let vars = Variables {
        database_url: Some(String::from("postgres://db/x")),
        server_host: Some(String::from("127.0.0.1")),
        server_port: Some(String::from("+0080")),
        log_level: Some(String::from("warn")),
        csv_path: Some(String::from("/data/snapshot.csv")),
        check_interval_seconds: Some(String::from("5")),
        file_check_interval_seconds: Some(String::from("18446744073709551615")),
        metrics_namespace: Some(String::from("mirror")),
    };
    let config = Config::from_vars(vars).unwrap();
    assert_eq!(config.database_url, "postgres://db/x");
    assert_eq!(config.server_host, "127.0.0.1");
    assert_eq!(config.server_port, 80);
    assert_eq!(config.log_level, "warn");
    assert_eq!(config.csv_path, "/data/snapshot.csv");
    assert_eq!(config.check_interval_seconds, 5);
    assert_eq!(config.file_check_interval_seconds, u64::MAX);
    assert_eq!(config.metrics_namespace, "mirror");
    assert_eq!(config.server_bind_address(), "127.0.0.1:80");
    let copy = config.clone();
    assert_eq!(copy.csv_path, "/data/snapshot.csv");
    assert_eq!(copy.server_port, 80);
}

#[test]
fn missing_database_url_is_complained_about_first() {
    let mut vars = only_database();
    vars.database_url = None;
    vars.server_port = Some(String::from("not a port"));
    assert_eq!(
        Config::from_vars(vars).unwrap_err(),
        "DATABASE_URL environment variable must be set"
    );
}

#[test]
fn malformed_port_is_complained_about() {
    for port in ["", "65536", "-1", "80 ", " 80", "8o", "+", "0x50", "8.0"] {
        let mut vars = only_database();
        vars.server_port = Some(String::from(port));
        vars.check_interval_seconds = Some(String::from("x"));
        assert_eq!(
            Config::from_vars(vars).unwrap_err(),
            "SERVER_PORT must be a valid port number"
        );
    }
    let mut vars = only_database();
    vars.server_port = Some(String::from("65535"));
    assert_eq!(Config::from_vars(vars).unwrap().server_port, 65535);
}

#[test]
fn malformed_intervals_are_complained_about() {
    let mut vars = only_database();
    vars.check_interval_seconds = Some(String::from("soon"));
    vars.file_check_interval_seconds = Some(String::from("later"));
    assert_eq!(
        Config::from_vars(vars).unwrap_err(),
        "CHECK_INTERVAL_SECONDS must be a valid number"
    );
    let mut vars = only_database();
    vars.file_check_interval_seconds = Some(String::from("18446744073709551616"));
    assert_eq!(
        Config::from_vars(vars).unwrap_err(),
        "FILE_CHECK_INTERVAL_SECONDS must be a valid number"
    );
}

#[test]
fn bind_address_joins_host_and_port() {
    let mut config = Config::from_vars(only_database()).unwrap();
    assert_eq!(config.server_bind_address(), "0.0.0.0:8001");
    config.server_host = String::from("localhost");
    config.server_port = 0;
    assert_eq!(config.server_bind_address(), "localhost:0");
    config.server_port = 65535;
    assert_eq!(config.server_bind_address(), "localhost:65535");
    config.server_host = String::new();
    config.server_port = 10;
    assert_eq!(config.server_bind_address(), ":10");
}

#[test]
fn intervals_are_durations_of_whole_seconds() {
    let mut config = Config::from_vars(only_database()).unwrap();
    assert_eq!(config.check_interval(), Duration::from_secs(30));
    assert_eq!(config.file_check_interval(), Duration::from_secs(60));
    config.check_interval_seconds = 0;
    config.file_check_interval_seconds = u64::MAX;
    assert_eq!(config.check_interval(), Duration::from_secs(0));
    assert_eq!(config.file_check_interval(), Duration::from_secs(u64::MAX));
}

use pomidoro::config::{decimal_text, Config, Session, TomlConfig};
use pomidoro::time::Duration;

#[test]
fn default_file_has_work_and_rest() {
    let toml = TomlConfig::default();
    assert_eq!(toml.paused_state_text, None);
    assert_eq!(toml.running_state_text, None);
    assert_eq!(toml.time_format, None);
    assert_eq!(toml.socket_dir, None);
    assert_eq!(toml.sessions.len(), 2);
    assert_eq!(toml.sessions[0].name, "work");
    assert_eq!(toml.sessions[0].duration, Duration::from_secs(1500));
    assert_eq!(toml.sessions[0].time_format, None);
    assert_eq!(toml.sessions[1].name, "rest");
    assert_eq!(toml.sessions[1].duration, Duration::from_secs(300));
    assert_eq!(toml.sessions[1].time_format, None);
}

#[test]
fn missing_texts_are_filled_in() {
    let config = Config::from_toml(TomlConfig::default(), "/tmp/pomidoro".into());
    assert_eq!(config.paused_state_text, "paused");
    assert_eq!(config.running_state_text, "running");
    assert_eq!(config.time_format, "%M:%S");
    assert_eq!(config.socket_dir, "/tmp/pomidoro");
    assert_eq!(config.sessions.len(), 2);
}

#[test]
fn given_texts_are_kept() {
    let toml = TomlConfig {
        paused_state_text: Some("||".into()),
        running_state_text: Some(">".into()),
        time_format: Some("%H:%M".into()),
        socket_dir: Some("/run/timer/".into()),
        sessions: vec![Session { name: "only".into(), duration: Duration::from_secs(9), time_format: None }],
    };
    let config = Config::from_toml(toml, "/tmp/pomidoro".into());
    assert_eq!(config.paused_state_text, "||");
    assert_eq!(config.running_state_text, ">");
    assert_eq!(config.time_format, "%H:%M");
    assert_eq!(config.socket_dir, "/run/timer/");
    assert_eq!(config.sessions.len(), 1);
    assert_eq!(config.sessions[0].name, "only");
}

#[test]
fn server_path_joins_directory_and_file() {
    let mut config = Config::from_toml(TomlConfig::default(), "/tmp/pomidoro".into());
    assert_eq!(config.server_path(0), "/tmp/pomidoro/server0.sock");
    assert_eq!(config.server_path(4_294_967_295), "/tmp/pomidoro/server4294967295.sock");
    config.socket_dir = "/run/timer/".into();
    assert_eq!(config.server_path(17), "/run/timer/server17.sock");
    config.socket_dir = String::new();
    assert_eq!(config.server_path(105), "server105.sock");
    let path = std::path::Path::new("/tmp/pomidoro").join(format!("server{}.sock", 7));
    config.socket_dir = "/tmp/pomidoro".into();
    assert_eq!(std::path::Path::new(&config.server_path(7)), path.as_path());
}

#[test]
fn decimal_text_has_no_leading_zeros() {
    assert_eq!(decimal_text(0), "0");
    assert_eq!(decimal_text(9), "9");
    assert_eq!(decimal_text(10), "10");
    assert_eq!(decimal_text(1234567890), "1234567890");
}

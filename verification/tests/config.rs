use portway::address::IpAddress;
use portway::auth::{load_or_create, AuthError};
use portway::config::{
    default_config_path, judge_origin, read_file_config, secret_refusal, token_default,
    validate_origin, AuthMode, BackendKind, Config, ConfigError, ConfigFile, FileConfig, Secret,
    ServeOptions, DEFAULT_PAIRING_SOCKET,
};
use std::path::PathBuf;

fn load(cli: &ServeOptions, file: FileConfig) -> Result<Config, ConfigError> {
    Config::load(
        PathBuf::from("portway.toml"),
        PathBuf::from("token"),
        PathBuf::from(DEFAULT_PAIRING_SOCKET),
        cli,
        file,
    )
}

fn fault(cli: ServeOptions) -> String {
    load(&cli, FileConfig::default()).unwrap_err().message()
}

#[test]
fn loads_file_and_applies_cli_precedence() {
    let file = FileConfig {
        listen: Some(IpAddress::from_octets(127, 0, 0, 1)),
        port: Some(3000),
        max_clients: Some(2),
        backend: Some(BackendKind::Mock),
        ..FileConfig::default()
    };
    let cli = ServeOptions {
        port: Some(4000),
        ..ServeOptions::default()
    };

    let config = load(&cli, file).unwrap();

    assert_eq!(config.listen, IpAddress::from_octets(127, 0, 0, 1));
    assert_eq!(config.port, 4000);
    assert_eq!(config.max_clients, 2);
    assert_eq!(config.backend, BackendKind::Mock);
}

#[test]
fn validates_limits() {
    let cli = ServeOptions {
        max_clients: Some(0),
        ..ServeOptions::default()
    };
    assert!(load(&cli, FileConfig::default()).is_err());
}

#[test]
fn requires_a_complete_tls_keypair() {
    let cli = ServeOptions {
        tls_cert: Some(PathBuf::from("cert.pem")),
        ..ServeOptions::default()
    };
    let error = load(&cli, FileConfig::default()).unwrap_err();
    assert!(error.message().contains("configured together"));
}

#[test]
fn a_malformed_file_is_reported() {
    let error = read_file_config("portway.toml", ConfigFile::Malformed, false).unwrap_err();
    assert_eq!(error.message(), "failed to parse configuration portway.toml");
    let error = read_file_config("portway.toml", ConfigFile::Missing, true).unwrap_err();
    assert_eq!(error.message(), "failed to read configuration portway.toml");
    let error = read_file_config("portway.toml", ConfigFile::Unreadable, false).unwrap_err();
    assert!(matches!(error, ConfigError::Unreadable(path) if path == "portway.toml"));
    let file = read_file_config("portway.toml", ConfigFile::Missing, false).unwrap();
    assert_eq!(file.port, None);
    let contents = FileConfig {
        port: Some(81),
        ..FileConfig::default()
    };
    let file = read_file_config("portway.toml", ConfigFile::Contents(contents), true).unwrap();
    assert_eq!(file.port, Some(81));
}

#[test]
fn defaults_fill_in_what_is_not_said() {
    let config = load(&ServeOptions::default(), FileConfig::default()).unwrap();
    assert_eq!(config.config_path, PathBuf::from("portway.toml"));
    assert_eq!(config.listen, IpAddress::V4(0));
    assert_eq!(config.port, 2721);
    assert_eq!(config.auth_mode, AuthMode::Token);
    assert_eq!(config.token_file, PathBuf::from("token"));
    assert_eq!(config.pairing_socket, PathBuf::from("/run/portway/pair.sock"));
    assert!(config.pairing_allowed_uids.is_empty());
    assert_eq!(config.pairing_code_ttl_seconds, 300);
    assert_eq!(config.session_ttl_seconds, 43_200);
    assert_eq!(config.backend, BackendKind::Auto);
    assert_eq!(config.max_clients, 1);
    assert_eq!(f64::from_bits(config.pointer_sensitivity_bits), 1.0);
    assert_eq!(config.log_level, "info");
    assert!(config.allowed_origins.is_empty());
    assert_eq!(config.mouse_name, "Portway virtual mouse");
    assert_eq!(config.keyboard_name, "Portway virtual keyboard");
    assert!(!config.tls_enabled());
}

#[test]
fn origins_of_the_command_line_replace_those_of_the_file() {
    let file = || FileConfig {
        allowed_origins: Some(vec!["https://file.example".to_owned()]),
        pairing_allowed_uids: Some(vec![1000]),
        ..FileConfig::default()
    };
    let cli = ServeOptions {
        allowed_origins: vec!["https://cli.example".to_owned()],
        tls_cert: Some(PathBuf::from("cert.pem")),
        tls_key: Some(PathBuf::from("key.pem")),
        ..ServeOptions::default()
    };
    let config = load(&cli, file()).unwrap();
    assert_eq!(config.allowed_origins, vec!["https://cli.example".to_owned()]);
    assert_eq!(config.pairing_allowed_uids, vec![1000]);
    assert!(config.tls_enabled());
    let config = load(&ServeOptions::default(), file()).unwrap();
    assert_eq!(config.allowed_origins, vec!["https://file.example".to_owned()]);
}

#[test]
fn every_limit_has_its_message() {
    assert_eq!(
        fault(ServeOptions { port: Some(0), ..ServeOptions::default() }),
        "port must be between 1 and 65535"
    );
    assert_eq!(
        fault(ServeOptions { max_clients: Some(9), ..ServeOptions::default() }),
        "max_clients must be between 1 and 8"
    );
    assert_eq!(
        fault(ServeOptions { pairing_code_ttl_seconds: Some(29), ..ServeOptions::default() }),
        "pairing_code_ttl_seconds must be between 30 and 3600"
    );
    assert_eq!(
        fault(ServeOptions { session_ttl_seconds: Some(604_801), ..ServeOptions::default() }),
        "session_ttl_seconds must be between 300 and 604800"
    );
    for sensitivity in [0.099, 5.000_001, f64::NAN, f64::INFINITY, -1.0, 0.0] {
        assert_eq!(
            fault(ServeOptions {
                pointer_sensitivity_bits: Some(f64::to_bits(sensitivity)),
                ..ServeOptions::default()
            }),
            "pointer_sensitivity must be between 0.1 and 5.0"
        );
    }
    assert_eq!(
        fault(ServeOptions { mouse_name: Some(String::new()), ..ServeOptions::default() }),
        "mouse_name must contain 1 to 79 bytes"
    );
    assert_eq!(
        fault(ServeOptions { keyboard_name: Some("é".repeat(40)), ..ServeOptions::default() }),
        "keyboard_name must contain 1 to 79 bytes"
    );
    let edges = ServeOptions {
        port: Some(65_535),
        max_clients: Some(8),
        pairing_code_ttl_seconds: Some(3_600),
        session_ttl_seconds: Some(300),
        pointer_sensitivity_bits: Some(0.1_f64.to_bits()),
        mouse_name: Some("m".repeat(79)),
        ..ServeOptions::default()
    };
    assert!(load(&edges, FileConfig::default()).is_ok());
}

#[test]
fn the_first_fault_is_reported() {
    let cli = ServeOptions {
        max_clients: Some(0),
        session_ttl_seconds: Some(0),
        allowed_origins: vec!["nonsense".to_owned()],
        ..ServeOptions::default()
    };
    assert_eq!(fault(cli), "max_clients must be between 1 and 8");
}

#[test]
fn origins_are_absolute_and_have_no_path() {
    assert!(validate_origin("https://control.example").is_ok());
    assert!(validate_origin("http://192.0.2.10:2721").is_ok());
    assert!(validate_origin("http://192.0.2.10:2721/").is_ok());
    let error = validate_origin("https://control.example/panel").unwrap_err();
    assert_eq!(
        error.message(),
        "allowed origin must not contain a path or query: \"https://control.example/panel\""
    );
    let error = validate_origin("control.example").unwrap_err();
    assert_eq!(
        error.message(),
        "allowed origin must be an absolute http(s) origin: \"control.example\""
    );
    assert!(matches!(
        validate_origin("ftp://control.example"),
        Err(ConfigError::RelativeOrigin(_))
    ));
    let error = validate_origin("http://a b").unwrap_err();
    assert_eq!(error.message(), "invalid allowed origin \"http://a b\"");
    assert!(matches!(
        judge_origin("x", None),
        Err(ConfigError::InvalidOrigin(origin)) if origin == "x"
    ));
    let cli = ServeOptions {
        allowed_origins: vec!["https://ok.example".to_owned(), "/path".to_owned()],
        ..ServeOptions::default()
    };
    assert!(matches!(
        load(&cli, FileConfig::default()),
        Err(ConfigError::RelativeOrigin(origin)) if origin == "/path"
    ));
}

#[test]
fn the_default_path_follows_the_environment() {
    let xdg = Some(PathBuf::from("/xdg"));
    let home = Some(PathBuf::from("/home/me"));
    let location = default_config_path(xdg, home.clone());
    assert_eq!(location.directory, Some(PathBuf::from("/xdg")));
    assert_eq!(location.relative, "portway/config.toml");
    let location = default_config_path(None, home);
    assert_eq!(location.directory, Some(PathBuf::from("/home/me")));
    assert_eq!(location.relative, ".config/portway/config.toml");
    let location = default_config_path(None, None);
    assert_eq!(location.directory, None);
    assert_eq!(location.relative, "portway.toml");
}

#[test]
fn the_token_lies_beside_the_configuration() {
    let location = token_default(Some(PathBuf::from("/etc/portway")));
    assert_eq!(location.directory, Some(PathBuf::from("/etc/portway")));
    assert_eq!(location.relative, "token");
    let location = token_default(None);
    assert_eq!(location.directory, None);
    assert_eq!(location.relative, "./token");
    assert_eq!(DEFAULT_PAIRING_SOCKET, "/run/portway/pair.sock");
}

#[test]
fn secrets_exist_only_with_authentication() {
    assert_eq!(secret_refusal(AuthMode::Token, Secret::PairingCode), None);
    assert_eq!(
        secret_refusal(AuthMode::Disabled, Secret::PairingCode),
        Some("authentication is disabled; a pairing code is not required")
    );
    assert_eq!(
        secret_refusal(AuthMode::Disabled, Secret::SetupToken),
        Some("authentication is disabled; there is no token")
    );
}

#[test]
fn the_authenticator_follows_the_configuration() {
    let cli = ServeOptions {
        pairing_code_ttl_seconds: Some(60),
        session_ttl_seconds: Some(600),
        token_file: Some(PathBuf::from("/etc/portway/token")),
        ..ServeOptions::default()
    };
    let config = load(&cli, FileConfig::default()).unwrap();
    let mut material = load_or_create(&config, Ok(("secret-token".to_owned(), true))).unwrap();
    assert!(material.newly_created);
    assert_eq!(material.token_path, PathBuf::from("/etc/portway/token"));
    assert_eq!(material.authenticator.pairing_code_ttl_seconds(), 60);
    assert_eq!(material.authenticator.session_ttl_seconds(), 600);
    assert!(material.authenticator.exchange("secret-token").unwrap().is_some());
    assert!(matches!(
        load_or_create(&config, Err(AuthError::TokenLength)),
        Err(AuthError::TokenLength)
    ));

    let disabled = ServeOptions {
        auth_mode: Some(AuthMode::Disabled),
        ..ServeOptions::default()
    };
    let config = load(&disabled, FileConfig::default()).unwrap();
    let material = load_or_create(&config, Err(AuthError::TokenLength)).unwrap();
    assert!(!material.authenticator.is_enabled());
    assert!(!material.newly_created);
}

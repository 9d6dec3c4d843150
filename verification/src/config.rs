//! The configuration: what the command line, the file and the defaults add up to.

use crate::address::IpAddress;
use crate::sensitivity::{is_sensitivity_in_range, sensitivity_in_range, SENSITIVITY_ONE_BITS};
use crate::text::{text_eq, texts};
use crate::uri::{optional_chars, parse_uri, uri_parts, UriParts};
use std::path::PathBuf;
use vstd::prelude::*;
use vstd::string::*;
use vstd::utf8::encode_utf8;

verus! {

pub const DEFAULT_PORT: u16 = 2721;

pub const DEFAULT_PAIRING_CODE_TTL_SECONDS: u64 = 300;

pub const DEFAULT_SESSION_TTL_SECONDS: u64 = 43_200;

pub const DEFAULT_PAIRING_SOCKET: &'static str = "/run/portway/pair.sock";

pub const MAX_DEVICE_NAME_BYTES: usize = 79;

/// A path of the file system, which is only carried along here.
#[verifier::external_type_specification]
#[verifier::external_body]
pub struct ExPathBuf(std::path::PathBuf);

/// `PathBuf::clone` of std. The contract claims that the copy is the same path.
#[verifier::external_body]
pub(crate) fn copy_path(path: &PathBuf) -> (copy: PathBuf)
    ensures
        copy == *path,
{
    path.clone()
}

#[derive(Debug, Clone, Copy, PartialEq, Eq, Structural)]
pub enum AuthMode {
    Token,
    Disabled,
}

#[derive(Debug, Clone, Copy, PartialEq, Eq, Structural)]
pub enum BackendKind {
    Auto,
    Uinput,
    Mock,
}

/// What the command line and the environment say. The sensitivity is a binary64 number, given by
/// its bits.
#[derive(Debug)]
pub struct ServeOptions {
    pub listen: Option<IpAddress>,
    pub port: Option<u16>,
    pub auth_mode: Option<AuthMode>,
    pub token_file: Option<PathBuf>,
    pub tls_cert: Option<PathBuf>,
    pub tls_key: Option<PathBuf>,
    pub pairing_code_ttl_seconds: Option<u64>,
    pub session_ttl_seconds: Option<u64>,
    pub backend: Option<BackendKind>,
    pub max_clients: Option<usize>,
    pub pointer_sensitivity_bits: Option<u64>,
    pub log_level: Option<String>,
    pub allowed_origins: Vec<String>,
    pub mouse_name: Option<String>,
    pub keyboard_name: Option<String>,
}

/// What the configuration file says.
#[derive(Debug)]
pub struct FileConfig {
    pub listen: Option<IpAddress>,
    pub port: Option<u16>,
    pub auth_mode: Option<AuthMode>,
    pub token_file: Option<PathBuf>,
    pub tls_cert: Option<PathBuf>,
    pub tls_key: Option<PathBuf>,
    pub pairing_code_ttl_seconds: Option<u64>,
    pub session_ttl_seconds: Option<u64>,
    pub pairing_socket: Option<PathBuf>,
    pub pairing_allowed_uids: Option<Vec<u32>>,
    pub backend: Option<BackendKind>,
    pub max_clients: Option<usize>,
    pub pointer_sensitivity_bits: Option<u64>,
    pub log_level: Option<String>,
    pub allowed_origins: Option<Vec<String>>,
    pub mouse_name: Option<String>,
    pub keyboard_name: Option<String>,
}

/// The configuration that the server runs with.
#[derive(Debug)]
pub struct Config {
    pub config_path: PathBuf,
    pub listen: IpAddress,
    pub port: u16,
    pub auth_mode: AuthMode,
    pub token_file: PathBuf,
    pub tls_cert: Option<PathBuf>,
    pub tls_key: Option<PathBuf>,
    pub pairing_code_ttl_seconds: u64,
    pub session_ttl_seconds: u64,
    pub pairing_socket: PathBuf,
    pub pairing_allowed_uids: Vec<u32>,
    pub backend: BackendKind,
    pub max_clients: usize,
    pub pointer_sensitivity_bits: u64,
    pub log_level: String,
    pub allowed_origins: Vec<String>,
    pub mouse_name: String,
    pub keyboard_name: String,
}

/// The contents of a configuration.
#[verifier::ext_equal]
pub struct ConfigModel {
    pub config_path: PathBuf,
    pub listen: IpAddress,
    pub port: u16,
    pub auth_mode: AuthMode,
    pub token_file: PathBuf,
    pub tls_cert: Option<PathBuf>,
    pub tls_key: Option<PathBuf>,
    pub pairing_code_ttl_seconds: u64,
    pub session_ttl_seconds: u64,
    pub pairing_socket: PathBuf,
    pub pairing_allowed_uids: Seq<u32>,
    pub backend: BackendKind,
    pub max_clients: usize,
    pub pointer_sensitivity_bits: u64,
    pub log_level: Seq<char>,
    pub allowed_origins: Seq<Seq<char>>,
    pub mouse_name: Seq<char>,
    pub keyboard_name: Seq<char>,
}

impl View for Config {
    type V = ConfigModel;

    open spec fn view(&self) -> ConfigModel {
        ConfigModel {
            config_path: self.config_path,
            listen: self.listen,
            port: self.port,
            auth_mode: self.auth_mode,
            token_file: self.token_file,
            tls_cert: self.tls_cert,
            tls_key: self.tls_key,
            pairing_code_ttl_seconds: self.pairing_code_ttl_seconds,
            session_ttl_seconds: self.session_ttl_seconds,
            pairing_socket: self.pairing_socket,
            pairing_allowed_uids: self.pairing_allowed_uids@,
            backend: self.backend,
            max_clients: self.max_clients,
            pointer_sensitivity_bits: self.pointer_sensitivity_bits,
            log_level: self.log_level@,
            allowed_origins: texts(self.allowed_origins@),
            mouse_name: self.mouse_name@,
            keyboard_name: self.keyboard_name@,
        }
    }
}

/// Why a configuration is refused.
#[verifier::ext_equal]
pub enum ConfigFault {
    Port,
    MaxClients,
    TlsPair,
    PairingCodeTtl,
    SessionTtl,
    PointerSensitivity,
    MouseName,
    KeyboardName,
    InvalidOrigin(Seq<char>),
    RelativeOrigin(Seq<char>),
    OriginPath(Seq<char>),
    Unreadable(Seq<char>),
    Malformed(Seq<char>),
}

/// Why a configuration is refused. The strings are the origin, or the path of the file.
#[derive(Debug)]
pub enum ConfigError {
    Port,
    MaxClients,
    TlsPair,
    PairingCodeTtl,
    SessionTtl,
    PointerSensitivity,
    MouseName,
    KeyboardName,
    InvalidOrigin(String),
    RelativeOrigin(String),
    OriginPath(String),
    Unreadable(String),
    Malformed(String),
}

impl View for ConfigError {
    type V = ConfigFault;

    open spec fn view(&self) -> ConfigFault {
        match self {
            ConfigError::Port => ConfigFault::Port,
            ConfigError::MaxClients => ConfigFault::MaxClients,
            ConfigError::TlsPair => ConfigFault::TlsPair,
            ConfigError::PairingCodeTtl => ConfigFault::PairingCodeTtl,
            ConfigError::SessionTtl => ConfigFault::SessionTtl,
            ConfigError::PointerSensitivity => ConfigFault::PointerSensitivity,
            ConfigError::MouseName => ConfigFault::MouseName,
            ConfigError::KeyboardName => ConfigFault::KeyboardName,
            ConfigError::InvalidOrigin(origin) => ConfigFault::InvalidOrigin(origin@),
            ConfigError::RelativeOrigin(origin) => ConfigFault::RelativeOrigin(origin@),
            ConfigError::OriginPath(origin) => ConfigFault::OriginPath(origin@),
            ConfigError::Unreadable(path) => ConfigFault::Unreadable(path@),
            ConfigError::Malformed(path) => ConfigFault::Malformed(path@),
        }
    }
}

/// What std's `Debug` writes for a text: the text in double quotes, escaped where it does not
/// print.
pub uninterp spec fn debug_text(text: Seq<char>) -> Seq<char>;

/// `Debug` formatting of a `str` by std. The contract claims only that the result is determined
/// by the text.
#[verifier::external_body]
fn format_text(text: &str) -> (quoted: String)
    ensures
        quoted@ == debug_text(text@),
{
    format!("{text:?}")
}

impl ConfigFault {
    pub open spec fn description(self) -> Seq<char> {
        match self {
            ConfigFault::Port => "port must be between 1 and 65535"@,
            ConfigFault::MaxClients => "max_clients must be between 1 and 8"@,
            ConfigFault::TlsPair => "tls_cert and tls_key must be configured together"@,
            ConfigFault::PairingCodeTtl => {
                "pairing_code_ttl_seconds must be between 30 and 3600"@
            },
            ConfigFault::SessionTtl => "session_ttl_seconds must be between 300 and 604800"@,
            ConfigFault::PointerSensitivity => "pointer_sensitivity must be between 0.1 and 5.0"@,
            ConfigFault::MouseName => "mouse_name must contain 1 to 79 bytes"@,
            ConfigFault::KeyboardName => "keyboard_name must contain 1 to 79 bytes"@,
            ConfigFault::InvalidOrigin(origin) => "invalid allowed origin "@ + debug_text(origin),
            ConfigFault::RelativeOrigin(origin) => {
                "allowed origin must be an absolute http(s) origin: "@ + debug_text(origin)
            },
            ConfigFault::OriginPath(origin) => {
                "allowed origin must not contain a path or query: "@ + debug_text(origin)
            },
            ConfigFault::Unreadable(path) => "failed to read configuration "@ + path,
            ConfigFault::Malformed(path) => "failed to parse configuration "@ + path,
        }
    }
}

impl ConfigError {
    pub fn message(&self) -> (message: String)
        ensures
            message@ == self@.description(),
    {
        match self {
            ConfigError::Port => "port must be between 1 and 65535".to_owned(),
            ConfigError::MaxClients => "max_clients must be between 1 and 8".to_owned(),
            ConfigError::TlsPair => {
                "tls_cert and tls_key must be configured together".to_owned()
            },
            ConfigError::PairingCodeTtl => {
                "pairing_code_ttl_seconds must be between 30 and 3600".to_owned()
            },
            ConfigError::SessionTtl => {
                "session_ttl_seconds must be between 300 and 604800".to_owned()
            },
            ConfigError::PointerSensitivity => {
                "pointer_sensitivity must be between 0.1 and 5.0".to_owned()
            },
            ConfigError::MouseName => "mouse_name must contain 1 to 79 bytes".to_owned(),
            ConfigError::KeyboardName => "keyboard_name must contain 1 to 79 bytes".to_owned(),
            ConfigError::InvalidOrigin(origin) => "invalid allowed origin ".to_owned().concat(
                format_text(origin.as_str()).as_str(),
            ),
            ConfigError::RelativeOrigin(origin) => {
                "allowed origin must be an absolute http(s) origin: ".to_owned().concat(
                    format_text(origin.as_str()).as_str(),
                )
            },
            ConfigError::OriginPath(origin) => {
                "allowed origin must not contain a path or query: ".to_owned().concat(
                    format_text(origin.as_str()).as_str(),
                )
            },
            ConfigError::Unreadable(path) => "failed to read configuration ".to_owned().concat(
                path.as_str(),
            ),
            ConfigError::Malformed(path) => "failed to parse configuration ".to_owned().concat(
                path.as_str(),
            ),
        }
    }
}

impl ServeOptions {
    /// Nothing is said.
    pub open spec fn silent(self) -> bool {
        &&& self.listen is None
        &&& self.port is None
        &&& self.auth_mode is None
        &&& self.token_file is None
        &&& self.tls_cert is None
        &&& self.tls_key is None
        &&& self.pairing_code_ttl_seconds is None
        &&& self.session_ttl_seconds is None
        &&& self.backend is None
        &&& self.max_clients is None
        &&& self.pointer_sensitivity_bits is None
        &&& self.log_level is None
        &&& self.allowed_origins@.len() == 0
        &&& self.mouse_name is None
        &&& self.keyboard_name is None
    }
}

impl Default for ServeOptions {
    fn default() -> (options: Self)
        ensures
            options.silent(),
    {
        ServeOptions {
            listen: None,
            port: None,
            auth_mode: None,
            token_file: None,
            tls_cert: None,
            tls_key: None,
            pairing_code_ttl_seconds: None,
            session_ttl_seconds: None,
            backend: None,
            max_clients: None,
            pointer_sensitivity_bits: None,
            log_level: None,
            allowed_origins: Vec::new(),
            mouse_name: None,
            keyboard_name: None,
        }
    }
}

impl FileConfig {
    /// Nothing is said.
    pub open spec fn silent(self) -> bool {
        &&& self.listen is None
        &&& self.port is None
        &&& self.auth_mode is None
        &&& self.token_file is None
        &&& self.tls_cert is None
        &&& self.tls_key is None
        &&& self.pairing_code_ttl_seconds is None
        &&& self.session_ttl_seconds is None
        &&& self.pairing_socket is None
        &&& self.pairing_allowed_uids is None
        &&& self.backend is None
        &&& self.max_clients is None
        &&& self.pointer_sensitivity_bits is None
        &&& self.log_level is None
        &&& self.allowed_origins is None
        &&& self.mouse_name is None
        &&& self.keyboard_name is None
    }
}

impl Default for FileConfig {
    fn default() -> (file: Self)
        ensures
            file.silent(),
    {
        FileConfig {
            listen: None,
            port: None,
            auth_mode: None,
            token_file: None,
            tls_cert: None,
            tls_key: None,
            pairing_code_ttl_seconds: None,
            session_ttl_seconds: None,
            pairing_socket: None,
            pairing_allowed_uids: None,
            backend: None,
            max_clients: None,
            pointer_sensitivity_bits: None,
            log_level: None,
            allowed_origins: None,
            mouse_name: None,
            keyboard_name: None,
        }
    }
}

/// The first of two settings that is given.
pub open spec fn first_of<T>(first: Option<T>, second: Option<T>) -> Option<T> {
    match first {
        Some(value) => Some(value),
        None => second,
    }
}

/// The first of two settings that is given, or the default.
pub open spec fn setting<T>(first: Option<T>, second: Option<T>, default: T) -> T {
    match first_of(first, second) {
        Some(value) => value,
        None => default,
    }
}

fn pick<T: Copy>(first: Option<T>, second: Option<T>, default: T) -> (value: T)
    ensures
        value == setting(first, second, default),
{
    match first {
        Some(value) => value,
        None => match second {
            Some(value) => value,
            None => default,
        },
    }
}

fn pick_path(first: &Option<PathBuf>, second: Option<PathBuf>) -> (path: Option<PathBuf>)
    ensures
        path == first_of(*first, second),
{
    match first {
        Some(path) => Some(copy_path(path)),
        None => second,
    }
}

fn pick_text(first: &Option<String>, second: Option<String>, default: &str) -> (text: String)
    ensures
        text@ == setting(optional_chars(*first), optional_chars(second), default@),
{
    match first {
        Some(text) => text.as_str().to_owned(),
        None => match second {
            Some(text) => text,
            None => default.to_owned(),
        },
    }
}

pub fn copy_texts(strings: &Vec<String>) -> (copy: Vec<String>)
    ensures
        texts(copy@) == texts(strings@),
{
    let mut copy: Vec<String> = Vec::new();
    let mut i: usize = 0;
    while i < strings.len()
        invariant
            i <= strings@.len(),
            copy@.len() == i,
            forall|j: int| 0 <= j < i ==> (#[trigger] copy@[j])@ == strings@[j]@,
        decreases strings@.len() - i,
    {
        copy.push(strings[i].as_str().to_owned());
        i = i + 1;
    }
    assert(texts(copy@) =~= texts(strings@));
    copy
}

/// What is wrong with an allowed origin, given the parts of it where it is a URI.
pub open spec fn origin_fault(
    origin: Seq<char>,
    parts: Option<(Option<Seq<char>>, Option<Seq<char>>, Option<Seq<char>>)>,
) -> Option<ConfigFault> {
    match parts {
        None => Some(ConfigFault::InvalidOrigin(origin)),
        Some((scheme, authority, path)) => {
            if (scheme != Some("http"@) && scheme != Some("https"@)) || authority is None {
                Some(ConfigFault::RelativeOrigin(origin))
            } else if path is Some && path != Some("/"@) {
                Some(ConfigFault::OriginPath(origin))
            } else {
                None
            }
        },
    }
}

/// The outcome of a check, as the fault that it found.
pub open spec fn found(checked: Result<(), ConfigError>) -> Option<ConfigFault> {
    match checked {
        Ok(_) => None,
        Err(error) => Some(error@),
    }
}

/// Judges an allowed origin by the parts of it.
pub fn judge_origin(origin: &str, parts: Option<UriParts>) -> (checked: Result<(), ConfigError>)
    ensures
        found(checked) == origin_fault(
            origin@,
            match parts {
                Some(parts) => Some(parts@),
                None => None,
            },
        ),
{
    let parts = match parts {
        None => {
            return Err(ConfigError::InvalidOrigin(origin.to_owned()));
        },
        Some(parts) => parts,
    };
    let known_scheme = match &parts.scheme {
        Some(scheme) => text_eq(scheme.as_str(), "http") || text_eq(scheme.as_str(), "https"),
        None => false,
    };
    if !known_scheme || parts.authority.is_none() {
        return Err(ConfigError::RelativeOrigin(origin.to_owned()));
    }
    if let Some(path) = &parts.path_and_query {
        if !text_eq(path.as_str(), "/") {
            return Err(ConfigError::OriginPath(origin.to_owned()));
        }
    }
    Ok(())
}

pub fn validate_origin(origin: &str) -> (checked: Result<(), ConfigError>)
    ensures
        found(checked) == origin_fault(origin@, uri_parts(origin@)),
{
    match parse_uri(origin) {
        Ok(parts) => judge_origin(origin, Some(parts)),
        Err(_) => judge_origin(origin, None),
    }
}

/// The first fault among the allowed origins.
pub open spec fn origins_fault(origins: Seq<Seq<char>>) -> Option<ConfigFault>
    decreases origins.len(),
{
    if origins.len() == 0 {
        None
    } else {
        match origin_fault(origins[0], uri_parts(origins[0])) {
            Some(fault) => Some(fault),
            None => origins_fault(origins.drop_first()),
        }
    }
}

/// Whether a name fits into the kernel's device name.
pub open spec fn device_name_fits(name: Seq<char>) -> bool {
    1 <= encode_utf8(name).len() <= MAX_DEVICE_NAME_BYTES
}

fn device_name_is_valid(name: &str) -> (valid: bool)
    ensures
        valid == device_name_fits(name@),
{
    let bytes = name.as_bytes();
    1 <= bytes.len() && bytes.len() <= MAX_DEVICE_NAME_BYTES
}

impl ConfigModel {
    /// The first thing that is wrong.
    pub open spec fn fault(self) -> Option<ConfigFault> {
        if self.port == 0 {
            Some(ConfigFault::Port)
        } else if !(1 <= self.max_clients <= 8) {
            Some(ConfigFault::MaxClients)
        } else if self.tls_cert.is_some() != self.tls_key.is_some() {
            Some(ConfigFault::TlsPair)
        } else if !(30 <= self.pairing_code_ttl_seconds <= 3_600) {
            Some(ConfigFault::PairingCodeTtl)
        } else if !(300 <= self.session_ttl_seconds <= 604_800) {
            Some(ConfigFault::SessionTtl)
        } else if !sensitivity_in_range(self.pointer_sensitivity_bits) {
            Some(ConfigFault::PointerSensitivity)
        } else if !device_name_fits(self.mouse_name) {
            Some(ConfigFault::MouseName)
        } else if !device_name_fits(self.keyboard_name) {
            Some(ConfigFault::KeyboardName)
        } else {
            origins_fault(self.allowed_origins)
        }
    }

    /// The command line comes before the file, and the file before the defaults.
    pub open spec fn resolved(
        config_path: PathBuf,
        token_default: PathBuf,
        socket_default: PathBuf,
        cli: ServeOptions,
        file: FileConfig,
    ) -> ConfigModel {
        ConfigModel {
            config_path,
            listen: setting(cli.listen, file.listen, IpAddress::V4(0)),
            port: setting(cli.port, file.port, DEFAULT_PORT),
            auth_mode: setting(cli.auth_mode, file.auth_mode, AuthMode::Token),
            token_file: setting(cli.token_file, file.token_file, token_default),
            tls_cert: first_of(cli.tls_cert, file.tls_cert),
            tls_key: first_of(cli.tls_key, file.tls_key),
            pairing_code_ttl_seconds: setting(
                cli.pairing_code_ttl_seconds,
                file.pairing_code_ttl_seconds,
                DEFAULT_PAIRING_CODE_TTL_SECONDS,
            ),
            session_ttl_seconds: setting(
                cli.session_ttl_seconds,
                file.session_ttl_seconds,
                DEFAULT_SESSION_TTL_SECONDS,
            ),
            pairing_socket: setting(file.pairing_socket, None, socket_default),
            pairing_allowed_uids: match file.pairing_allowed_uids {
                Some(uids) => uids@,
                None => Seq::empty(),
            },
            backend: setting(cli.backend, file.backend, BackendKind::Auto),
            max_clients: setting(cli.max_clients, file.max_clients, 1),
            pointer_sensitivity_bits: setting(
                cli.pointer_sensitivity_bits,
                file.pointer_sensitivity_bits,
                SENSITIVITY_ONE_BITS,
            ),
            log_level: setting(
                optional_chars(cli.log_level),
                optional_chars(file.log_level),
                "info"@,
            ),
            allowed_origins: if cli.allowed_origins@.len() > 0 {
                texts(cli.allowed_origins@)
            } else {
                match file.allowed_origins {
                    Some(origins) => texts(origins@),
                    None => Seq::empty(),
                }
            },
            mouse_name: setting(
                optional_chars(cli.mouse_name),
                optional_chars(file.mouse_name),
                "Portway virtual mouse"@,
            ),
            keyboard_name: setting(
                optional_chars(cli.keyboard_name),
                optional_chars(file.keyboard_name),
                "Portway virtual keyboard"@,
            ),
        }
    }
}

impl Config {
    /// Adds up what the command line and the file say. The defaults that are paths come from the
    /// caller: the setup token lies beside the configuration file.
    pub fn load(
        config_path: PathBuf,
        token_default: PathBuf,
        socket_default: PathBuf,
        cli: &ServeOptions,
        file: FileConfig,
    ) -> (loaded: Result<Config, ConfigError>)
        ensures
            ({
                let model = ConfigModel::resolved(
                    config_path,
                    token_default,
                    socket_default,
                    *cli,
                    file,
                );
                match loaded {
                    Ok(config) => config@ == model && model.fault() is None,
                    Err(error) => model.fault() == Some(error@),
                }
            }),
            loaded matches Ok(config) ==> in_order(
                config@,
                config_path,
                token_default,
                socket_default,
                *cli,
                file,
            ),
    {
        let allowed_origins = if cli.allowed_origins.len() > 0 {
            copy_texts(&cli.allowed_origins)
        } else {
            match file.allowed_origins {
                Some(origins) => origins,
                None => Vec::new(),
            }
        };
        let config = Config {
            config_path,
            listen: pick(cli.listen, file.listen, IpAddress::V4(0)),
            port: pick(cli.port, file.port, DEFAULT_PORT),
            auth_mode: pick(cli.auth_mode, file.auth_mode, AuthMode::Token),
            token_file: match pick_path(&cli.token_file, file.token_file) {
                Some(path) => path,
                None => token_default,
            },
            tls_cert: pick_path(&cli.tls_cert, file.tls_cert),
            tls_key: pick_path(&cli.tls_key, file.tls_key),
            pairing_code_ttl_seconds: pick(
                cli.pairing_code_ttl_seconds,
                file.pairing_code_ttl_seconds,
                DEFAULT_PAIRING_CODE_TTL_SECONDS,
            ),
            session_ttl_seconds: pick(
                cli.session_ttl_seconds,
                file.session_ttl_seconds,
                DEFAULT_SESSION_TTL_SECONDS,
            ),
            pairing_socket: match file.pairing_socket {
                Some(path) => path,
                None => socket_default,
            },
            pairing_allowed_uids: match file.pairing_allowed_uids {
                Some(uids) => uids,
                None => Vec::new(),
            },
            backend: pick(cli.backend, file.backend, BackendKind::Auto),
            max_clients: pick(cli.max_clients, file.max_clients, 1),
            pointer_sensitivity_bits: pick(
                cli.pointer_sensitivity_bits,
                file.pointer_sensitivity_bits,
                SENSITIVITY_ONE_BITS,
            ),
            log_level: pick_text(&cli.log_level, file.log_level, "info"),
            allowed_origins,
            mouse_name: pick_text(&cli.mouse_name, file.mouse_name, "Portway virtual mouse"),
            keyboard_name: pick_text(
                &cli.keyboard_name,
                file.keyboard_name,
                "Portway virtual keyboard",
            ),
        };
        proof {
            let model = ConfigModel::resolved(
                config.config_path,
                token_default,
                socket_default,
                *cli,
                file,
            );
            assert(config@.allowed_origins =~= model.allowed_origins);
            assert(config@ =~= model);
            law_command_line_before_file_before_default(
                config.config_path,
                token_default,
                socket_default,
                *cli,
                file,
            );
        }
        match config.validate() {
            Ok(_) => Ok(config),
            Err(error) => Err(error),
        }
    }

    pub fn validate(&self) -> (checked: Result<(), ConfigError>)
        ensures
            found(checked) == self@.fault(),
    {
        if self.port == 0 {
            return Err(ConfigError::Port);
        }
        if !(1 <= self.max_clients && self.max_clients <= 8) {
            return Err(ConfigError::MaxClients);
        }
        if self.tls_cert.is_some() != self.tls_key.is_some() {
            return Err(ConfigError::TlsPair);
        }
        if !(30 <= self.pairing_code_ttl_seconds && self.pairing_code_ttl_seconds <= 3_600) {
            return Err(ConfigError::PairingCodeTtl);
        }
        if !(300 <= self.session_ttl_seconds && self.session_ttl_seconds <= 604_800) {
            return Err(ConfigError::SessionTtl);
        }
        if !is_sensitivity_in_range(self.pointer_sensitivity_bits) {
            return Err(ConfigError::PointerSensitivity);
        }
        if !device_name_is_valid(self.mouse_name.as_str()) {
            return Err(ConfigError::MouseName);
        }
        if !device_name_is_valid(self.keyboard_name.as_str()) {
            return Err(ConfigError::KeyboardName);
        }
        let ghost origins = texts(self.allowed_origins@);
        let mut i: usize = 0;
        assert(origins.skip(0) =~= origins);
        while i < self.allowed_origins.len()
            invariant
                i <= self.allowed_origins@.len(),
                origins == texts(self.allowed_origins@),
                origins_fault(origins) == origins_fault(origins.skip(i as int)),
                origins_fault(origins) == self@.fault(),
            decreases self.allowed_origins@.len() - i,
        {
            assert(origins.skip(i as int)[0] == self.allowed_origins@[i as int]@);
            assert(origins.skip(i as int).drop_first() =~= origins.skip(i + 1));
            match validate_origin(self.allowed_origins[i].as_str()) {
                Ok(_) => {},
                Err(error) => {
                    return Err(error);
                },
            }
            i = i + 1;
        }
        Ok(())
    }

    pub fn tls_enabled(&self) -> (enabled: bool)
        ensures
            enabled == (self.tls_cert is Some),
    {
        self.tls_cert.is_some()
    }
}

/// What a command needs that only makes sense with authentication.
#[derive(Debug, Clone, Copy, PartialEq, Eq, Structural)]
pub enum Secret {
    PairingCode,
    SetupToken,
}

/// Why a secret cannot be shown: without authentication there is none.
pub fn secret_refusal(mode: AuthMode, secret: Secret) -> (refusal: Option<&'static str>)
    ensures
        match mode {
            AuthMode::Token => refusal is None,
            AuthMode::Disabled => refusal matches Some(text) && text@ == match secret {
                Secret::PairingCode => {
                    "authentication is disabled; a pairing code is not required"@
                },
                Secret::SetupToken => "authentication is disabled; there is no token"@,
            },
        },
{
    match mode {
        AuthMode::Token => None,
        AuthMode::Disabled => match secret {
            Secret::PairingCode => {
                Some("authentication is disabled; a pairing code is not required")
            },
            Secret::SetupToken => Some("authentication is disabled; there is no token"),
        },
    }
}

/// Where a file lies when no path is given: below a directory, or, without one, in the working
/// directory.
#[derive(Debug)]
pub struct ConfigLocation {
    pub directory: Option<PathBuf>,
    pub relative: &'static str,
}

/// Prefers `XDG_CONFIG_HOME` to `HOME`, and either to the working directory.
pub fn default_config_path(xdg_config_home: Option<PathBuf>, home: Option<PathBuf>) -> (location:
    ConfigLocation)
    ensures
        location.directory == first_of(xdg_config_home, home),
        location.relative@ == if xdg_config_home is Some {
            "portway/config.toml"@
        } else if home is Some {
            ".config/portway/config.toml"@
        } else {
            "portway.toml"@
        },
{
    match xdg_config_home {
        Some(directory) => ConfigLocation {
            directory: Some(directory),
            relative: "portway/config.toml",
        },
        None => match home {
            Some(directory) => ConfigLocation {
                directory: Some(directory),
                relative: ".config/portway/config.toml",
            },
            None => ConfigLocation { directory: None, relative: "portway.toml" },
        },
    }
}

/// Without another choice the token lies beside the configuration file.
pub fn token_default(config_directory: Option<PathBuf>) -> (location: ConfigLocation)
    ensures
        location.directory == config_directory,
        location.relative@ == if config_directory is Some {
            "token"@
        } else {
            "./token"@
        },
{
    match config_directory {
        Some(directory) => ConfigLocation { directory: Some(directory), relative: "token" },
        None => ConfigLocation { directory: None, relative: "./token" },
    }
}

/// What was found at the path of the configuration file.
#[derive(Debug)]
pub enum ConfigFile {
    Contents(FileConfig),
    Malformed,
    Missing,
    Unreadable,
}

/// The settings of the file. A file that nobody asked for may be missing.
pub fn read_file_config(path: &str, found: ConfigFile, required: bool) -> (read: Result<
    FileConfig,
    ConfigError,
>)
    ensures
        match found {
            ConfigFile::Contents(file) => read == Ok::<FileConfig, ConfigError>(file),
            ConfigFile::Malformed => read matches Err(error) && error@ == ConfigFault::Malformed(
                path@,
            ),
            ConfigFile::Missing => if required {
                read matches Err(error) && error@ == ConfigFault::Unreadable(path@)
            } else {
                read matches Ok(file) && file.silent()
            },
            ConfigFile::Unreadable => read matches Err(error) && error@ == ConfigFault::Unreadable(
                path@,
            ),
        },
{
    match found {
        ConfigFile::Contents(file) => Ok(file),
        ConfigFile::Malformed => Err(ConfigError::Malformed(path.to_owned())),
        ConfigFile::Missing => if required {
            Err(ConfigError::Unreadable(path.to_owned()))
        } else {
            Ok(FileConfig::default())
        },
        ConfigFile::Unreadable => Err(ConfigError::Unreadable(path.to_owned())),
    }
}

/// Each setting is the one of the command line where that gives it, else the one of the file where
/// that gives it, else the documented default.
pub open spec fn in_order(
    config: ConfigModel,
    config_path: PathBuf,
    token_default: PathBuf,
    socket_default: PathBuf,
    cli: ServeOptions,
    file: FileConfig,
) -> bool {
    &&& cli.listen matches Some(value) ==> config.listen == value
    &&& cli.listen is None ==> (file.listen matches Some(value) ==> config.listen == value)
    &&& cli.listen is None && file.listen is None ==> config.listen == IpAddress::V4(0)
    &&& cli.port matches Some(value) ==> config.port == value
    &&& cli.port is None ==> (file.port matches Some(value) ==> config.port == value)
    &&& cli.port is None && file.port is None ==> config.port == 2721
    &&& cli.auth_mode matches Some(value) ==> config.auth_mode == value
    &&& cli.auth_mode is None ==> (file.auth_mode matches Some(value) ==> config.auth_mode == value)
    &&& cli.auth_mode is None && file.auth_mode is None ==> config.auth_mode == AuthMode::Token
    &&& cli.token_file matches Some(value) ==> config.token_file == value
    &&& cli.token_file is None ==> (
    file.token_file matches Some(value) ==> config.token_file == value
    )
    &&& cli.token_file is None && file.token_file is None ==> config.token_file == token_default
    &&& cli.pairing_code_ttl_seconds matches Some(value)
        ==> config.pairing_code_ttl_seconds == value
    &&& cli.pairing_code_ttl_seconds is None ==> (
    file.pairing_code_ttl_seconds matches Some(value) ==> config.pairing_code_ttl_seconds == value
    )
    &&& cli.pairing_code_ttl_seconds is None && file.pairing_code_ttl_seconds is None
        ==> config.pairing_code_ttl_seconds == 300
    &&& cli.session_ttl_seconds matches Some(value) ==> config.session_ttl_seconds == value
    &&& cli.session_ttl_seconds is None ==> (
    file.session_ttl_seconds matches Some(value) ==> config.session_ttl_seconds == value
    )
    &&& cli.session_ttl_seconds is None && file.session_ttl_seconds is None
        ==> config.session_ttl_seconds == 43_200
    &&& cli.backend matches Some(value) ==> config.backend == value
    &&& cli.backend is None ==> (file.backend matches Some(value) ==> config.backend == value)
    &&& cli.backend is None && file.backend is None ==> config.backend == BackendKind::Auto
    &&& cli.max_clients matches Some(value) ==> config.max_clients == value
    &&& cli.max_clients is None ==> (
    file.max_clients matches Some(value) ==> config.max_clients == value
    )
    &&& cli.max_clients is None && file.max_clients is None ==> config.max_clients == 1
    &&& cli.pointer_sensitivity_bits matches Some(value)
        ==> config.pointer_sensitivity_bits == value
    &&& cli.pointer_sensitivity_bits is None ==> (
    file.pointer_sensitivity_bits matches Some(value) ==> config.pointer_sensitivity_bits == value
    )
    &&& cli.pointer_sensitivity_bits is None && file.pointer_sensitivity_bits is None
        ==> config.pointer_sensitivity_bits == 0x3ff0_0000_0000_0000
    &&& cli.tls_cert is Some ==> config.tls_cert == cli.tls_cert
    &&& cli.tls_cert is None ==> config.tls_cert == file.tls_cert
    &&& cli.tls_key is Some ==> config.tls_key == cli.tls_key
    &&& cli.tls_key is None ==> config.tls_key == file.tls_key
    &&& cli.log_level matches Some(value) ==> config.log_level == value@
    &&& cli.log_level is None ==> (
    file.log_level matches Some(value) ==> config.log_level == value@
    )
    &&& cli.log_level is None && file.log_level is None ==> config.log_level == "info"@
    &&& cli.mouse_name matches Some(value) ==> config.mouse_name == value@
    &&& cli.mouse_name is None ==> (
    file.mouse_name matches Some(value) ==> config.mouse_name == value@
    )
    &&& cli.mouse_name is None && file.mouse_name is None
        ==> config.mouse_name == "Portway virtual mouse"@
    &&& cli.keyboard_name matches Some(value) ==> config.keyboard_name == value@
    &&& cli.keyboard_name is None ==> (
    file.keyboard_name matches Some(value) ==> config.keyboard_name == value@
    )
    &&& cli.keyboard_name is None && file.keyboard_name is None
        ==> config.keyboard_name == "Portway virtual keyboard"@
    &&& cli.allowed_origins@.len() > 0 ==> config.allowed_origins == texts(cli.allowed_origins@)
    &&& cli.allowed_origins@.len() == 0 ==> (
    file.allowed_origins matches Some(value) ==> config.allowed_origins == texts(value@)
    )
    &&& cli.allowed_origins@.len() == 0 && file.allowed_origins is None
        ==> config.allowed_origins.len() == 0
    &&& file.pairing_socket matches Some(value) ==> config.pairing_socket == value
    &&& file.pairing_socket is None ==> config.pairing_socket == socket_default
    &&& file.pairing_allowed_uids matches Some(value) ==> config.pairing_allowed_uids == value@
    &&& file.pairing_allowed_uids is None ==> config.pairing_allowed_uids.len() == 0
    &&& config.config_path == config_path
}

/// What is said on the command line counts, whatever the file says; what only the file says counts
/// before the default; and where nothing is said the documented default counts. The socket and the
/// users that may ask for codes are a matter of the file alone.
pub proof fn law_command_line_before_file_before_default(
    config_path: PathBuf,
    token_default: PathBuf,
    socket_default: PathBuf,
    cli: ServeOptions,
    file: FileConfig,
)
    ensures
        in_order(
            ConfigModel::resolved(config_path, token_default, socket_default, cli, file),
            config_path,
            token_default,
            socket_default,
            cli,
            file,
        ),
{
}

/// A configuration that is accepted keeps to the documented bounds, and one that keeps to them is
/// accepted.
pub proof fn law_accepted_configuration_is_in_bounds(config: ConfigModel)
    ensures
        config.fault() is None <==> {
            &&& 1 <= config.port <= 65_535
            &&& 1 <= config.max_clients <= 8
            &&& config.tls_cert is Some <==> config.tls_key is Some
            &&& 30 <= config.pairing_code_ttl_seconds <= 3_600
            &&& 300 <= config.session_ttl_seconds <= 604_800
            &&& sensitivity_in_range(config.pointer_sensitivity_bits)
            &&& 1 <= encode_utf8(config.mouse_name).len() <= 79
            &&& 1 <= encode_utf8(config.keyboard_name).len() <= 79
            &&& forall|i: int|
                0 <= i < config.allowed_origins.len() ==> web_origin(
                    #[trigger] config.allowed_origins[i],
                )
        },
{
    lemma_origins(config.allowed_origins);
}

/// A configuration is refused for a setting that is really out of bounds.
pub proof fn law_refusal_names_a_broken_setting(config: ConfigModel)
    ensures
        match config.fault() {
            None => true,
            Some(ConfigFault::Port) => config.port < 1,
            Some(ConfigFault::MaxClients) => config.max_clients < 1 || config.max_clients > 8,
            Some(ConfigFault::TlsPair) => config.tls_cert is Some <==> config.tls_key is None,
            Some(ConfigFault::PairingCodeTtl) => config.pairing_code_ttl_seconds < 30
                || config.pairing_code_ttl_seconds > 3_600,
            Some(ConfigFault::SessionTtl) => config.session_ttl_seconds < 300
                || config.session_ttl_seconds > 604_800,
            Some(ConfigFault::PointerSensitivity) => !sensitivity_in_range(
                config.pointer_sensitivity_bits,
            ),
            Some(ConfigFault::MouseName) => encode_utf8(config.mouse_name).len() < 1
                || encode_utf8(config.mouse_name).len() > 79,
            Some(ConfigFault::KeyboardName) => encode_utf8(config.keyboard_name).len() < 1
                || encode_utf8(config.keyboard_name).len() > 79,
            Some(ConfigFault::InvalidOrigin(origin)) => config.allowed_origins.contains(origin)
                && uri_parts(origin) is None,
            Some(ConfigFault::RelativeOrigin(origin)) => config.allowed_origins.contains(origin)
                && (uri_parts(origin) matches Some((scheme, authority, _)) && (authority is None
                || (scheme != Some("http"@) && scheme != Some("https"@)))),
            Some(ConfigFault::OriginPath(origin)) => config.allowed_origins.contains(origin) && (
            uri_parts(origin) matches Some((_, _, path)) && path is Some && path != Some("/"@)),
            Some(ConfigFault::Unreadable(_)) => false,
            Some(ConfigFault::Malformed(_)) => false,
        },
{
    lemma_refused_origin(config.allowed_origins);
}

/// An absolute origin of the web: a scheme that is `http` or `https`, an authority, and no path.
pub open spec fn web_origin(origin: Seq<char>) -> bool {
    uri_parts(origin) matches Some((scheme, authority, path)) && {
        &&& scheme == Some("http"@) || scheme == Some("https"@)
        &&& authority is Some
        &&& path is None || path == Some("/"@)
    }
}

proof fn lemma_origins(origins: Seq<Seq<char>>)
    ensures
        origins_fault(origins) is None <==> forall|i: int|
            0 <= i < origins.len() ==> web_origin(#[trigger] origins[i]),
    decreases origins.len(),
{
    if origins.len() > 0 {
        let rest = origins.drop_first();
        lemma_origins(rest);
        assert(forall|i: int| 0 <= i < rest.len() ==> rest[i] == origins[i + 1]);
        if web_origin(origins[0]) && origins_fault(rest) is None {
            assert forall|i: int| 0 <= i < origins.len() implies web_origin(
                #[trigger] origins[i],
            ) by {
                if i > 0 {
                    assert(web_origin(rest[i - 1]));
                }
            }
        }
        if forall|i: int| 0 <= i < origins.len() ==> web_origin(#[trigger] origins[i]) {
            assert(web_origin(origins[0]));
            assert forall|i: int| 0 <= i < rest.len() implies web_origin(#[trigger] rest[i]) by {
                assert(web_origin(origins[i + 1]));
            }
        }
    }
}

proof fn lemma_refused_origin(origins: Seq<Seq<char>>)
    ensures
        match origins_fault(origins) {
            None => true,
            Some(fault) => exists|i: int|
                0 <= i < origins.len() && origin_fault(
                    #[trigger] origins[i],
                    uri_parts(origins[i]),
                ) == Some(fault),
        },
    decreases origins.len(),
{
    if origins.len() > 0 && origin_fault(origins[0], uri_parts(origins[0])) is None {
        let rest = origins.drop_first();
        lemma_refused_origin(rest);
        if let Some(fault) = origins_fault(rest) {
            let i = choose|i: int|
                0 <= i < rest.len() && origin_fault(#[trigger] rest[i], uri_parts(rest[i])) == Some(
                    fault,
                );
            assert(origins[i + 1] == rest[i]);
        }
    } else if origins.len() > 0 {
        assert(origin_fault(origins[0], uri_parts(origins[0])) == origins_fault(origins));
    }
}

} // verus!

//! Configuration values of the host and their defaults.

use vstd::prelude::*;

verus! {

/// Default port of the mDNS advertisement.
pub const DEFAULT_DISCOVER_PORT: u16 = 8521;

/// Default port of the admission server.
pub const DEFAULT_LOGIN_PORT: u16 = 8522;

/// Default port of the touch transport.
pub const DEFAULT_BACKEND_PORT: u16 = 8523;

#[derive(Debug, Clone, Copy, PartialEq, Eq, Structural)]
pub enum LogLevel {
    Debug,
    Info,
    Warn,
    Error,
}

/// Configuration of the host.
#[derive(Debug, Clone)]
pub struct TouchpadConfig {
    pub discover_port: u16,
    pub login_port: u16,
    pub backend_port: u16,
    /// Address to bind and advertise; the first capable interface otherwise.
    pub ip: Option<String>,
    pub log_level: LogLevel,
    /// Certificate and key files; generated when absent.
    pub cert_pem: Option<String>,
    pub key_pem: Option<String>,
}

/// Configuration of the daemon.
#[derive(Debug, Clone)]
pub struct Config {
    pub listen_addr: String,
    pub log_level: LogLevel,
}

/// The default discover port.
pub fn default_port() -> (r: u16)
    ensures
        r == DEFAULT_DISCOVER_PORT,
{
    DEFAULT_DISCOVER_PORT
}

/// The default log level.
pub fn default_log_level() -> (r: LogLevel)
    ensures
        r == LogLevel::Info,
{
    LogLevel::Info
}

/// Whether `a` and `b` hold the same bytes.
fn bytes_equal(a: &[u8], b: &[u8]) -> (r: bool)
    ensures
        r == (a@ == b@),
{
    if a.len() != b.len() {
        return false;
    }
    let mut i: usize = 0;
    while i < a.len()
        invariant
            a@.len() == b@.len(),
            i <= a@.len(),
            forall|k: int| 0 <= k < i ==> a@[k] == b@[k],
        decreases a@.len() - i,
    {
        if a[i] != b[i] {
            return false;
        }
        i = i + 1;
    }
    assert(a@ =~= b@);
    true
}

/// The bytes of a level's name in a configuration file.
pub open spec fn level_name(l: LogLevel) -> Seq<u8> {
    match l {
        LogLevel::Debug => seq![100u8, 101, 98, 117, 103],
        LogLevel::Info => seq![105u8, 110, 102, 111],
        LogLevel::Warn => seq![119u8, 97, 114, 110],
        LogLevel::Error => seq![101u8, 114, 114, 111, 114],
    }
}

impl LogLevel {
    /// The level named `name` (`debug`, `info`, `warn` or `error`).
    pub fn from_name(name: &[u8]) -> (r: Option<LogLevel>)
        ensures
            match r {
                Some(l) => level_name(l) == name@,
                None => forall|l: LogLevel| level_name(l) != name@,
            },
    {
        let debug: [u8; 5] = [100, 101, 98, 117, 103];
        let info: [u8; 4] = [105, 110, 102, 111];
        let warn: [u8; 4] = [119, 97, 114, 110];
        let error: [u8; 5] = [101, 114, 114, 111, 114];
        assert(debug@ =~= level_name(LogLevel::Debug));
        assert(info@ =~= level_name(LogLevel::Info));
        assert(warn@ =~= level_name(LogLevel::Warn));
        assert(error@ =~= level_name(LogLevel::Error));
        if bytes_equal(name, debug.as_slice()) {
            Some(LogLevel::Debug)
        } else if bytes_equal(name, info.as_slice()) {
            Some(LogLevel::Info)
        } else if bytes_equal(name, warn.as_slice()) {
            Some(LogLevel::Warn)
        } else if bytes_equal(name, error.as_slice()) {
            Some(LogLevel::Error)
        } else {
            None
        }
    }
}

impl TouchpadConfig {
    /// The configuration with every default: the three default ports, no
    /// address, level `info`, no certificate files.
    pub fn defaults() -> (r: TouchpadConfig)
        ensures
            r.discover_port == DEFAULT_DISCOVER_PORT,
            r.login_port == DEFAULT_LOGIN_PORT,
            r.backend_port == DEFAULT_BACKEND_PORT,
            r.ip is None,
            r.log_level == LogLevel::Info,
            r.cert_pem is None,
            r.key_pem is None,
    {
        TouchpadConfig {
            discover_port: default_port(),
            login_port: DEFAULT_LOGIN_PORT,
            backend_port: DEFAULT_BACKEND_PORT,
            ip: None,
            log_level: default_log_level(),
            cert_pem: None,
            key_pem: None,
        }
    }
}

} // verus!

use touchpad_core::config::{default_log_level, default_port, LogLevel, TouchpadConfig};
use touchpad_core::params::{hash_seed, mdns_server_type, rand_string};

#[test]
fn test_rand_string() {
    let s = rand_string(10);
    println!("{}", s);
    assert_eq!(s.len(), 10);
    assert!(s.chars().all(|c| c.is_alphabetic()));
}

#[test]
fn test_seed_constant() {
    assert_eq!(hash_seed(), "0x1234567890ABCDEF");
}

#[test]
fn service_type() {
    assert_eq!(mdns_server_type(), "_touchpad._tcp.local.");
}

#[test]
fn empty_random_string() {
    assert_eq!(rand_string(0), "");
}

#[test]
fn config_defaults() {
    assert_eq!(default_port(), 8521);
    assert_eq!(default_log_level(), LogLevel::Info);
    let c = TouchpadConfig::defaults();
    assert_eq!((c.discover_port, c.login_port, c.backend_port), (8521, 8522, 8523));
    assert!(c.ip.is_none() && c.cert_pem.is_none() && c.key_pem.is_none());
}

#[test]
fn log_level_names() {
    assert_eq!(LogLevel::from_name(b"debug"), Some(LogLevel::Debug));
    assert_eq!(LogLevel::from_name(b"info"), Some(LogLevel::Info));
    assert_eq!(LogLevel::from_name(b"warn"), Some(LogLevel::Warn));
    assert_eq!(LogLevel::from_name(b"error"), Some(LogLevel::Error));
    assert_eq!(LogLevel::from_name(b"trace"), None);
}

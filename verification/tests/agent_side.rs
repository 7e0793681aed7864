use detect_core::agent::{
    collect_network_metrics, diff_processes, record_fs_change, should_exclude, should_flush,
};
use detect_core::config::{
    env_var_name, FimConfig, FimPath, LoggingConfig, ManagerConfig, NetmonConfig, ProcmonConfig,
    TelemetryConfig, TlsConfig,
};
use detect_core::crypto::{generate_agent_key, verify_signature};
use detect_core::hashing::{hash_bytes, to_hex};
use detect_core::platform::{LinuxPlatform, MacOSPlatform, PlatformInfo, WindowsPlatform};
use ring::signature::KeyPair;

#[test]
fn test_generate_agent_key() {
    let key1 = generate_agent_key().expect("randomness should be available");
    let key2 = generate_agent_key().expect("randomness should be available");
    assert_ne!(key1, key2);
    assert_eq!(key1.len(), 44);
}

#[test]
fn test_hash_file_blake3() {
    let hash = hash_bytes(&b"test content".to_vec(), "blake3");
    assert!(!hash.is_empty());
    assert_eq!(hash.len(), 64);
}

#[test]
fn test_hash_file_sha256() {
    let hash = hash_bytes(&b"test content".to_vec(), "sha256");
    assert!(!hash.is_empty());
    assert_eq!(hash.len(), 64);
}

#[test]
fn test_sha256_known_digest() {
    // The standard test vector pins the wrapper to the real function.
    let hash = hash_bytes(&b"abc".to_vec(), "sha256");
    assert_eq!(
        hash,
        "ba7816bf8f01cfea414140de5dae2223b00361a396177a9cb410ff61f20015ad"
    );
}

#[test]
fn test_hex_rendering() {
    assert_eq!(to_hex(&vec![0x00, 0xff, 0x1a]), "00ff1a");
    assert_eq!(to_hex(&vec![]), "");
}

#[test]
fn test_signature_verification_round_trip() {
    let rng = ring::rand::SystemRandom::new();
    let pkcs8 = ring::signature::Ed25519KeyPair::generate_pkcs8(&rng).unwrap();
    let key_pair = ring::signature::Ed25519KeyPair::from_pkcs8(pkcs8.as_ref()).unwrap();
    let public_key = key_pair.public_key().as_ref().to_vec();
    let message = b"agent binary bytes".to_vec();
    let signature = key_pair.sign(&message).as_ref().to_vec();
    assert!(verify_signature(&message, &signature, &public_key));
    let mut tampered = message.clone();
    tampered[0] ^= 1;
    assert!(!verify_signature(&tampered, &signature, &public_key));
}

#[test]
fn test_env_var_name_extraction() {
    assert_eq!(env_var_name("${TEST_VAR}"), Some("TEST_VAR".to_string()));
    assert_eq!(env_var_name("plain_value"), None);
    assert_eq!(env_var_name("${}"), Some("".to_string()));
    assert_eq!(env_var_name("${open"), None);
}

#[test]
fn test_config_defaults() {
    let manager = ManagerConfig::default();
    assert_eq!(manager.url, "https://manager.siem-plus.io");
    assert_eq!(manager.tenant_id, "default");
    assert_eq!(manager.agent_key, "");
    let tls = TlsConfig::default();
    assert!(tls.verify_server);
    assert!(tls.ca_cert.is_none());
    let fim = FimConfig::default();
    assert!(fim.enabled);
    assert_eq!(fim.scan_interval, 300);
    assert_eq!(fim.hash_algorithm, "blake3");
    assert!(ProcmonConfig::default().enabled);
    assert!(NetmonConfig::default().track_dns);
    let telemetry = TelemetryConfig::default();
    assert!(telemetry.enabled);
    assert_eq!(telemetry.interval, 60);
    assert_eq!(telemetry.metrics, vec!["cpu", "memory", "disk"]);
    let logging = LoggingConfig::default();
    assert_eq!(logging.level, "info");
    assert_eq!(logging.format, "json");
}

#[test]
fn test_should_exclude_patterns() {
    let config = FimConfig {
        enabled: true,
        paths: vec![FimPath {
            path: "/etc".to_string(),
            recursive: true,
            exclude: vec![".swp".to_string(), "~".to_string()],
        }],
        scan_interval: 300,
        hash_algorithm: "blake3".to_string(),
    };
    assert!(should_exclude("/etc/passwd.swp", &config));
    assert!(should_exclude("/etc/motd~", &config));
    assert!(!should_exclude("/etc/passwd", &config));
}

#[test]
fn test_fim_cache_records_changes() {
    let mut cache: Vec<(String, String)> = Vec::new();
    let before = record_fs_change(&mut cache, "/etc/passwd", Some("h1".to_string()));
    assert_eq!(before, None);
    let before = record_fs_change(&mut cache, "/etc/passwd", Some("h2".to_string()));
    assert_eq!(before, Some("h1".to_string()));
    let before = record_fs_change(&mut cache, "/etc/passwd", None);
    assert_eq!(before, Some("h2".to_string()));
    assert!(cache.is_empty());
}

#[test]
fn test_diff_processes_started_and_stopped() {
    let known = vec![(1u32, "init".to_string()), (10, "sshd".to_string())];
    let current = vec![
        (1u32, "init".to_string()),
        (11, "bash".to_string()),
        (12, "vim".to_string()),
    ];
    let started = diff_processes(&current, &known);
    assert_eq!(
        started,
        vec![(11u32, "bash".to_string()), (12, "vim".to_string())]
    );
    let stopped = diff_processes(&known, &current);
    assert_eq!(stopped, vec![(10u32, "sshd".to_string())]);
}

#[test]
fn test_should_flush_policy() {
    assert!(should_flush(100, 100, 0, 10));
    assert!(should_flush(150, 100, 0, 10));
    assert!(!should_flush(5, 100, 3, 10));
    assert!(should_flush(5, 100, 10, 10));
    assert!(!should_flush(0, 100, 60, 10));
}

#[test]
fn test_collect_network_metrics_sums() {
    let interfaces = vec![(10u64, 20u64, 1u64, 2u64), (5, 7, 3, 4)];
    let m = collect_network_metrics(&interfaces);
    assert_eq!(m.bytes_sent, 15);
    assert_eq!(m.bytes_received, 27);
    assert_eq!(m.packets_sent, 4);
    assert_eq!(m.packets_received, 6);
    let saturating = vec![(u64::MAX, 0u64, 0u64, 0u64), (1, 0, 0, 0)];
    assert_eq!(collect_network_metrics(&saturating).bytes_sent, u64::MAX);
}

#[test]
fn test_platform_info_names() {
    assert_eq!(LinuxPlatform.os_name(), "Linux");
    assert_eq!(MacOSPlatform.os_name(), "macOS");
    assert_eq!(WindowsPlatform.os_name(), "Windows");
    assert_eq!(WindowsPlatform.os_version(), "10");
    assert_eq!(LinuxPlatform.hostname(), "localhost");
}

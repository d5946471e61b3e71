//! TURN credentials, hashing, and server settings.

use webrtc_room::server::config::{stylesheet_path, turn_settings, MAX_PARTICIPANTS};
use webrtc_room::server::turn::{credentials_for, generate_credentials, hash_id};

#[test]
fn credentials_are_signed_user_names() {
    let creds = credentials_for(
        "dev-secret-change-me",
        "localhost",
        3478,
        3600,
        1_700_003_600,
        0x0123_4567_89ab_cdef,
    );
    assert_eq!(creds.username, "1700003600:0123456789abcdef");
    assert_eq!(creds.credential, "jRWpjeAii1PhP+KA2R6XQDRU56s=");
    assert_eq!(creds.credential.len(), 28);
    assert_eq!(creds.ttl_secs, 3600);
    assert_eq!(
        creds.urls,
        vec![
            "turn:localhost:3478".to_string(),
            "turn:localhost:3478?transport=udp".to_string(),
            "stun:localhost:3478".to_string(),
        ]
    );
}

#[test]
fn credentials_at_the_limits() {
    let empty = credentials_for("", "h", 0, 0, 0, 0);
    assert_eq!(empty.username, "0:0000000000000000");
    assert_eq!(empty.credential, "M4sFX5SYgYPZsux9yobj4wB/lcI=");
    let long = credentials_for(&"s".repeat(100), "h", 65535, 1, u64::MAX, u64::MAX);
    assert_eq!(long.username, "18446744073709551615:ffffffffffffffff");
    assert_eq!(long.credential, "Eljl1Ih0g4PO8o6E9lAcknYzvC0=");
    assert_eq!(long.urls[0], "turn:h:65535");
}

#[test]
fn generated_credentials_expire_after_their_lifetime() {
    let creds = generate_credentials("secret", "h", 1, 60, 1_000);
    let (expires, id) = creds.username.split_once(':').unwrap();
    assert_eq!(expires, "1060");
    assert_eq!(id.len(), 16);
    let id = u64::from_str_radix(id, 16).unwrap();
    assert_eq!(
        credentials_for("secret", "h", 1, 60, 1_060, id).credential,
        creds.credential
    );
}

#[test]
fn generated_credentials_differ() {
    let one = generate_credentials("secret", "h", 1, 60, 1_000);
    let two = generate_credentials("secret", "h", 1, 60, 1_000);
    assert_ne!(one.username, two.username);
}

#[test]
fn identifiers_hash_to_sha256() {
    assert_eq!(
        hash_id("abc"),
        "ba7816bf8f01cfea414140de5dae2223b00361a396177a9cb410ff61f20015ad"
    );
    assert_eq!(
        hash_id(""),
        "e3b0c44298fc1c149afbf4c8996fb92427ae41e4649b934ca495991b7852b855"
    );
    assert_eq!(
        hash_id("\u{e9}"),
        "4a99557e4033c3539de2eb65472017cad5f9557f7a0625a09f1c3f6e2ba69c4c"
    );
}

#[test]
fn settings_fall_back_to_defaults() {
    let settings = turn_settings(None, None, None);
    assert_eq!(settings.secret, "dev-secret-change-me");
    assert_eq!(settings.host, "localhost");
    assert_eq!(settings.port, 3478);
    assert!(settings.insecure);
    assert_eq!(MAX_PARTICIPANTS, 4);
}

#[test]
fn settings_come_from_the_environment() {
    let settings = turn_settings(
        Some("s3cret".to_string()),
        Some("turn.example.com".to_string()),
        Some("5349".to_string()),
    );
    assert_eq!(settings.secret, "s3cret");
    assert_eq!(settings.host, "turn.example.com");
    assert_eq!(settings.port, 5349);
    assert!(!settings.insecure);
    for bad in ["", "no", "65536", "-1", " 1"] {
        assert_eq!(turn_settings(None, None, Some(bad.to_string())).port, 3478);
    }
}

#[test]
fn the_stylesheet_is_named_after_the_site() {
    assert_eq!(stylesheet_path("pkg", "room"), "/pkg/room.css");
}

use lan_cat::config::{hostname, Config, ConfigError, CursorConfig, Peer};
use lan_cat::network::device_id;

fn config() -> Config {
    Config::create(Some("laptop".into())).unwrap()
}

#[test]
fn new_config_is_valid() {
    let cfg = config();
    assert_eq!(cfg.validate(), Ok(()));
    assert_eq!(cfg.version, 1);
    assert_eq!(cfg.name, "laptop");
    assert_eq!(cfg.private_key.len(), 64);
    assert!(!cfg.paused);
    assert!(!cfg.cursor.enabled);
    assert_eq!(cfg.peers.len(), 0);
}

#[test]
fn keys_belong_together_and_differ() {
    let a = config();
    let b = config();
    assert_ne!(a.private_key, b.private_key);
    assert_ne!(a.private_key, a.public_key);
    let public = x25519_dalek::x25519(
        a.private_key_bytes().unwrap(),
        x25519_dalek::X25519_BASEPOINT_BYTES,
    );
    assert_eq!(public, a.public_key().unwrap());
}

#[test]
fn cursor_sharing_is_off_by_default() {
    assert!(!CursorConfig::default().enabled);
}

#[test]
fn host_names_are_cut() {
    assert_eq!(hostname(None), "lan-cat");
    assert_eq!(hostname(Some(String::new())), "lan-cat");
    assert_eq!(hostname(Some("desk".into())), "desk");
    assert_eq!(hostname(Some("x".repeat(70))), "x".repeat(63));
}

#[test]
fn names_are_trimmed_and_checked() {
    let mut cfg = config();
    assert_eq!(cfg.set_name("  My Laptop ".into()), Ok(()));
    assert_eq!(cfg.name, "My Laptop");
    for bad in ["", "   ", "a\nb", "a\u{7f}"] {
        assert_eq!(cfg.set_name(bad.into()), Err(ConfigError::InvalidName));
        assert_eq!(cfg.name, "My Laptop");
    }
    assert_eq!(cfg.set_name("x".repeat(64)), Err(ConfigError::InvalidName));
    assert_eq!(cfg.set_name("x".repeat(63)), Ok(()));
    assert_eq!(cfg.set_name("\u{e9}".repeat(64)), Err(ConfigError::InvalidName));
    assert_eq!(cfg.set_name("\u{e9}".repeat(63)), Ok(()));
    assert_eq!(cfg.name, "\u{e9}".repeat(63));
}

#[test]
fn new_devices_have_their_keys_and_nothing_else() {
    let cfg = Config::with_keys(Some("desk".into()), &[0x0f; 32], &[0xa0; 32]);
    assert_eq!(cfg.version, 1);
    assert_eq!(cfg.name, "desk");
    assert_eq!(cfg.private_key, "0f".repeat(32));
    assert_eq!(cfg.public_key, "a0".repeat(32));
    assert_eq!(cfg.private_key_bytes(), Ok([0x0f; 32]));
    assert_eq!(cfg.public_key(), Ok([0xa0; 32]));
    assert!(!cfg.paused);
    assert_eq!(cfg.peers.len(), 0);
    assert!(!cfg.cursor.enabled);
    assert_eq!(cfg.validate(), Ok(()));
    assert_eq!(
        Config::with_keys(None, &[1; 31], &[2; 32]).validate(),
        Err(ConfigError::PrivateKeyLength)
    );
}

#[test]
fn damaged_configs_are_refused() {
    let mut cfg = config();
    cfg.version = 2;
    assert_eq!(cfg.validate(), Err(ConfigError::UnsupportedVersion(2)));
    let mut cfg = config();
    cfg.private_key = "zz".repeat(32);
    assert_eq!(cfg.private_key_bytes(), Err(ConfigError::PrivateKeyNotHex));
    cfg.private_key = "00".repeat(31);
    assert_eq!(cfg.private_key_bytes(), Err(ConfigError::PrivateKeyLength));
    cfg.public_key = "0".into();
    assert_eq!(cfg.public_key(), Err(ConfigError::PublicKeyNotHex));
    cfg.public_key = "00".repeat(33);
    assert_eq!(cfg.public_key(), Err(ConfigError::PublicKeyLength));
}

#[test]
fn keys_are_read_in_either_case() {
    let mut cfg = config();
    cfg.public_key = "aB".repeat(32);
    assert_eq!(cfg.public_key(), Ok([0xab; 32]));
}

#[test]
fn peers_survive_a_copy() {
    let mut cfg = config();
    cfg.peers.insert("id".into(), Peer { name: "n".into(), public_key: "00".repeat(32) });
    let copy = cfg.clone();
    assert_eq!(copy, cfg);
    assert_eq!(copy.peers.get("id").unwrap().name, "n");
    assert_eq!(device_id(&copy.public_key().unwrap()).len(), 32);
}

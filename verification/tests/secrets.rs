use kanade::codec::HexError;
use kanade::config::{
    default_bind, AddSubcommand, AppConfig, Args, Command, DbConfig, Forgejo, KeyError, ServerConfig,
};
use kanade::crypto::{CryptoEngine, CryptoError};
use kanade::error::AppError;
use kanade::forge::ForgeConfig;

fn engine() -> CryptoEngine {
    CryptoEngine::new((0u8..32).collect()).unwrap()
}

#[test]
fn decryption_gives_back_what_was_encrypted() {
    let e = engine();
    for text in ["", "hello", "비밀 값", "line\nbreak"] {
        let packed = e.encrypt(text).unwrap();
        assert_eq!(packed.len(), 12 + text.len() + 16);
        assert_eq!(e.decrypt(&packed).unwrap(), text);
    }
}

#[test]
fn each_encryption_uses_a_fresh_nonce() {
    let e = engine();
    let a = e.encrypt("same").unwrap();
    let b = e.encrypt("same").unwrap();
    assert_ne!(a[..12], b[..12]);
}

#[test]
fn keys_must_be_32_bytes() {
    assert!(matches!(CryptoEngine::new(vec![0; 31]), Err(CryptoError::InvalidKeyLength)));
    assert!(matches!(CryptoEngine::new(vec![0; 33]), Err(CryptoError::InvalidKeyLength)));
    assert!(CryptoEngine::new(vec![0; 32]).is_ok());
}

#[test]
fn short_or_altered_payloads_are_refused() {
    let e = engine();
    assert!(matches!(e.decrypt(&[0; 11]), Err(CryptoError::PayloadTooShort)));
    let mut packed = e.encrypt("hello").unwrap();
    let last = packed.len() - 1;
    packed[last] ^= 1;
    assert!(matches!(e.decrypt(&packed), Err(CryptoError::DecryptionFailed)));
    let other = CryptoEngine::new(vec![9; 32]).unwrap();
    let packed = e.encrypt("hello").unwrap();
    assert!(matches!(other.decrypt(&packed), Err(CryptoError::DecryptionFailed)));
}

#[test]
fn secret_errors_become_internal_errors() {
    match AppError::from_crypto(CryptoError::PayloadTooShort) {
        AppError::InternalError(m) => assert_eq!(m, "too short iphertext payload"),
        other => panic!("unexpected {other:?}"),
    }
    match AppError::from_crypto(CryptoError::InvalidKeyLength) {
        AppError::InternalError(m) => assert_eq!(m, "invalid key length"),
        other => panic!("unexpected {other:?}"),
    }
}

fn config(key: &str) -> AppConfig {
    AppConfig {
        server: ServerConfig::new(None, "https://ci.example".to_string()),
        db: DbConfig { url: "postgres://localhost/kanade".to_string() },
        encryption_key: key.to_string(),
        jwt_secret: "jwt".to_string(),
    }
}

#[test]
fn the_configured_key_is_read_from_hex() {
    let hexkey = "00".repeat(31) + "ff";
    let e = config(&hexkey).crypto_engine().unwrap();
    let packed = e.encrypt("x").unwrap();
    let direct = CryptoEngine::new([vec![0u8; 31], vec![0xff]].concat()).unwrap();
    assert_eq!(direct.decrypt(&packed).unwrap(), "x");
    assert!(matches!(config("abc").crypto_engine(), Err(KeyError::NotHex(HexError::OddLength))));
    assert!(matches!(
        config("abcd").crypto_engine(),
        Err(KeyError::Engine(AppError::InternalError(m))) if m == "invalid key length"
    ));
    assert!(matches!(
        config("zz").crypto_engine(),
        Err(KeyError::NotHex(HexError::InvalidHexCharacter { c: 'z', index: 0 }))
    ));
}

#[test]
fn the_server_binds_by_default_to_port_4000() {
    assert_eq!(default_bind(), "0.0.0.0:4000");
    let c = ServerConfig::new(None, "https://ci".to_string());
    assert_eq!(c.bind, "0.0.0.0:4000");
    assert_eq!(c.public_url, "https://ci");
    let c = ServerConfig::new(Some("127.0.0.1:9".to_string()), "https://ci".to_string());
    assert_eq!(c.bind, "127.0.0.1:9");
}

#[test]
fn the_server_reads_its_default_config_file() {
    let a = Args::new(None, Command::Serve);
    assert_eq!(a.config, "kanade-server.toml");
    assert!(matches!(a.command, Command::Serve));
    let a = Args::new(Some("other.toml".to_string()), Command::Migrate);
    assert_eq!(a.config, "other.toml");
}

#[test]
fn a_registered_forgejo_keeps_its_credentials() {
    let add = AddSubcommand::Forgejo(Forgejo {
        url: "https://forge".to_string(),
        client_id: "id".to_string(),
        client_secret: "secret".to_string(),
    });
    match add.forge_config() {
        ForgeConfig::Forgejo(f) => {
            assert_eq!(f.url, "https://forge");
            assert_eq!(f.client_id, "id");
            assert_eq!(f.client_secret, "secret");
        },
    }
}

#[test]
fn sealing_is_determined_by_the_nonce() {
    let e = engine();
    let nonce = [9u8; 12];
    let a = e.seal(&nonce, "payload").unwrap();
    let b = e.seal(&nonce, "payload").unwrap();
    assert_eq!(a, b);
    assert_eq!(&a[..12], &nonce);
    assert_eq!(a.len(), 12 + 7 + 16);
    assert_eq!(e.decrypt(&a).unwrap(), "payload");
    let c = e.seal(&[1u8; 12], "payload").unwrap();
    assert_ne!(a, c);
}

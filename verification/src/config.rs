//! The server's command line and configuration.
use vstd::prelude::*;
use vstd::string::*;

use crate::codec::{hex_decode_exact, hex_decode_spec, HexError};
use crate::crypto::{CryptoEngine, CryptoError, KEY_LEN};
use crate::error::{crypto_error_text, AppError};
use crate::forge::{ForgeConfig, ForgejoForgeConfig};

verus! {

/// Where the HTTP server listens and how it is reached from outside.
pub struct ServerConfig {
    pub bind: String,
    pub public_url: String,
}

/// The address the server listens on unless another is configured.
pub open spec fn default_bind_spec() -> Seq<char> {
    "0.0.0.0:4000"@
}

/// The address the server listens on unless another is configured.
pub fn default_bind() -> (s: String)
    ensures
        s@ == default_bind_spec(),
{
    String::from_str("0.0.0.0:4000")
}

impl ServerConfig {
    /// The server configuration with `bind` given or defaulted.
    pub fn new(bind: Option<String>, public_url: String) -> (c: ServerConfig)
        ensures
            c.bind@ == match bind {
                Some(b) => b@,
                None => default_bind_spec(),
            },
            c.public_url == public_url,
    {
        let bind = match bind {
            Some(b) => b,
            None => default_bind(),
        };
        ServerConfig { bind, public_url }
    }
}

/// The database connection.
pub struct DbConfig {
    pub url: String,
}

/// The whole configuration of the server.
pub struct AppConfig {
    pub server: ServerConfig,
    pub db: DbConfig,
    /// The AES-256 key for stored secrets, in hexadecimal.
    pub encryption_key: String,
    pub jwt_secret: String,
}

/// Why the configured encryption key is unusable: it is not hexadecimal,
/// or the engine refused it (with the error the service reports).
#[derive(Debug)]
pub enum KeyError {
    NotHex(HexError),
    Engine(AppError),
}

impl AppConfig {
    /// The engine for the configured encryption key, read from
    /// hexadecimal; it must decode to exactly 32 bytes.
    pub fn crypto_engine(&self) -> (r: Result<CryptoEngine, KeyError>)
        ensures
            ({
                let bytes = vstd::utf8::encode_utf8(self.encryption_key@);
                match hex_decode_spec(bytes, bytes.len() / 2) {
                    Err(e) => r matches Err(k) && k == KeyError::NotHex(e),
                    Ok(key) => if key.len() == KEY_LEN {
                        r matches Ok(c) && c@ == key
                    } else {
                        r matches Err(KeyError::Engine(AppError::InternalError(m))) && m@
                            == crypto_error_text(CryptoError::InvalidKeyLength)
                    },
                }
            }),
    {
        let bytes = self.encryption_key.as_str().as_bytes();
        let key = match hex_decode_exact(bytes, bytes.len() / 2) {
            Ok(k) => k,
            Err(e) => return Err(KeyError::NotHex(e)),
        };
        match CryptoEngine::new(key) {
            Ok(c) => Ok(c),
            Err(e) => Err(KeyError::Engine(AppError::from_crypto(e))),
        }
    }
}

/// The configuration file read unless another is named.
pub open spec fn default_server_config() -> Seq<char> {
    "kanade-server.toml"@
}

/// Listing the registered forges.
pub struct List {}

/// Removing a forge.
pub struct Delete {}

/// Changing a forge.
pub struct Configure {}

/// Registering a Forgejo instance.
pub struct Forgejo {
    pub url: String,
    pub client_id: String,
    pub client_secret: String,
}

/// The kinds of forge that can be registered.
pub enum AddSubcommand {
    Forgejo(Forgejo),
}

/// The forge management commands.
pub enum Subcommand {
    Add { subcommand: AddSubcommand, name: String },
    List(List),
    Delete(Delete),
    Configure(Configure),
}

/// What the server is asked to do.
pub enum Command {
    Serve,
    Migrate,
    Forge { subcommand: Subcommand },
}

/// The command line of the server.
pub struct Args {
    pub config: String,
    pub command: Command,
}

impl Args {
    /// The arguments with `config` given or defaulted to
    /// `kanade-server.toml`.
    pub fn new(config: Option<String>, command: Command) -> (a: Args)
        ensures
            a.config@ == match config {
                Some(c) => c@,
                None => default_server_config(),
            },
            a.command == command,
    {
        let config = match config {
            Some(c) => c,
            None => String::from_str("kanade-server.toml"),
        };
        Args { config, command }
    }
}

impl AddSubcommand {
    /// The configuration stored for a forge being registered.
    pub fn forge_config(self) -> (c: ForgeConfig)
        ensures
            match (self, c) {
                (AddSubcommand::Forgejo(f), ForgeConfig::Forgejo(g)) => g.url == f.url
                    && g.client_id == f.client_id && g.client_secret == f.client_secret,
            },
    {
        match self {
            AddSubcommand::Forgejo(f) => {
                let Forgejo { url, client_id, client_secret } = f;
                ForgeConfig::Forgejo(ForgejoForgeConfig { url, client_id, client_secret })
            },
        }
    }
}

} // verus!

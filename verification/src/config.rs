//! Bridge configuration: the sections of the config file, their defaults,
//! validation, and access control.
use vstd::prelude::*;
use vstd::string::*;

use crate::platform::{is_valid_matrix_user_id, spec_is_valid_matrix_user_id};
use crate::text::{ends_with, seq_ends_with, seq_starts_with, starts_with, str_eq, to_chars};

verus! {

/// Maximum media file size for uploads and downloads (200 MB).
pub const MAX_MEDIA_SIZE: usize = 209715200;

/// `[homeserver]`
#[derive(Debug, Clone)]
pub struct HomeserverConfig {
    pub url: String,
    pub domain: String,
}

/// `[appservice]`
#[derive(Clone)]
pub struct AppserviceConfig {
    pub id: String,
    pub address: String,
    pub port: u16,
    pub sender_localpart: String,
    pub as_token: String,
    pub hs_token: String,
    /// Prefix for puppet user localparts (`@{prefix}_{platform}_{user_id}:domain`).
    pub puppet_prefix: String,
    /// Optional API key for the Bridge HTTP API.
    pub api_key: Option<String>,
    /// Block webhook URLs targeting private/reserved IP ranges.
    pub webhook_ssrf_protection: bool,
    /// Matrix user IDs to auto-invite when the bridge creates a room.
    pub auto_invite: Vec<String>,
    /// Honour the `invite` field of room creation requests.
    pub allow_api_invite: bool,
    /// Forward messages from one external platform to another.
    pub allow_relay: bool,
}

/// `[database]`
#[derive(Debug, Clone)]
pub struct DatabaseConfig {
    pub path: String,
}

/// `[logging]`
#[derive(Debug, Clone)]
pub struct LoggingConfig {
    pub level: String,
}

/// `[encryption]`: end-to-bridge encryption.
#[derive(Clone)]
pub struct EncryptionConfig {
    pub allow: bool,
    pub default: bool,
    pub appservice: bool,
    pub crypto_store: String,
    pub crypto_store_passphrase: Option<String>,
    pub device_display_name: String,
    pub device_id: String,
    pub per_user_crypto: bool,
    pub puppet_device_prefix: String,
}

pub fn default_true() -> (r: bool)
    ensures
        r,
{
    true
}

pub fn default_crypto_store() -> (r: String)
    ensures
        r@ == "/data/crypto"@,
{
    String::from_str("/data/crypto")
}

pub fn default_device_name() -> (r: String)
    ensures
        r@ == "Matrix Bridge"@,
{
    String::from_str("Matrix Bridge")
}

pub fn default_device_id() -> (r: String)
    ensures
        r@ == "matrix_bridge"@,
{
    String::from_str("matrix_bridge")
}

pub fn default_puppet_device_prefix() -> (r: String)
    ensures
        r@ == "puppet"@,
{
    String::from_str("puppet")
}

pub fn default_address() -> (r: String)
    ensures
        r@ == "0.0.0.0"@,
{
    String::from_str("0.0.0.0")
}

pub fn default_port() -> (r: u16)
    ensures
        r == 29320,
{
    29320
}

pub fn default_puppet_prefix() -> (r: String)
    ensures
        r@ == "bot"@,
{
    String::from_str("bot")
}

pub fn default_log_level() -> (r: String)
    ensures
        r@ == "info"@,
{
    String::from_str("info")
}

impl Default for EncryptionConfig {
    fn default() -> (r: Self)
        ensures
            !r.allow,
            !r.default,
            r.appservice,
            r.crypto_store@ == "/data/crypto"@,
            r.crypto_store_passphrase is None,
            r.device_display_name@ == "Matrix Bridge"@,
            r.device_id@ == "matrix_bridge"@,
            !r.per_user_crypto,
            r.puppet_device_prefix@ == "puppet"@,
    {
        EncryptionConfig {
            allow: false,
            default: false,
            appservice: true,
            crypto_store: default_crypto_store(),
            crypto_store_passphrase: None,
            device_display_name: default_device_name(),
            device_id: default_device_id(),
            per_user_crypto: false,
            puppet_device_prefix: default_puppet_device_prefix(),
        }
    }
}

impl Default for LoggingConfig {
    fn default() -> (r: Self)
        ensures
            r.level@ == "info"@,
    {
        LoggingConfig { level: default_log_level() }
    }
}

/// Permission level for bridge access control, from least to most access.
#[derive(Debug, Clone, Copy, PartialEq, Eq, Structural, PartialOrd, Ord)]
pub enum PermissionLevel {
    /// No access: cannot use commands, messages not forwarded.
    NoAccess,
    /// Messages forwarded to external platforms; cannot invite the bot or
    /// use bot DM commands.
    Relay,
    /// Full access.
    Admin,
}

impl PermissionLevel {
    /// Position of the level in the order `None < Relay < Admin`.
    pub open spec fn spec_rank(self) -> nat {
        match self {
            PermissionLevel::NoAccess => 0,
            PermissionLevel::Relay => 1,
            PermissionLevel::Admin => 2,
        }
    }

    /// Position of the level in the order `None < Relay < Admin`.
    pub fn rank(&self) -> (r: u8)
        ensures
            r == self.spec_rank(),
    {
        match self {
            PermissionLevel::NoAccess => 0,
            PermissionLevel::Relay => 1,
            PermissionLevel::Admin => 2,
        }
    }

    /// `self >= other` in the order `None < Relay < Admin`.
    pub fn at_least(&self, other: &PermissionLevel) -> (r: bool)
        ensures
            r == (self.spec_rank() >= other.spec_rank()),
    {
        self.rank() >= other.rank()
    }
}

/// Access control: `admin` and `relay` lists of user patterns.
///
/// Each pattern is an exact user ID, a domain wildcard `@*:example.com`, or
/// `*`. When both lists are empty, everyone is an admin (open mode).
#[derive(Debug, Clone)]
pub struct PermissionsConfig {
    pub admin: Vec<String>,
    pub relay: Vec<String>,
    /// Minimum room power level for message forwarding in bridged rooms.
    pub relay_min_power_level: i64,
}

impl Default for PermissionsConfig {
    fn default() -> (r: Self)
        ensures
            r.admin@.len() == 0,
            r.relay@.len() == 0,
            r.relay_min_power_level == 0,
    {
        PermissionsConfig { admin: Vec::new(), relay: Vec::new(), relay_min_power_level: 0 }
    }
}

/// Whether one access pattern covers `sender`: `*`, the exact user ID, or
/// `@*{suffix}` where `sender` starts with `@` and ends with `suffix`.
pub open spec fn pattern_matches(pattern: Seq<char>, sender: Seq<char>) -> bool {
    ||| pattern == seq!['*']
    ||| pattern == sender
    ||| (seq_starts_with(pattern, seq!['@', '*']) && seq_starts_with(sender, seq!['@'])
        && seq_ends_with(sender, pattern.skip(2)))
}

/// Whether any pattern of the list covers `sender`.
pub open spec fn any_pattern_matches(patterns: Seq<String>, sender: Seq<char>) -> bool {
    exists|i: int| 0 <= i < patterns.len() && pattern_matches(#[trigger] patterns[i]@, sender)
}

impl PermissionsConfig {
    /// The permission level of `sender`: admin > relay > none; everyone is
    /// admin when both lists are empty.
    pub open spec fn spec_permission_level(&self, sender: Seq<char>) -> PermissionLevel {
        if self.admin@.len() == 0 && self.relay@.len() == 0 {
            PermissionLevel::Admin
        } else if any_pattern_matches(self.admin@, sender) {
            PermissionLevel::Admin
        } else if any_pattern_matches(self.relay@, sender) {
            PermissionLevel::Relay
        } else {
            PermissionLevel::NoAccess
        }
    }

    /// Check if a Matrix user ID is allowed to invite the bridge bot: only
    /// admins may (everyone in open mode).
    pub fn is_invite_allowed(&self, sender: &str) -> (r: bool)
        ensures
            r == (self.spec_permission_level(sender@) == PermissionLevel::Admin),
    {
        let level = self.permission_level(sender);
        level.at_least(&PermissionLevel::Admin)
    }

    /// Determine the permission level for a given Matrix user ID.
    pub fn permission_level(&self, sender: &str) -> (r: PermissionLevel)
        ensures
            r == self.spec_permission_level(sender@),
    {
        if self.admin.len() == 0 && self.relay.len() == 0 {
            return PermissionLevel::Admin;
        }
        if Self::matches(sender, &self.admin) {
            return PermissionLevel::Admin;
        }
        if Self::matches(sender, &self.relay) {
            return PermissionLevel::Relay;
        }
        PermissionLevel::NoAccess
    }

    /// Check if a sender matches any pattern in the list.
    pub fn matches(sender: &str, patterns: &Vec<String>) -> (r: bool)
        ensures
            r == any_pattern_matches(patterns@, sender@),
    {
        let mut i: usize = 0;
        while i < patterns.len()
            invariant
                i <= patterns@.len(),
                forall|j: int| 0 <= j < i ==> !pattern_matches(#[trigger] patterns@[j]@, sender@),
            decreases patterns@.len() - i,
        {
            if pattern_matches_one(patterns[i].as_str(), sender) {
                return true;
            }
            i = i + 1;
        }
        false
    }
}

/// Whether one access pattern covers `sender`.
pub fn pattern_matches_one(pattern: &str, sender: &str) -> (r: bool)
    ensures
        r == pattern_matches(pattern@, sender@),
{
    proof {
        reveal_strlit("*");
        reveal_strlit("@*");
        reveal_strlit("@");
        assert("*"@ =~= seq!['*']);
        assert("@*"@ =~= seq!['@', '*']);
        assert("@"@ =~= seq!['@']);
    }
    if str_eq(pattern, "*") || str_eq(pattern, sender) {
        return true;
    }
    if starts_with(pattern, "@*") && starts_with(sender, "@") {
        let v = to_chars(pattern);
        let suffix = crate::text::string_of(v.as_slice(), 2, v.len());
        assert(suffix@ =~= pattern@.skip(2));
        return ends_with(sender, suffix.as_str());
    }
    false
}

/// The whole configuration file, except the per-platform sections.
#[derive(Clone)]
pub struct AppConfig {
    pub homeserver: HomeserverConfig,
    pub appservice: AppserviceConfig,
    pub database: DatabaseConfig,
    pub logging: LoggingConfig,
    pub encryption: EncryptionConfig,
    pub permissions: PermissionsConfig,
}

/// The first configuration invariant that does not hold.
#[derive(Debug, Clone, PartialEq, Eq)]
pub enum ConfigError {
    EmptyHomeserverUrl,
    EmptyHomeserverDomain,
    EmptyAsToken,
    EmptyHsToken,
    EmptySenderLocalpart,
    ZeroPort,
    InvalidLogLevel,
    /// An `auto_invite` entry that is not a Matrix user ID.
    InvalidAutoInvite(String),
}

/// The accepted log levels.
pub open spec fn is_log_level(level: Seq<char>) -> bool {
    level == "trace"@ || level == "debug"@ || level == "info"@ || level == "warn"@ || level
        == "error"@
}

/// The first `auto_invite` entry that is not a valid user ID, if any.
pub open spec fn first_invalid_user(users: Seq<String>) -> Option<int> {
    if exists|i: int| 0 <= i < users.len() && !spec_is_valid_matrix_user_id(#[trigger] users[i]@) {
        Some(
            choose|i: int|
                0 <= i < users.len() && !spec_is_valid_matrix_user_id(#[trigger] users[i]@) && forall|
                    j: int,
                | 0 <= j < i ==> spec_is_valid_matrix_user_id(#[trigger] users[j]@),
        )
    } else {
        None
    }
}

impl AppConfig {
    /// What `validate` reports: the first check, in order, that fails.
    pub open spec fn spec_validate(&self) -> Result<(), ConfigError> {
        if self.homeserver.url@.len() == 0 {
            Err(ConfigError::EmptyHomeserverUrl)
        } else if self.homeserver.domain@.len() == 0 {
            Err(ConfigError::EmptyHomeserverDomain)
        } else if self.appservice.as_token@.len() == 0 {
            Err(ConfigError::EmptyAsToken)
        } else if self.appservice.hs_token@.len() == 0 {
            Err(ConfigError::EmptyHsToken)
        } else if self.appservice.sender_localpart@.len() == 0 {
            Err(ConfigError::EmptySenderLocalpart)
        } else if self.appservice.port == 0 {
            Err(ConfigError::ZeroPort)
        } else if !is_log_level(self.logging.level@) {
            Err(ConfigError::InvalidLogLevel)
        } else {
            match first_invalid_user(self.appservice.auto_invite@) {
                Some(i) => Err(ConfigError::InvalidAutoInvite(self.appservice.auto_invite@[i])),
                None => Ok(()),
            }
        }
    }

    /// Validate config invariants after loading.
    pub fn validate(&self) -> (r: Result<(), ConfigError>)
        ensures
            r == self.spec_validate(),
    {
        if self.homeserver.url.as_str().is_empty() {
            return Err(ConfigError::EmptyHomeserverUrl);
        }
        if self.homeserver.domain.as_str().is_empty() {
            return Err(ConfigError::EmptyHomeserverDomain);
        }
        if self.appservice.as_token.as_str().is_empty() {
            return Err(ConfigError::EmptyAsToken);
        }
        if self.appservice.hs_token.as_str().is_empty() {
            return Err(ConfigError::EmptyHsToken);
        }
        if self.appservice.sender_localpart.as_str().is_empty() {
            return Err(ConfigError::EmptySenderLocalpart);
        }
        if self.appservice.port == 0 {
            return Err(ConfigError::ZeroPort);
        }
        let level = self.logging.level.as_str();
        proof {
            reveal_strlit("trace");
            reveal_strlit("debug");
            reveal_strlit("info");
            reveal_strlit("warn");
            reveal_strlit("error");
        }
        if !(str_eq(level, "trace") || str_eq(level, "debug") || str_eq(level, "info") || str_eq(
            level,
            "warn",
        ) || str_eq(level, "error")) {
            return Err(ConfigError::InvalidLogLevel);
        }
        assert(is_log_level(self.logging.level@));
        let users = &self.appservice.auto_invite;
        let mut i: usize = 0;
        while i < users.len()
            invariant
                i <= users@.len(),
                users@ == self.appservice.auto_invite@,
                forall|j: int| 0 <= j < i ==> spec_is_valid_matrix_user_id(#[trigger] users@[j]@),
                is_log_level(self.logging.level@),
                self.homeserver.url@.len() != 0,
                self.homeserver.domain@.len() != 0,
                self.appservice.as_token@.len() != 0,
                self.appservice.hs_token@.len() != 0,
                self.appservice.sender_localpart@.len() != 0,
                self.appservice.port != 0,
            decreases users@.len() - i,
        {
            if !is_valid_matrix_user_id(users[i].as_str()) {
                proof {
                    let w = i as int;
                    assert(0 <= w < users@.len() && !spec_is_valid_matrix_user_id(users@[w]@));
                    assert(exists|k: int|
                        0 <= k < users@.len() && !spec_is_valid_matrix_user_id(#[trigger] users@[k]@)
                            && forall|j: int|
                            0 <= j < k ==> spec_is_valid_matrix_user_id(#[trigger] users@[j]@));
                    let c = first_invalid_user(users@)->0;
                    assert(c == w) by {
                        if c < w {
                            assert(spec_is_valid_matrix_user_id(users@[c]@));
                        } else if c > w {
                            assert(spec_is_valid_matrix_user_id(users@[w]@));
                        }
                    }
                    assert(first_invalid_user(users@) == Some(w));
                }
                return Err(ConfigError::InvalidAutoInvite(users[i].clone()));
            }
            i = i + 1;
        }
        Ok(())
    }
}

} // verus!

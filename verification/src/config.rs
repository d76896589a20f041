//! Configuration sections of the agent platform and their defaults (the
//! sections that hold floating-point settings live with the program).

use vstd::prelude::*;
use vstd::string::*;

verus! {

/// Options are on unless configured off.
pub fn bool_true() -> (r: bool)
    ensures
        r,
{
    true
}

/// API key when none is configured: empty.
pub fn default_api_key() -> (r: String)
    ensures
        r@ == Seq::<char>::empty(),
{
    String::new()
}

/// Provider when none is configured.
pub fn default_provider() -> (r: String)
    ensures
        r@ == "openai"@,
{
    String::from_str("openai")
}

/// Model when none is configured.
pub fn default_model() -> (r: String)
    ensures
        r@ == "gpt-4o-mini"@,
{
    String::from_str("gpt-4o-mini")
}

/// Local model file when none is configured.
pub fn default_model_path() -> (r: String)
    ensures
        r@ == "~/.bizclaw/models/tinyllama-1.1b-chat-v1.0.Q4_K_M.gguf"@,
{
    String::from_str("~/.bizclaw/models/tinyllama-1.1b-chat-v1.0.Q4_K_M.gguf")
}

/// Cache directory of the local brain.
pub fn default_cache_dir() -> (r: String)
    ensures
        r@ == "~/.bizclaw/cache"@,
{
    String::from_str("~/.bizclaw/cache")
}

/// Memory backend when none is configured.
pub fn default_memory_backend() -> (r: String)
    ensures
        r@ == "sqlite"@,
{
    String::from_str("sqlite")
}

/// Embedding provider when none is configured.
pub fn default_embedding_provider() -> (r: String)
    ensures
        r@ == "none"@,
{
    String::from_str("none")
}

/// Address the gateway listens on.
pub fn default_host() -> (r: String)
    ensures
        r@ == "127.0.0.1"@,
{
    String::from_str("127.0.0.1")
}

/// Autonomy level when none is configured.
pub fn default_autonomy_level() -> (r: String)
    ensures
        r@ == "supervised"@,
{
    String::from_str("supervised")
}

/// Runtime when none is configured.
pub fn default_runtime_kind() -> (r: String)
    ensures
        r@ == "native"@,
{
    String::from_str("native")
}

/// Tunnel provider when none is configured.
pub fn default_tunnel_provider() -> (r: String)
    ensures
        r@ == "none"@,
{
    String::from_str("none")
}

/// Zalo mode when none is configured.
pub fn default_zalo_mode() -> (r: String)
    ensures
        r@ == "personal"@,
{
    String::from_str("personal")
}

/// Where the Zalo cookie is kept.
pub fn default_cookie_path() -> (r: String)
    ensures
        r@ == "~/.bizclaw/zalo/cookie.json"@,
{
    String::from_str("~/.bizclaw/zalo/cookie.json")
}

/// Threads of the local brain.
pub fn default_threads() -> (r: u32)
    ensures
        r == 4,
{
    4
}

/// Tokens generated per reply by the local brain.
pub fn default_max_tokens() -> (r: u32)
    ensures
        r == 256,
{
    256
}

/// Context length of the local brain.
pub fn default_context_length() -> (r: u32)
    ensures
        r == 2048,
{
    2048
}

/// Port the gateway listens on.
pub fn default_port() -> (r: u16)
    ensures
        r == 3000,
{
    3000
}

/// Milliseconds before a Zalo reconnection.
pub fn default_reconnect_delay() -> (r: u64)
    ensures
        r == 5000,
{
    5000
}

/// Zalo messages allowed per minute.
pub fn default_max_per_minute() -> (r: u32)
    ensures
        r == 20,
{
    20
}

/// Zalo messages allowed per hour.
pub fn default_max_per_hour() -> (r: u32)
    ensures
        r == 200,
{
    200
}

/// Milliseconds of pause after a Zalo error.
pub fn default_cooldown() -> (r: u64)
    ensures
        r == 30000,
{
    30000
}

/// IMAP port of the email channel.
pub fn default_imap_port_cfg() -> (r: u16)
    ensures
        r == 993,
{
    993
}

/// SMTP port of the email channel.
pub fn default_smtp_port_cfg() -> (r: u16)
    ensures
        r == 587,
{
    587
}

/// Commands allowed to the agent when none are configured.
pub open spec fn allowed_commands_default() -> Seq<Seq<char>> {
    seq!["git"@, "npm"@, "cargo"@, "ls"@, "cat"@, "grep"@]
}

/// Paths forbidden to the agent when none are configured.
pub open spec fn forbidden_paths_default() -> Seq<Seq<char>> {
    seq!["/etc"@, "/root"@, "/proc"@, "/sys"@, "~/.ssh"@, "~/.gnupg"@, "~/.aws"@]
}

pub open spec fn string_views(v: Seq<String>) -> Seq<Seq<char>> {
    v.map_values(|s: String| s@)
}

/// Commands allowed to the agent when none are configured.
pub fn default_allowed_commands() -> (r: Vec<String>)
    ensures
        string_views(r@) == allowed_commands_default(),
{
    let r = vec![
        String::from_str("git"),
        String::from_str("npm"),
        String::from_str("cargo"),
        String::from_str("ls"),
        String::from_str("cat"),
        String::from_str("grep"),
    ];
    assert(string_views(r@) =~= allowed_commands_default());
    r
}

/// Paths forbidden to the agent when none are configured.
pub fn default_forbidden_paths() -> (r: Vec<String>)
    ensures
        string_views(r@) == forbidden_paths_default(),
{
    let r = vec![
        String::from_str("/etc"),
        String::from_str("/root"),
        String::from_str("/proc"),
        String::from_str("/sys"),
        String::from_str("~/.ssh"),
        String::from_str("~/.gnupg"),
        String::from_str("~/.aws"),
    ];
    assert(string_views(r@) =~= forbidden_paths_default());
    r
}

/// Cloud provider and model used when the local brain cannot answer.
#[derive(Debug, Clone)]
pub struct BrainFallback {
    pub provider: String,
    pub model: String,
}

/// Gateway (HTTP server) settings.
#[derive(Debug, Clone)]
pub struct GatewayConfig {
    pub port: u16,
    pub host: String,
    /// Whether clients must pair with a code before using the API.
    pub require_pairing: bool,
}

impl Default for GatewayConfig {
    fn default() -> (r: Self)
        ensures
            r.port == 3000,
            r.host@ == "127.0.0.1"@,
            r.require_pairing,
    {
        GatewayConfig { port: default_port(), host: default_host(), require_pairing: true }
    }
}

/// Autonomy and security settings of the agent.
#[derive(Debug, Clone)]
pub struct AutonomyConfig {
    pub level: String,
    pub workspace_only: bool,
    pub allowed_commands: Vec<String>,
    pub forbidden_paths: Vec<String>,
}

impl Default for AutonomyConfig {
    fn default() -> (r: Self)
        ensures
            r.level@ == "supervised"@,
            r.workspace_only,
            string_views(r.allowed_commands@) == allowed_commands_default(),
            string_views(r.forbidden_paths@) == forbidden_paths_default(),
    {
        AutonomyConfig {
            level: default_autonomy_level(),
            workspace_only: true,
            allowed_commands: default_allowed_commands(),
            forbidden_paths: default_forbidden_paths(),
        }
    }
}

/// Runtime settings.
#[derive(Debug, Clone)]
pub struct RuntimeConfig {
    pub kind: String,
}

impl Default for RuntimeConfig {
    fn default() -> (r: Self)
        ensures
            r.kind@ == "native"@,
    {
        RuntimeConfig { kind: default_runtime_kind() }
    }
}

/// Tunnel settings.
#[derive(Debug, Clone)]
pub struct TunnelConfig {
    pub provider: String,
}

impl Default for TunnelConfig {
    fn default() -> (r: Self)
        ensures
            r.provider@ == "none"@,
    {
        TunnelConfig { provider: default_tunnel_provider() }
    }
}

/// Secrets settings.
#[derive(Debug, Clone)]
pub struct SecretsConfig {
    pub encrypt: bool,
}

impl Default for SecretsConfig {
    fn default() -> (r: Self)
        ensures
            r.encrypt,
    {
        SecretsConfig { encrypt: true }
    }
}

/// The configured channels; a channel without a section is off.
#[derive(Debug, Clone)]
pub struct ChannelConfig {
    pub zalo: Option<ZaloChannelConfig>,
    pub telegram: Option<TelegramChannelConfig>,
    pub discord: Option<DiscordChannelConfig>,
    pub email: Option<EmailChannelConfig>,
}

impl Default for ChannelConfig {
    fn default() -> (r: Self)
        ensures
            r.zalo is None,
            r.telegram is None,
            r.discord is None,
            r.email is None,
    {
        ChannelConfig { zalo: None, telegram: None, discord: None, email: None }
    }
}

/// Zalo channel settings.
#[derive(Debug, Clone)]
pub struct ZaloChannelConfig {
    pub enabled: bool,
    /// "personal" or "official".
    pub mode: String,
    pub personal: ZaloPersonalConfig,
    pub rate_limit: ZaloRateLimitConfig,
    pub allowlist: ZaloAllowlistConfig,
}

impl Default for ZaloChannelConfig {
    fn default() -> (r: Self)
        ensures
            !r.enabled,
            r.mode@ == "personal"@,
            r.personal.cookie_path@ == "~/.bizclaw/zalo/cookie.json"@,
            r.personal.imei@ == Seq::<char>::empty(),
            r.personal.user_agent@ == Seq::<char>::empty(),
            !r.personal.self_listen,
            r.personal.proxy@ == Seq::<char>::empty(),
            r.personal.auto_reconnect,
            r.personal.reconnect_delay_ms == 5000,
            r.rate_limit.max_messages_per_minute == 20,
            r.rate_limit.max_messages_per_hour == 200,
            r.rate_limit.cooldown_on_error_ms == 30000,
            r.allowlist.user_ids@.len() == 0,
            r.allowlist.group_ids@.len() == 0,
            r.allowlist.block_strangers,
    {
        ZaloChannelConfig {
            enabled: false,
            mode: default_zalo_mode(),
            personal: ZaloPersonalConfig::default(),
            rate_limit: ZaloRateLimitConfig::default(),
            allowlist: ZaloAllowlistConfig::default(),
        }
    }
}

/// Settings of a Zalo personal account.
#[derive(Debug, Clone)]
pub struct ZaloPersonalConfig {
    pub cookie_path: String,
    pub imei: String,
    pub user_agent: String,
    /// Whether the account's own messages are handled too.
    pub self_listen: bool,
    pub auto_reconnect: bool,
    pub reconnect_delay_ms: u64,
    pub proxy: String,
}

impl Default for ZaloPersonalConfig {
    fn default() -> (r: Self)
        ensures
            r.cookie_path@ == "~/.bizclaw/zalo/cookie.json"@,
            r.imei@ == Seq::<char>::empty(),
            r.user_agent@ == Seq::<char>::empty(),
            !r.self_listen,
            r.auto_reconnect,
            r.reconnect_delay_ms == 5000,
            r.proxy@ == Seq::<char>::empty(),
    {
        ZaloPersonalConfig {
            cookie_path: default_cookie_path(),
            imei: String::new(),
            user_agent: String::new(),
            self_listen: false,
            auto_reconnect: true,
            reconnect_delay_ms: default_reconnect_delay(),
            proxy: String::new(),
        }
    }
}

/// Zalo sending limits.
#[derive(Debug, Clone)]
pub struct ZaloRateLimitConfig {
    pub max_messages_per_minute: u32,
    pub max_messages_per_hour: u32,
    pub cooldown_on_error_ms: u64,
}

impl Default for ZaloRateLimitConfig {
    fn default() -> (r: Self)
        ensures
            r.max_messages_per_minute == 20,
            r.max_messages_per_hour == 200,
            r.cooldown_on_error_ms == 30000,
    {
        ZaloRateLimitConfig {
            max_messages_per_minute: default_max_per_minute(),
            max_messages_per_hour: default_max_per_hour(),
            cooldown_on_error_ms: default_cooldown(),
        }
    }
}

/// Who may talk to the Zalo account.
#[derive(Debug, Clone)]
pub struct ZaloAllowlistConfig {
    pub user_ids: Vec<String>,
    pub group_ids: Vec<String>,
    /// Whether people outside the lists are ignored.
    pub block_strangers: bool,
}

impl Default for ZaloAllowlistConfig {
    fn default() -> (r: Self)
        ensures
            r.user_ids@.len() == 0,
            r.group_ids@.len() == 0,
            r.block_strangers,
    {
        ZaloAllowlistConfig { user_ids: Vec::new(), group_ids: Vec::new(), block_strangers: true }
    }
}

/// Telegram channel settings.
#[derive(Debug, Clone)]
pub struct TelegramChannelConfig {
    pub enabled: bool,
    pub bot_token: String,
    /// Chats the bot answers; empty for all.
    pub allowed_chat_ids: Vec<i64>,
}

/// Discord channel settings.
#[derive(Debug, Clone)]
pub struct DiscordChannelConfig {
    pub enabled: bool,
    pub bot_token: String,
    /// Channels the bot answers; empty for all.
    pub allowed_channel_ids: Vec<u64>,
}

/// Email channel settings.
#[derive(Debug, Clone)]
pub struct EmailChannelConfig {
    pub enabled: bool,
    pub imap_host: String,
    pub imap_port: u16,
    pub smtp_host: String,
    pub smtp_port: u16,
    pub email: String,
    pub password: String,
}

} // verus!

//! The viewer's settings, their defaults, and the rules by which the settings
//! file and the environment are chosen and merged.

use vstd::prelude::*;
use crate::text::owned;

verus! {

/// API credentials.
#[derive(Debug)]
pub struct Auth {
    pub api_token: Option<String>,
    pub account_id: Option<String>,
}

/// Look of the terminal interface.
#[derive(Debug)]
pub struct UI {
    pub theme: String,
    pub default_detail_width: u8,
    pub max_log_entries: usize,
    pub timestamp_format: String,
    pub show_status_bar: bool,
    pub enable_mouse: bool,
}

/// How log entries are shown.
#[derive(Debug)]
pub struct Logs {
    pub syntax_highlight: bool,
    pub default_log_level: String,
    pub auto_scroll: bool,
    pub preserve_scroll: bool,
    pub show_line_numbers: bool,
}

/// Which Workers are watched and how the connection to them is kept.
#[derive(Debug)]
pub struct Workers {
    pub auto_reconnect: bool,
    pub reconnect_interval: u64,
    pub batch_size: usize,
    pub environments: Vec<String>,
}

/// Rarely changed settings.
#[derive(Debug)]
pub struct Advanced {
    pub websocket_timeout: u64,
    pub max_retry_attempts: u32,
    pub debug_mode: bool,
    pub log_persistence: bool,
    pub log_file: String,
}

/// All settings; a settings file may leave out any section or field, which
/// then takes its default.
#[derive(Debug)]
pub struct Config {
    pub auth: Auth,
    pub ui: UI,
    pub logs: Logs,
    pub workers: Workers,
    pub advanced: Advanced,
}

/// Default colour theme: `"dark"`.
pub fn default_theme() -> (r: String)
    ensures
        r@ == "dark"@,
{
    owned("dark")
}

/// Default width of the detail pane, in percent: 50.
pub fn default_detail_width() -> (r: u8)
    ensures
        r == 50,
{
    50
}

/// Default number of log entries kept: 1000.
pub fn default_max_log_entries() -> (r: usize)
    ensures
        r == 1000,
{
    1000
}

/// Default timestamp format: `"RFC3339"`.
pub fn default_timestamp_format() -> (r: String)
    ensures
        r@ == "RFC3339"@,
{
    owned("RFC3339")
}

/// Default of the switches that are on unless set: `true`.
pub fn default_true() -> (r: bool)
    ensures
        r,
{
    true
}

/// Default of the switches that are off unless set: `false`.
pub fn default_false() -> (r: bool)
    ensures
        !r,
{
    false
}

/// Default log level: `"info"`.
pub fn default_log_level() -> (r: String)
    ensures
        r@ == "info"@,
{
    owned("info")
}

/// Default seconds between reconnection attempts: 5.
pub fn default_reconnect_interval() -> (r: u64)
    ensures
        r == 5,
{
    5
}

/// Default batch size: 100.
pub fn default_batch_size() -> (r: usize)
    ensures
        r == 100,
{
    100
}

/// Default environments: just `"production"`.
pub fn default_environments() -> (r: Vec<String>)
    ensures
        r@.len() == 1,
        r@[0]@ == "production"@,
{
    let mut v: Vec<String> = Vec::new();
    v.push(owned("production"));
    v
}

/// Default WebSocket timeout, in seconds: 30.
pub fn default_websocket_timeout() -> (r: u64)
    ensures
        r == 30,
{
    30
}

/// Default number of retries: 3.
pub fn default_max_retry_attempts() -> (r: u32)
    ensures
        r == 3,
{
    3
}

/// Default log file: `"~/.fogwatch/logs"`.
pub fn default_log_file() -> (r: String)
    ensures
        r@ == "~/.fogwatch/logs"@,
{
    owned("~/.fogwatch/logs")
}

impl Auth {
    /// No credentials.
    pub open spec fn is_default(self) -> bool {
        self.api_token is None && self.account_id is None
    }
}

impl UI {
    /// Every field at its default.
    pub open spec fn is_default(self) -> bool {
        &&& self.theme@ == "dark"@
        &&& self.default_detail_width == 50
        &&& self.max_log_entries == 1000
        &&& self.timestamp_format@ == "RFC3339"@
        &&& self.show_status_bar
        &&& self.enable_mouse
    }
}

impl Logs {
    /// Every field at its default.
    pub open spec fn is_default(self) -> bool {
        &&& self.syntax_highlight
        &&& self.default_log_level@ == "info"@
        &&& self.auto_scroll
        &&& self.preserve_scroll
        &&& !self.show_line_numbers
    }
}

impl Workers {
    /// Every field at its default.
    pub open spec fn is_default(self) -> bool {
        &&& self.auto_reconnect
        &&& self.reconnect_interval == 5
        &&& self.batch_size == 100
        &&& self.environments@.len() == 1
        &&& self.environments@[0]@ == "production"@
    }
}

impl Advanced {
    /// Every field at its default.
    pub open spec fn is_default(self) -> bool {
        &&& self.websocket_timeout == 30
        &&& self.max_retry_attempts == 3
        &&& !self.debug_mode
        &&& !self.log_persistence
        &&& self.log_file@ == "~/.fogwatch/logs"@
    }
}

impl Config {
    /// Every section at its defaults.
    pub open spec fn is_default(self) -> bool {
        &&& self.auth.is_default()
        &&& self.ui.is_default()
        &&& self.logs.is_default()
        &&& self.workers.is_default()
        &&& self.advanced.is_default()
    }
}

impl Default for Auth {
    fn default() -> (r: Auth)
        ensures
            r.is_default(),
    {
        Auth { api_token: None, account_id: None }
    }
}

impl Default for UI {
    fn default() -> (r: UI)
        ensures
            r.is_default(),
    {
        UI {
            theme: default_theme(),
            default_detail_width: default_detail_width(),
            max_log_entries: default_max_log_entries(),
            timestamp_format: default_timestamp_format(),
            show_status_bar: default_true(),
            enable_mouse: default_true(),
        }
    }
}

impl Default for Logs {
    fn default() -> (r: Logs)
        ensures
            r.is_default(),
    {
        Logs {
            syntax_highlight: default_true(),
            default_log_level: default_log_level(),
            auto_scroll: default_true(),
            preserve_scroll: default_true(),
            show_line_numbers: default_false(),
        }
    }
}

impl Default for Workers {
    fn default() -> (r: Workers)
        ensures
            r.is_default(),
    {
        Workers {
            auto_reconnect: default_true(),
            reconnect_interval: default_reconnect_interval(),
            batch_size: default_batch_size(),
            environments: default_environments(),
        }
    }
}

impl Default for Advanced {
    fn default() -> (r: Advanced)
        ensures
            r.is_default(),
    {
        Advanced {
            websocket_timeout: default_websocket_timeout(),
            max_retry_attempts: default_max_retry_attempts(),
            debug_mode: default_false(),
            log_persistence: default_false(),
            log_file: default_log_file(),
        }
    }
}

impl Default for Config {
    fn default() -> (r: Config)
        ensures
            r.is_default(),
    {
        Config {
            auth: Auth::default(),
            ui: UI::default(),
            logs: Logs::default(),
            workers: Workers::default(),
            advanced: Advanced::default(),
        }
    }
}

/// Where the settings are read from.
#[derive(Debug, Clone, Copy, PartialEq, Eq, Structural)]
pub enum ConfigSource {
    /// `fogwatch.toml` in the working directory.
    Project,
    /// `~/.config/fogwatch/config.toml`.
    User,
    /// No file: the defaults.
    Defaults,
}

/// The settings file that wins: the project's over the user's, and the
/// defaults when neither exists.
pub fn config_source(project_exists: bool, user_exists: bool) -> (r: ConfigSource)
    ensures
        project_exists ==> r == ConfigSource::Project,
        !project_exists && user_exists ==> r == ConfigSource::User,
        !project_exists && !user_exists ==> r == ConfigSource::Defaults,
{
    if project_exists {
        ConfigSource::Project
    } else if user_exists {
        ConfigSource::User
    } else {
        ConfigSource::Defaults
    }
}

/// Where the settings are written: to the project's file where it exists,
/// else to the user's (whose directory is made first).
pub fn save_target(project_exists: bool) -> (r: ConfigSource)
    ensures
        project_exists ==> r == ConfigSource::Project,
        !project_exists ==> r == ConfigSource::User,
{
    if project_exists {
        ConfigSource::Project
    } else {
        ConfigSource::User
    }
}

impl Config {
    /// Lets the credentials found in the environment (`CLOUDFLARE_API_TOKEN`
    /// and `CLOUDFLARE_ACCOUNT_ID`, read by the caller) override those of the
    /// settings; a variable that is not set leaves its setting as it was.
    pub fn merge_environment(&mut self, env_token: Option<String>, env_account_id: Option<String>)
        ensures
            final(self).auth.api_token == (if env_token is Some { env_token } else { old(self).auth.api_token }),
            final(self).auth.account_id == (if env_account_id is Some { env_account_id } else { old(self).auth.account_id }),
            final(self).ui == old(self).ui,
            final(self).logs == old(self).logs,
            final(self).workers == old(self).workers,
            final(self).advanced == old(self).advanced,
    {
        if let Some(token) = env_token {
            self.auth.api_token = Some(token);
        }
        if let Some(account_id) = env_account_id {
            self.auth.account_id = Some(account_id);
        }
    }
}

/// Where a credential was found, as the start-up report names it.
#[derive(Debug, Clone, Copy, PartialEq, Eq, Structural)]
pub enum CredentialSource {
    CommandLine,
    ConfigFile,
    Default,
}

impl CredentialSource {
    /// The words that the start-up report prints.
    pub open spec fn spec_label(self) -> Seq<char> {
        match self {
            CredentialSource::CommandLine => "command line"@,
            CredentialSource::ConfigFile => "config file"@,
            CredentialSource::Default => "default"@,
        }
    }

    /// The words that the start-up report prints.
    pub fn label(&self) -> (r: &'static str)
        ensures
            r@ == self.spec_label(),
    {
        match self {
            CredentialSource::CommandLine => "command line",
            CredentialSource::ConfigFile => "config file",
            CredentialSource::Default => "default",
        }
    }
}

/// Picks a credential: the command line's where given, else the one of the
/// settings after the environment was merged into them. A credential taken
/// from the settings is reported as coming from the config file, also where
/// the environment supplied it.
pub fn resolve_credential(command_line: Option<String>, merged: Option<String>) -> (r: (Option<String>, CredentialSource))
    ensures
        command_line is Some ==> r.0 == command_line && r.1 == CredentialSource::CommandLine,
        command_line is None && merged is Some ==> r.0 == merged && r.1 == CredentialSource::ConfigFile,
        command_line is None && merged is None ==> r.0 is None && r.1 == CredentialSource::Default,
{
    if command_line.is_some() {
        (command_line, CredentialSource::CommandLine)
    } else if merged.is_some() {
        (merged, CredentialSource::ConfigFile)
    } else {
        (None, CredentialSource::Default)
    }
}

} // verus!

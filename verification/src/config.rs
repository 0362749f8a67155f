//! Daemon and server configuration, and where their files live.  Paths are
//! held as text.
use vstd::prelude::*;
use crate::text::{chars_of, concat, seq_ends_with};

verus! {

/// `base` with the relative path `part` appended, as `PathBuf::join`
/// does: a separator goes between them unless `base` is empty or already
/// ends with one.
pub open spec fn path_join(base: Seq<char>, part: Seq<char>) -> Seq<char> {
    if base.len() == 0 || base.last() == '/' {
        base + part
    } else {
        base + seq!['/'] + part
    }
}

/// Appends the relative path `part` to `base`.
pub fn join_path(base: &str, part: &str) -> (r: String)
    ensures
        r@ == path_join(base@, part@),
{
    let cs = chars_of(base);
    let n = cs.len();
    if n == 0 || cs[n - 1] == '/' {
        concat(base, part)
    } else {
        let with_sep = concat(base, "/");
        proof {
            reveal_strlit("/");
        }
        concat(with_sep.as_str(), part)
    }
}

/// Calls `dirs::data_local_dir()` (`$XDG_DATA_HOME` or `~/.local/share` on
/// Linux) and converts the path to text with `to_string_lossy`.  It
/// depends on the environment; nothing is stated of it.
#[verifier::external_body]
fn data_local_dir() -> Option<String> {
    dirs::data_local_dir().map(|p| p.to_string_lossy().into_owned())
}

/// Calls `dirs::config_dir()` (`$XDG_CONFIG_HOME` or `~/.config` on Linux)
/// and converts the path to text with `to_string_lossy`.  It depends on
/// the environment; nothing is stated of it.
#[verifier::external_body]
fn config_dir() -> Option<String> {
    dirs::config_dir().map(|p| p.to_string_lossy().into_owned())
}

/// Calls `uuid::Uuid::new_v4()` and formats it with `to_string`, which
/// writes the hyphenated form: 36 characters.  The value is random;
/// nothing else is stated of it.
#[verifier::external_body]
fn new_machine_id() -> (r: String)
    ensures
        r@.len() == 36,
{
    uuid::Uuid::new_v4().to_string()
}

/// `<base>/ambient-fs/<file>`, with `/tmp` standing in for a missing base.
pub open spec fn app_file_path(base: Option<Seq<char>>, file: Seq<char>) -> Seq<char> {
    let dir = match base {
        Some(b) => b,
        None => "/tmp"@,
    };
    path_join(path_join(dir, "ambient-fs"@), file)
}

/// `<base>/ambient-fs/<file>`, with `/tmp` standing in for a missing base.
pub fn app_file_under(base: Option<String>, file: &str) -> (r: String)
    ensures
        r@ == app_file_path(
            match base {
                Some(b) => Some(b@),
                None => None,
            },
            file@,
        ),
{
    proof {
        reveal_strlit("/tmp");
    }
    let dir = match base {
        Some(b) => b,
        None => "/tmp".to_string(),
    };
    let app_dir = join_path(dir.as_str(), "ambient-fs");
    join_path(app_dir.as_str(), file)
}

/// The default database path: `events.db` under `ambient-fs` in the
/// user's local data directory (or `/tmp`).
pub fn default_db_path() -> (r: String)
    ensures
        seq_ends_with(r@, "ambient-fs/events.db"@),
{
    let r = app_file_under(data_local_dir(), "events.db");
    proof {
        reveal_strlit("ambient-fs");
        reveal_strlit("events.db");
        reveal_strlit("ambient-fs/events.db");
        reveal_strlit("/tmp");
        let tail = "ambient-fs/events.db"@;
        assert(r@.subrange(r@.len() - tail.len(), r@.len() as int) =~= tail);
    }
    r
}

/// The configuration file: `config_override` (the `AMBIENT_FS_CONFIG`
/// environment variable) when set, else `config.toml` under `ambient-fs`
/// in the user's config directory (or `/tmp`).
pub fn config_path(config_override: Option<String>) -> (r: String)
    ensures
        config_override matches Some(p) ==> r == p,
        config_override is None ==> seq_ends_with(r@, "ambient-fs/config.toml"@),
{
    match config_override {
        Some(p) => p,
        None => {
            let r = app_file_under(config_dir(), "config.toml");
            proof {
                reveal_strlit("ambient-fs");
                reveal_strlit("config.toml");
                reveal_strlit("ambient-fs/config.toml");
                reveal_strlit("/tmp");
                let tail = "ambient-fs/config.toml"@;
                assert(r@.subrange(r@.len() - tail.len(), r@.len() as int) =~= tail);
            }
            r
        },
    }
}

/// Daemon configuration persisted to a toml file.
#[derive(Debug, Clone, PartialEq, Eq)]
pub struct DaemonConfig {
    /// Unique machine identifier (uuid v4).
    pub machine_id: String,
    /// Path to the sqlite database.
    pub db_path: String,
    /// Path to the unix socket.
    pub socket_path: String,
    /// Debounce delay in milliseconds.
    pub debounce_ms: u64,
    /// Max file size for content analysis in bytes.
    pub max_file_size_bytes: u64,
    /// Log level (trace, debug, info, warn, error).
    pub log_level: String,
}

impl Default for DaemonConfig {
    /// A fresh random machine id, the database under the local data
    /// directory, the socket at `/tmp/ambient-fs.sock`, 100 ms debounce,
    /// 10 MiB analysis limit and `info` logging.
    fn default() -> (r: Self)
        ensures
            r.machine_id@.len() == 36,
            seq_ends_with(r.db_path@, "ambient-fs/events.db"@),
            r.socket_path@ == "/tmp/ambient-fs.sock"@,
            r.debounce_ms == 100,
            r.max_file_size_bytes == 10485760,
            r.log_level@ == "info"@,
    {
        DaemonConfig {
            machine_id: new_machine_id(),
            db_path: default_db_path(),
            socket_path: "/tmp/ambient-fs.sock".to_string(),
            debounce_ms: 100,
            max_file_size_bytes: 10485760,
            log_level: "info".to_string(),
        }
    }
}

/// Server configuration.
#[derive(Debug, Clone, PartialEq, Eq)]
pub struct ServerConfig {
    pub db_path: String,
    pub socket_path: String,
    pub debounce_ms: u64,
    pub max_file_size_bytes: u64,
    pub machine_id: String,
}

/// The machine id a server uses by default: the `HOSTNAME` variable, else
/// `COMPUTERNAME`, else `localhost`.
pub fn default_machine_id(hostname: Option<String>, computername: Option<String>) -> (r: String)
    ensures
        hostname matches Some(h) ==> r == h,
        hostname is None ==> (computername matches Some(c) ==> r == c),
        hostname is None && computername is None ==> r@ == "localhost"@,
{
    match hostname {
        Some(h) => h,
        None => match computername {
            Some(c) => c,
            None => "localhost".to_string(),
        },
    }
}

impl ServerConfig {
    /// The default server configuration for `machine_id`: the database at
    /// `/tmp/ambient-fs/events.db`, the socket at `/tmp/ambient-fs.sock`,
    /// 100 ms debounce and a 10 MiB analysis limit.
    pub fn defaults_for(machine_id: String) -> (r: Self)
        ensures
            r.db_path@ == "/tmp/ambient-fs/events.db"@,
            r.socket_path@ == "/tmp/ambient-fs.sock"@,
            r.debounce_ms == 100,
            r.max_file_size_bytes == 10485760,
            r.machine_id == machine_id,
    {
        ServerConfig {
            db_path: "/tmp/ambient-fs/events.db".to_string(),
            socket_path: "/tmp/ambient-fs.sock".to_string(),
            debounce_ms: 100,
            max_file_size_bytes: 10485760,
            machine_id,
        }
    }
}

/// The server configuration a daemon configuration gives: every field but
/// the log level carries over.
pub fn to_server_config(config: &DaemonConfig) -> (r: ServerConfig)
    ensures
        r.db_path@ == config.db_path@,
        r.socket_path@ == config.socket_path@,
        r.debounce_ms == config.debounce_ms,
        r.max_file_size_bytes == config.max_file_size_bytes,
        r.machine_id@ == config.machine_id@,
{
    ServerConfig {
        db_path: config.db_path.clone(),
        socket_path: config.socket_path.clone(),
        debounce_ms: config.debounce_ms,
        max_file_size_bytes: config.max_file_size_bytes,
        machine_id: config.machine_id.clone(),
    }
}

} // verus!

//! Settings: where the configuration lives, where the stores of client and
//! server go, the command-line arguments, and which names are valid.
//!
//! Paths are lists of components, each joined to the one before it.
use vstd::prelude::*;

use crate::text::{has_whitespace, str_has_whitespace};

verus! {

/// The name of the program.
pub const PROG: &'static str = "speakrs";

// ======================================
// => Arguments
// ======================================
/// The arguments of the program.
#[derive(Debug)]
pub struct Arguments {
    /// What to run.
    pub command: Commands,
    /// Log to standard output instead of the log file.
    pub verbose: bool,
}

/// What the program runs as.
#[derive(Debug)]
pub enum Commands {
    /// A server.
    Server(ServerArguments),
    /// A client.
    Client(ClientArguments),
}

/// The arguments of a server.
#[derive(Debug)]
pub struct ServerArguments {
    /// The port to serve on.
    pub port: u16,
    /// The name of the server: its store is found under it.
    pub name: String,
    /// Tell on standard output where it serves.
    pub verbose: bool,
    /// Serve on IPv6 instead of IPv4.
    pub ipv6: bool,
}

/// The arguments of a client.
#[derive(Debug)]
pub struct ClientArguments {
    /// Run the graphical interface instead of the terminal one.
    pub gui: bool,
}

/// The address a server listens on: the loopback address of IPv4 or IPv6,
/// and a port.
#[derive(Clone, Copy, Debug, PartialEq, Eq, Structural)]
pub enum ListenAddress {
    LocalhostV4(u16),
    LocalhostV6(u16),
}

impl ServerArguments {
    /// Where the server listens: on the loopback address of the chosen
    /// protocol, on the chosen port.
    pub fn listen_address(&self) -> (r: ListenAddress)
        ensures
            r == (if self.ipv6 {
                ListenAddress::LocalhostV6(self.port)
            } else {
                ListenAddress::LocalhostV4(self.port)
            }),
    {
        if self.ipv6 {
            ListenAddress::LocalhostV6(self.port)
        } else {
            ListenAddress::LocalhostV4(self.port)
        }
    }
}

// ======================================
// => Configuration home
// ======================================
/// The environment variable that names the configuration directory.
pub const CONFIG_DIR_OVERRIDE_ENV: &'static str = "SPEAKRS_CONFIG_HOME";

/// The name of the configuration directory under a configuration home.
pub const CONFIG_DIR_NAME: &'static str = "speakrs";

/// The name of the configuration file.
pub const CONFIG_NAME: &'static str = "speakrs.toml";

/// What the environment holds under a variable's name.
#[derive(Debug)]
pub enum EnvValue {
    /// Nothing.
    NotPresent,
    /// A value that is not valid Unicode.
    NotUnicode,
    /// A value.
    Value(String),
}

/// The environment variables the configuration directory is found from.
#[derive(Clone, Copy, Debug, PartialEq, Eq, Structural)]
pub enum EnvVar {
    /// `SPEAKRS_CONFIG_HOME`.
    ConfigDirOverride,
    /// `XDG_CONFIG_HOME`.
    XdgConfigHome,
    /// `HOME`.
    Home,
}

impl EnvVar {
    /// The name of the variable.
    pub fn name(&self) -> (r: &'static str)
        ensures
            r@ == env_var_name(*self),
    {
        match self {
            EnvVar::ConfigDirOverride => "SPEAKRS_CONFIG_HOME",
            EnvVar::XdgConfigHome => "XDG_CONFIG_HOME",
            EnvVar::Home => "HOME",
        }
    }
}

/// The name of the variable `v`.
pub open spec fn env_var_name(v: EnvVar) -> Seq<char> {
    match v {
        EnvVar::ConfigDirOverride => "SPEAKRS_CONFIG_HOME"@,
        EnvVar::XdgConfigHome => "XDG_CONFIG_HOME"@,
        EnvVar::Home => "HOME"@,
    }
}

/// Where the configuration directory is, as path components, and the
/// variables that were read and held no valid Unicode, in the order they
/// were read.
#[derive(Debug)]
pub struct ConfigHome {
    pub dir: Vec<String>,
    pub warnings: Vec<EnvVar>,
}

/// The warning for a variable that was read, if it held no valid Unicode.
pub open spec fn warn_if(v: EnvVar, value: EnvValue) -> Seq<EnvVar> {
    if value is NotUnicode {
        seq![v]
    } else {
        Seq::empty()
    }
}

/// Whether one of the three variables holds a value, so that a
/// configuration directory can be found.
pub open spec fn names_config_dir(over: EnvValue, xdg: EnvValue, home: EnvValue) -> bool {
    over is Value || xdg is Value || home is Value
}

/// Where the configuration directory is: the override variable's value;
/// else `speakrs` in the XDG configuration home; else `.config/speakrs` in
/// the home directory. Each variable is read only when those before it name
/// no directory; the warnings are for those read that held no valid
/// Unicode.
pub open spec fn spec_config_home(over: EnvValue, xdg: EnvValue, home: EnvValue) -> (
    Seq<Seq<char>>,
    Seq<EnvVar>,
)
    recommends
        names_config_dir(over, xdg, home),
{
    match over {
        EnvValue::Value(v) => (seq![v@], Seq::empty()),
        _ => {
            let w1 = warn_if(EnvVar::ConfigDirOverride, over);
            match xdg {
                EnvValue::Value(v) => (seq![v@, "speakrs"@], w1),
                _ => (
                    seq![home->Value_0@, ".config"@, "speakrs"@],
                    w1 + warn_if(EnvVar::XdgConfigHome, xdg),
                ),
            }
        },
    }
}

/// The warnings when no variable names a directory: one for each of the
/// three that held no valid Unicode, in the order they were read.
pub open spec fn unreadable_vars(over: EnvValue, xdg: EnvValue, home: EnvValue) -> Seq<EnvVar> {
    warn_if(EnvVar::ConfigDirOverride, over) + warn_if(EnvVar::XdgConfigHome, xdg) + warn_if(
        EnvVar::Home,
        home,
    )
}

/// The views of a list of strings.
pub open spec fn strings_view(v: Seq<String>) -> Seq<Seq<char>> {
    v.map_values(|s: String| s@)
}

/// Appends the warning for `v` to `warnings` if `value` held no valid
/// Unicode.
fn push_warning(warnings: &mut Vec<EnvVar>, v: EnvVar, value: &EnvValue)
    ensures
        final(warnings)@ == old(warnings)@ + warn_if(v, *value),
{
    if let EnvValue::NotUnicode = value {
        warnings.push(v);
        assert(final(warnings)@ =~= old(warnings)@ + warn_if(v, *value));
    } else {
        assert(warnings@ =~= old(warnings)@ + warn_if(v, *value));
    }
}

/// Whether one of the three values names a directory.
pub fn config_dir_named(over: &EnvValue, xdg: &EnvValue, home: &EnvValue) -> (r: bool)
    ensures
        r == names_config_dir(*over, *xdg, *home),
{
    (match over {
        EnvValue::Value(_) => true,
        _ => false,
    }) || (match xdg {
        EnvValue::Value(_) => true,
        _ => false,
    }) || (match home {
        EnvValue::Value(_) => true,
        _ => false,
    })
}

/// Where the configuration directory is, given what the environment holds
/// under `SPEAKRS_CONFIG_HOME`, `XDG_CONFIG_HOME` and `HOME`; one of them
/// must hold a value.
pub fn config_home(over: EnvValue, xdg: EnvValue, home: EnvValue) -> (r: ConfigHome)
    requires
        names_config_dir(over, xdg, home),
    ensures
        strings_view(r.dir@) == spec_config_home(over, xdg, home).0,
        r.warnings@ == spec_config_home(over, xdg, home).1,
{
    let mut warnings: Vec<EnvVar> = Vec::new();
    if let EnvValue::Value(v) = over {
        let mut d: Vec<String> = Vec::new();
        d.push(v);
        assert(strings_view(d@) =~= seq![v@]);
        return ConfigHome { dir: d, warnings };
    }
    push_warning(&mut warnings, EnvVar::ConfigDirOverride, &over);
    if let EnvValue::Value(v) = xdg {
        let mut d: Vec<String> = Vec::new();
        d.push(v);
        d.push(String::from_str("speakrs"));
        proof {
            reveal_strlit("speakrs");
        }
        assert(strings_view(d@) =~= seq![v@, "speakrs"@]);
        assert(warnings@ =~= spec_config_home(over, xdg, home).1);
        return ConfigHome { dir: d, warnings };
    }
    push_warning(&mut warnings, EnvVar::XdgConfigHome, &xdg);
    match home {
        EnvValue::Value(v) => {
            let mut d: Vec<String> = Vec::new();
            d.push(v);
            d.push(String::from_str(".config"));
            d.push(String::from_str("speakrs"));
            proof {
                reveal_strlit(".config");
                reveal_strlit("speakrs");
            }
            assert(strings_view(d@) =~= seq![v@, ".config"@, "speakrs"@]);
            assert(warnings@ =~= spec_config_home(over, xdg, home).1);
            ConfigHome { dir: d, warnings }
        },
        _ => {
            assert(false);
            ConfigHome { dir: Vec::new(), warnings }
        },
    }
}

/// The configuration directory where one of the three values names one;
/// otherwise the warnings for those that held no valid Unicode, which the
/// caller reports before it gives up.
pub fn try_config_home(over: EnvValue, xdg: EnvValue, home: EnvValue) -> (r: Result<
    ConfigHome,
    Vec<EnvVar>,
>)
    ensures
        names_config_dir(over, xdg, home) <==> r is Ok,
        r matches Ok(h) ==> strings_view(h.dir@) == spec_config_home(over, xdg, home).0
            && h.warnings@ == spec_config_home(over, xdg, home).1,
        r matches Err(w) ==> w@ == unreadable_vars(over, xdg, home),
{
    if config_dir_named(&over, &xdg, &home) {
        Ok(config_home(over, xdg, home))
    } else {
        let mut warnings: Vec<EnvVar> = Vec::new();
        push_warning(&mut warnings, EnvVar::ConfigDirOverride, &over);
        push_warning(&mut warnings, EnvVar::XdgConfigHome, &xdg);
        push_warning(&mut warnings, EnvVar::Home, &home);
        Err(warnings)
    }
}

// ======================================
// => Configuration file
// ======================================
/// The settings of the stores of a client.
#[derive(Debug)]
pub struct ClientConfigDatabase {
    /// The directory the client's stores go under, in `client`; when none,
    /// `databases/client` in the configuration directory.
    pub directory: Option<String>,
}

/// The settings of a client.
#[derive(Debug)]
pub struct ClientConfig {
    pub database: ClientConfigDatabase,
}

/// The settings of the stores of a server.
#[derive(Debug)]
pub struct ServerConfigDatabase {
    /// The directory the server's stores go under, in `server`; when none,
    /// `databases/server` in the configuration directory.
    pub directory: Option<String>,
}

/// The settings of a server.
#[derive(Debug)]
pub struct ServerConfig {
    pub database: ServerConfigDatabase,
}

/// The configuration file: the settings of a server and of a client, each
/// needed only to run as that.
#[derive(Debug)]
pub struct Config {
    pub server: Option<ServerConfig>,
    pub client: Option<ClientConfig>,
}

/// The directory the stores of `kind` go in: `kind` under the configured
/// directory, or `databases/kind` under the configuration directory.
pub open spec fn database_directory(directory: Option<Seq<char>>, config_home: Seq<Seq<char>>, kind: Seq<char>) -> Seq<Seq<char>> {
    match directory {
        Some(d) => seq![d, kind],
        None => config_home + seq!["databases"@, kind],
    }
}

/// A copy of a list of strings.
fn copy_strings(v: &Vec<String>) -> (r: Vec<String>)
    ensures
        strings_view(r@) == strings_view(v@),
{
    let mut r: Vec<String> = Vec::new();
    let mut i: usize = 0;
    while i < v.len()
        invariant
            0 <= i <= v@.len(),
            r@ == v@.take(i as int),
        decreases v@.len() - i,
    {
        r.push(v[i].clone());
        assert(v@.take(i + 1) =~= v@.take(i as int).push(v@[i as int]));
        i = i + 1;
    }
    assert(v@.take(v@.len() as int) =~= v@);
    r
}

/// The directory of the stores of `kind` (see `database_directory`).
fn database_directory_of(directory: &Option<String>, config_home: &Vec<String>, kind: &str) -> (r: Vec<String>)
    ensures
        strings_view(r@) == database_directory(
            match directory {
                Some(d) => Some(d@),
                None => None,
            },
            strings_view(config_home@),
            kind@,
        ),
{
    let mut path: Vec<String> = match directory {
        Some(d) => {
            let mut p: Vec<String> = Vec::new();
            p.push(d.clone());
            p
        },
        None => {
            let mut p = copy_strings(config_home);
            p.push(String::from_str("databases"));
            p
        },
    };
    path.push(kind.to_string());
    proof {
        reveal_strlit("databases");
    }
    assert(strings_view(path@) =~= database_directory(
        match directory {
            Some(d) => Some(d@),
            None => None,
        },
        strings_view(config_home@),
        kind@,
    ));
    path
}

/// A copy of an optional string.
fn copy_opt_string(s: &Option<String>) -> (r: Option<String>)
    ensures
        match (s, r) {
            (Some(a), Some(b)) => a@ == b@,
            (None, None) => true,
            _ => false,
        },
{
    match s {
        Some(d) => Some(d.clone()),
        None => None,
    }
}

impl ClientConfig {
    /// The directory of the client's stores, given the configuration
    /// directory `config_home`.
    pub fn get_database_directory(&self, config_home: &Vec<String>) -> (r: Vec<String>)
        ensures
            strings_view(r@) == database_directory(
                match self.database.directory {
                    Some(d) => Some(d@),
                    None => None,
                },
                strings_view(config_home@),
                "client"@,
            ),
    {
        database_directory_of(&self.database.directory, config_home, "client")
    }
}

impl ServerConfig {
    /// The directory of the server's stores, given the configuration
    /// directory `config_home`.
    pub fn get_database_directory(&self, config_home: &Vec<String>) -> (r: Vec<String>)
        ensures
            strings_view(r@) == database_directory(
                match self.database.directory {
                    Some(d) => Some(d@),
                    None => None,
                },
                strings_view(config_home@),
                "server"@,
            ),
    {
        database_directory_of(&self.database.directory, config_home, "server")
    }
}

impl Config {
    /// A copy of the server's settings, if the file has them.
    pub fn clone_server(&self) -> (r: Option<ServerConfig>)
        ensures
            match (self.server, r) {
                (Some(a), Some(b)) => match (a.database.directory, b.database.directory) {
                    (Some(x), Some(y)) => x@ == y@,
                    (None, None) => true,
                    _ => false,
                },
                (None, None) => true,
                _ => false,
            },
    {
        match &self.server {
            Some(s) => Some(
                ServerConfig {
                    database: ServerConfigDatabase {
                        directory: copy_opt_string(&s.database.directory),
                    },
                },
            ),
            None => None,
        }
    }

    /// A copy of the client's settings, if the file has them.
    pub fn clone_client(&self) -> (r: Option<ClientConfig>)
        ensures
            match (self.client, r) {
                (Some(a), Some(b)) => match (a.database.directory, b.database.directory) {
                    (Some(x), Some(y)) => x@ == y@,
                    (None, None) => true,
                    _ => false,
                },
                (None, None) => true,
                _ => false,
            },
    {
        match &self.client {
            Some(c) => Some(
                ClientConfig {
                    database: ClientConfigDatabase {
                        directory: copy_opt_string(&c.database.directory),
                    },
                },
            ),
            None => None,
        }
    }
}

// ======================================
// => Valid names
// ======================================
/// What a user name must be.
pub const USERNAME_RULES: &'static str = "Must have no whitespace.";

/// What a channel name must be.
pub const CHANNEL_NAME_RULES: &'static str = "Must have no whitespace.";

/// A valid name holds no whitespace.
pub open spec fn valid_name(x: Seq<char>) -> bool {
    !has_whitespace(x)
}

/// Whether `x` is a valid user name.
pub fn is_valid_username(x: &str) -> (r: bool)
    ensures
        r == valid_name(x@),
{
    !str_has_whitespace(x)
}

/// Whether `x` is a valid channel name.
pub fn is_valid_channel_name(x: &str) -> (r: bool)
    ensures
        r == valid_name(x@),
{
    !str_has_whitespace(x)
}

} // verus!

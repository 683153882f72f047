//! Command-line settings, and how a settings file fills the ones the command
//! line leaves open.
use vstd::prelude::*;
use crate::env_file::{env_get, env_value, pairs_view};
use crate::text::str_eq;

verus! {

/// The settings as given on the command line.
pub struct CLI {
    pub tag: String,
    pub name: Option<String>,
    pub socket_path: String,
    pub repo_url: Option<String>,
    pub clone_path: Option<String>,
    pub mount_path: Option<String>,
    pub verbose: u8,
    pub compose_file: String,
    pub env_file: String,
    pub swarm: bool,
    pub swarm_service: Option<String>,
}

/// An optional text as plain text, empty where absent.
pub open spec fn or_empty(o: Option<String>) -> Seq<char> {
    match o {
        Some(s) => s@,
        None => Seq::empty(),
    }
}

pub open spec fn opt_view(o: Option<String>) -> Option<Seq<char>> {
    match o {
        Some(s) => Some(s@),
        None => None,
    }
}

/// The command-line value where it is set and differs from the default, else
/// the file's value, else the default.
pub open spec fn pick(cli: Seq<char>, file: Option<Seq<char>>, default: Seq<char>) -> Seq<char> {
    if cli.len() > 0 && cli != default {
        cli
    } else {
        match file {
            Some(x) => x,
            None => default,
        }
    }
}

/// Absent where empty.
pub open spec fn non_empty(s: Seq<char>) -> Option<Seq<char>> {
    if s.len() == 0 {
        None
    } else {
        Some(s)
    }
}

/// A setting with a built-in default: the file's value where the command
/// line kept the default.
pub open spec fn unless_default(cli: Seq<char>, file: Option<Seq<char>>, default: Seq<char>) -> Seq<char> {
    if cli == default {
        match file {
            Some(x) => x,
            None => cli,
        }
    } else {
        cli
    }
}

/// The command-line value, else the file's.
pub open spec fn cli_or_file(cli: Option<Seq<char>>, file: Option<Seq<char>>) -> Option<Seq<char>> {
    match cli {
        Some(x) => Some(x),
        None => file,
    }
}

/// Extracts a value from the command line or the settings file, preferring
/// the command line where it is set and not the default.
pub fn extract_env_var_from_cli_or_env(
    val: &Option<String>,
    env_content: &Vec<(String, String)>,
    key: &str,
    default_value: &str,
) -> (r: String)
    ensures
        r@ == pick(or_empty(*val), env_value(pairs_view(env_content@), key@), default_value@),
{
    let val_str: String = match val {
        Some(v) => v.clone(),
        None => String::new(),
    };
    if val_str.unicode_len() > 0 && !str_eq(val_str.as_str(), default_value) {
        val_str
    } else {
        match env_get(env_content, key) {
            Some(v) => v.clone(),
            None => String::from_str(default_value),
        }
    }
}

fn file_or(env_content: &Vec<(String, String)>, key: &str, cli: String, default: &str) -> (r: String)
    ensures
        r@ == unless_default(cli@, env_value(pairs_view(env_content@), key@), default@),
{
    if str_eq(cli.as_str(), default) {
        match env_get(env_content, key) {
            Some(v) => v.clone(),
            None => cli,
        }
    } else {
        cli
    }
}

fn some_if_set(s: String) -> (r: Option<String>)
    ensures
        opt_view(r) == non_empty(s@),
{
    if s.unicode_len() == 0 {
        None
    } else {
        Some(s)
    }
}

impl CLI {
    /// Fills the settings that the command line leaves open from a settings
    /// file's entries: the file's `NAME`, `REPO_URL`, `CLONE_PATH`,
    /// `MOUNT_PATH` and `SWARM_SERVICE` where the command line has none, and
    /// its `SOCKET_PATH` and `COMPOSE_FILE` where the command line kept the
    /// default. The clone path falls back to `/opt/dev`.
    pub fn with_env(self, env_content: &Vec<(String, String)>) -> (r: CLI)
        ensures
            opt_view(r.name) == non_empty(
                pick(or_empty(self.name), env_value(pairs_view(env_content@), "NAME"@), ""@),
            ),
            opt_view(r.repo_url) == non_empty(
                pick(or_empty(self.repo_url), env_value(pairs_view(env_content@), "REPO_URL"@), ""@),
            ),
            opt_view(r.clone_path) == non_empty(
                pick(
                    or_empty(self.clone_path),
                    env_value(pairs_view(env_content@), "CLONE_PATH"@),
                    "/opt/dev"@,
                ),
            ),
            opt_view(r.mount_path) == non_empty(
                pick(or_empty(self.mount_path), env_value(pairs_view(env_content@), "MOUNT_PATH"@), ""@),
            ),
            r.socket_path@ == unless_default(
                self.socket_path@,
                env_value(pairs_view(env_content@), "SOCKET_PATH"@),
                "/var/run/docker.sock"@,
            ),
            r.compose_file@ == unless_default(
                self.compose_file@,
                env_value(pairs_view(env_content@), "COMPOSE_FILE"@),
                "docker-compose.yml"@,
            ),
            opt_view(r.swarm_service) == cli_or_file(
                opt_view(self.swarm_service),
                env_value(pairs_view(env_content@), "SWARM_SERVICE"@),
            ),
            r.tag == self.tag,
            r.verbose == self.verbose,
            r.env_file == self.env_file,
            r.swarm == self.swarm,
    {
        let name = extract_env_var_from_cli_or_env(&self.name, env_content, "NAME", "");
        let repo_url = extract_env_var_from_cli_or_env(&self.repo_url, env_content, "REPO_URL", "");
        let clone_path = extract_env_var_from_cli_or_env(
            &self.clone_path,
            env_content,
            "CLONE_PATH",
            "/opt/dev",
        );
        let mount_path = extract_env_var_from_cli_or_env(
            &self.mount_path,
            env_content,
            "MOUNT_PATH",
            "",
        );
        let socket_path = file_or(env_content, "SOCKET_PATH", self.socket_path, "/var/run/docker.sock");
        let compose_file = file_or(
            env_content,
            "COMPOSE_FILE",
            self.compose_file,
            "docker-compose.yml",
        );
        let swarm_service = match self.swarm_service {
            Some(s) => Some(s),
            None => match env_get(env_content, "SWARM_SERVICE") {
                Some(v) => Some(v.clone()),
                None => None,
            },
        };
        CLI {
            tag: self.tag,
            name: some_if_set(name),
            socket_path,
            repo_url: some_if_set(repo_url),
            clone_path: some_if_set(clone_path),
            mount_path: some_if_set(mount_path),
            verbose: self.verbose,
            compose_file,
            env_file: self.env_file,
            swarm: self.swarm,
            swarm_service,
        }
    }
}

} // verus!

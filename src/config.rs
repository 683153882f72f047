//! The resolved settings of one deployment run.
use vstd::prelude::*;
use crate::cli::{cli_or_file, opt_view, unless_default, CLI};
use crate::env_file::{env_get, env_value, pairs_view};
use crate::text::str_eq;

verus! {

pub struct Config {
    pub repo_url: String,
    pub clone_path: String,
    pub compose_file: String,
    pub mount_path: String,
    pub name: String,
    pub socket_path: String,
}

/// A required setting that neither the command line nor the file gives.
#[derive(PartialEq, Eq, Structural, Clone, Copy, Debug)]
pub enum ConfigError {
    MissingRepoUrl,
    MissingClonePath,
    MissingMountPath,
    MissingName,
}

impl ConfigError {
    /// What to tell the user.
    pub fn message(&self) -> String {
        match self {
            ConfigError::MissingRepoUrl => String::from_str(
                "REPO_URL not provided. Use --repo-url flag or set REPO_URL in .env file",
            ),
            ConfigError::MissingClonePath => String::from_str(
                "CLONE_PATH not provided. Use --clone-path flag or set CLONE_PATH in .env file",
            ),
            ConfigError::MissingMountPath => String::from_str(
                "MOUNT_PATH not provided. Use --mount-path flag or set MOUNT_PATH in .env file",
            ),
            ConfigError::MissingName => String::from_str(
                "NAME not provided. Use --name flag or set NAME in .env file",
            ),
        }
    }
}

/// The command line's value of a required setting, else the file's.
fn required(cli: &Option<String>, env_vars: &Vec<(String, String)>, key: &str) -> (r: Option<String>)
    ensures
        opt_view(r) == cli_or_file(opt_view(*cli), env_value(pairs_view(env_vars@), key@)),
{
    match cli {
        Some(v) => Some(v.clone()),
        None => match env_get(env_vars, key) {
            Some(v) => Some(v.clone()),
            None => None,
        },
    }
}

impl Config {
    /// Resolves the settings: command line first, then the settings file's
    /// entries. The repository, clone path, mount path and name are required,
    /// and the first one missing, in that order, is the error. Socket path
    /// and compose file come from the file only where the command line kept
    /// the default.
    pub fn from_env_and_cli(cli: &CLI, env_vars: &Vec<(String, String)>) -> (r: Result<Config, ConfigError>)
        ensures
            ({
                let env = pairs_view(env_vars@);
                let repo = cli_or_file(opt_view(cli.repo_url), env_value(env, "REPO_URL"@));
                let clone = cli_or_file(opt_view(cli.clone_path), env_value(env, "CLONE_PATH"@));
                let mount = cli_or_file(opt_view(cli.mount_path), env_value(env, "MOUNT_PATH"@));
                let name = cli_or_file(opt_view(cli.name), env_value(env, "NAME"@));
                match r {
                    Ok(c) => repo == Some(c.repo_url@) && clone == Some(c.clone_path@) && mount == Some(
                        c.mount_path@,
                    ) && name == Some(c.name@) && c.compose_file@ == unless_default(
                        cli.compose_file@,
                        env_value(env, "COMPOSE_FILE"@),
                        "docker-compose.yml"@,
                    ) && c.socket_path@ == unless_default(
                        cli.socket_path@,
                        env_value(env, "SOCKET_PATH"@),
                        "/var/run/docker.sock"@,
                    ),
                    Err(e) => if repo is None {
                        e == ConfigError::MissingRepoUrl
                    } else if clone is None {
                        e == ConfigError::MissingClonePath
                    } else if mount is None {
                        e == ConfigError::MissingMountPath
                    } else {
                        name is None && e == ConfigError::MissingName
                    },
                }
            }),
    {
        let repo_url = match required(&cli.repo_url, env_vars, "REPO_URL") {
            Some(v) => v,
            None => {
                return Err(ConfigError::MissingRepoUrl);
            },
        };
        let clone_path = match required(&cli.clone_path, env_vars, "CLONE_PATH") {
            Some(v) => v,
            None => {
                return Err(ConfigError::MissingClonePath);
            },
        };
        let mount_path = match required(&cli.mount_path, env_vars, "MOUNT_PATH") {
            Some(v) => v,
            None => {
                return Err(ConfigError::MissingMountPath);
            },
        };
        let compose_file = if !str_eq(cli.compose_file.as_str(), "docker-compose.yml") {
            cli.compose_file.clone()
        } else {
            match env_get(env_vars, "COMPOSE_FILE") {
                Some(v) => v.clone(),
                None => cli.compose_file.clone(),
            }
        };
        let name = match required(&cli.name, env_vars, "NAME") {
            Some(v) => v,
            None => {
                return Err(ConfigError::MissingName);
            },
        };
        let socket_path = if !str_eq(cli.socket_path.as_str(), "/var/run/docker.sock") {
            cli.socket_path.clone()
        } else {
            match env_get(env_vars, "SOCKET_PATH") {
                Some(v) => v.clone(),
                None => cli.socket_path.clone(),
            }
        };
        Ok(Config { repo_url, clone_path, compose_file, mount_path, name, socket_path })
    }
}

} // verus!

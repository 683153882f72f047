use rolling_deployer::cli::{extract_env_var_from_cli_or_env, CLI};
use rolling_deployer::config::{Config, ConfigError};
use rolling_deployer::env_file::{parse_env_content, trim_exec};

fn pair(k: &str, v: &str) -> (String, String) {
    (k.to_string(), v.to_string())
}

fn bare_cli() -> CLI {
    CLI {
        tag: "v1.2.3".to_string(),
        name: None,
        socket_path: "/var/run/docker.sock".to_string(),
        repo_url: None,
        clone_path: None,
        mount_path: None,
        verbose: 0,
        compose_file: "docker-compose.yml".to_string(),
        env_file: ".env".to_string(),
        swarm: false,
        swarm_service: None,
    }
}

#[test]
fn test_extract_env_var_from_cli_or_env_cli_value() {
    let env_content: Vec<(String, String)> = Vec::new();
    let cli_val = Some("cli_val".to_string());
    let result = extract_env_var_from_cli_or_env(&cli_val, &env_content, "KEY", "default");
    assert_eq!(result, "cli_val");
}

#[test]
fn test_extract_env_var_from_cli_or_env_env_value() {
    let mut env_content: Vec<(String, String)> = Vec::new();
    env_content.push(pair("KEY", "env_val"));
    let cli_val: Option<String> = None;
    let result = extract_env_var_from_cli_or_env(&cli_val, &env_content, "KEY", "default");
    assert_eq!(result, "env_val");
}

#[test]
fn test_extract_env_var_from_cli_or_env_both_values() {
    let mut env_content: Vec<(String, String)> = Vec::new();
    env_content.push(pair("KEY", "env_val"));
    let cli_val = Some("cli_val".to_string());
    let result = extract_env_var_from_cli_or_env(&cli_val, &env_content, "KEY", "default");
    assert_eq!(result, "cli_val");
}

#[test]
fn test_extract_env_var_from_cli_or_env_default() {
    let env_content: Vec<(String, String)> = Vec::new();
    let cli_val: Option<String> = None;
    let result = extract_env_var_from_cli_or_env(&cli_val, &env_content, "KEY", "default");
    assert_eq!(result, "default");
}

#[test]
fn extract_treats_default_valued_cli_as_unset() {
    let env_content = vec![pair("KEY", "env_val")];
    let cli_val = Some("default".to_string());
    let result = extract_env_var_from_cli_or_env(&cli_val, &env_content, "KEY", "default");
    assert_eq!(result, "env_val");
}

#[test]
fn env_content_skips_comments_and_blank_lines() {
    let text = "# settings\n\nNAME = acme \r\nREPO_URL=https://example.com/r.git\nnot a setting\n  MOUNT_PATH=/etc/traefik=dyn\n";
    let entries = parse_env_content(text);
    assert_eq!(
        entries,
        vec![
            pair("NAME", "acme"),
            pair("REPO_URL", "https://example.com/r.git"),
            pair("MOUNT_PATH", "/etc/traefik=dyn"),
        ]
    );
}

#[test]
fn env_content_without_final_newline() {
    let entries = parse_env_content("A=1\nB=2");
    assert_eq!(entries, vec![pair("A", "1"), pair("B", "2")]);
    assert!(parse_env_content("").is_empty());
}

#[test]
fn trim_strips_unicode_white_space() {
    assert_eq!(trim_exec("\u{3000} a b\t\n"), "a b");
    assert_eq!(trim_exec("   "), "");
}

#[test]
fn later_setting_wins() {
    let env_content = vec![pair("KEY", "first"), pair("KEY", "second")];
    let result = extract_env_var_from_cli_or_env(&None, &env_content, "KEY", "");
    assert_eq!(result, "second");
}

#[test]
fn with_env_fills_open_settings() {
    let env_content = vec![
        pair("NAME", "env_name"),
        pair("REPO_URL", "https://example.com/repo.git"),
        pair("MOUNT_PATH", "/etc/traefik/dynamic"),
        pair("SOCKET_PATH", "/tmp/env.sock"),
        pair("COMPOSE_FILE", "/srv/compose.yml"),
        pair("SWARM_SERVICE", "env_service"),
    ];
    let mut cli = bare_cli();
    cli.name = Some("cli_name".to_string());
    let r = cli.with_env(&env_content);
    assert_eq!(r.name, Some("cli_name".to_string()));
    assert_eq!(r.repo_url, Some("https://example.com/repo.git".to_string()));
    assert_eq!(r.clone_path, Some("/opt/dev".to_string()));
    assert_eq!(r.mount_path, Some("/etc/traefik/dynamic".to_string()));
    assert_eq!(r.socket_path, "/tmp/env.sock");
    assert_eq!(r.compose_file, "/srv/compose.yml");
    assert_eq!(r.swarm_service, Some("env_service".to_string()));
}

#[test]
fn with_env_keeps_explicit_cli_values() {
    let env_content = vec![pair("SOCKET_PATH", "/tmp/env.sock"), pair("SWARM_SERVICE", "env_service")];
    let mut cli = bare_cli();
    cli.socket_path = "/tmp/cli.sock".to_string();
    cli.swarm_service = Some("cli_service".to_string());
    let r = cli.with_env(&env_content);
    assert_eq!(r.socket_path, "/tmp/cli.sock");
    assert_eq!(r.swarm_service, Some("cli_service".to_string()));
    assert_eq!(r.name, None);
}

#[test]
fn config_resolves_cli_over_file() {
    let env_content = vec![
        pair("NAME", "env_name"),
        pair("REPO_URL", "https://example.com/env.git"),
        pair("CLONE_PATH", "/srv/env"),
        pair("MOUNT_PATH", "/etc/env"),
    ];
    let mut cli = bare_cli();
    cli.name = Some("cli_name".to_string());
    cli.clone_path = Some("/srv/cli".to_string());
    let c: Config = Config::from_env_and_cli(&cli, &env_content).ok().unwrap();
    assert_eq!(c.name, "cli_name");
    assert_eq!(c.repo_url, "https://example.com/env.git");
    assert_eq!(c.clone_path, "/srv/cli");
    assert_eq!(c.mount_path, "/etc/env");
    assert_eq!(c.compose_file, "docker-compose.yml");
    assert_eq!(c.socket_path, "/var/run/docker.sock");
}

#[test]
fn config_reports_first_missing_setting() {
    let cli = bare_cli();
    let empty: Vec<(String, String)> = Vec::new();
    assert_eq!(Config::from_env_and_cli(&cli, &empty).err(), Some(ConfigError::MissingRepoUrl));
    let env_content = vec![pair("REPO_URL", "r"), pair("CLONE_PATH", "c")];
    assert_eq!(Config::from_env_and_cli(&cli, &env_content).err(), Some(ConfigError::MissingMountPath));
    let env_content = vec![pair("REPO_URL", "r")];
    assert_eq!(Config::from_env_and_cli(&cli, &env_content).err(), Some(ConfigError::MissingClonePath));
    let env_content = vec![pair("REPO_URL", "r"), pair("CLONE_PATH", "c"), pair("MOUNT_PATH", "m")];
    let e = Config::from_env_and_cli(&cli, &env_content).err().unwrap();
    assert_eq!(e, ConfigError::MissingName);
    assert!(e.message().starts_with("NAME not provided"));
}

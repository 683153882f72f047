use rolling_deployer::compose::YamlNode;
use rolling_deployer::config::Config;
use rolling_deployer::deployment_manager::{Action, DeployError, DeploymentManager, Event};
use rolling_deployer::git_client::VersionDir;
use rolling_deployer::types::{Container, HostConfig, NetworkSettings};

fn config() -> Config {
    Config {
        repo_url: "https://example.com/cfg.git".to_string(),
        clone_path: "/srv/cfg".to_string(),
        compose_file: "/srv/app/compose.yml".to_string(),
        mount_path: "/etc/traefik/dynamic".to_string(),
        name: "acme".to_string(),
        socket_path: "/var/run/docker.sock".to_string(),
    }
}

fn container(name: &str) -> Container {
    Container {
        id: name.to_string(),
        names: vec![name.to_string()],
        image: "traefik:v2".to_string(),
        image_id: "sha256:0".to_string(),
        command: "traefik".to_string(),
        created: 0,
        ports: Vec::new(),
        labels: None,
        state: "running".to_string(),
        status: "Up".to_string(),
        host_config: HostConfig { network_mode: "default".to_string() },
        network_settings: NetworkSettings { networks: Vec::new() },
        mounts: Vec::new(),
    }
}

fn s(x: &str) -> YamlNode {
    YamlNode::Str(x.to_string())
}

fn compose_doc() -> YamlNode {
    YamlNode::Mapping(vec![(
        s("services"),
        YamlNode::Mapping(vec![(
            s("traefik"),
            YamlNode::Mapping(vec![(s("volumes"), YamlNode::List(vec![s("/old:/etc/traefik/dynamic:ro")]))]),
        )]),
    )])
}

fn is_effect(a: &Action) -> bool {
    matches!(
        a,
        Action::Clone { .. }
            | Action::CreatePointer { .. }
            | Action::ReplacePointer { .. }
            | Action::WriteCompose(..)
            | Action::Recreate { .. }
            | Action::UpdateService { .. }
            | Action::RemoveDir(_)
    )
}

#[test]
fn no_matching_containers_fails_before_any_effect() {
    let m = DeploymentManager::new(config());
    let (mut run, first) = m.rolling_deploy("v1.2.3", false, None);
    assert!(matches!(first, Action::ListContainers(_)));
    let a = run.step(Event::ContainersListed(Vec::new()));
    assert!(matches!(a, Action::Abort(DeployError::NoTargets)));
}

#[test]
fn duplicate_services_are_recreated_once() {
    let m = DeploymentManager::new(config());
    let (mut run, _) = m.rolling_deploy("v1.2.3", false, None);
    let a = run.step(Event::ContainersListed(vec![container("/acme_traefik_1"), container("/acme_traefik_2")]));
    match a {
        Action::CheckVersion(p) => assert_eq!(p, "/srv/cfg/config-v1.2.3"),
        _ => panic!("expected a version check"),
    }
    let a = run.step(Event::VersionChecked(false));
    match a {
        Action::Clone { url, tag, dest } => {
            assert_eq!(url, "https://example.com/cfg.git");
            assert_eq!(tag, "v1.2.3");
            assert_eq!(dest, "/srv/cfg/config-v1.2.3");
        }
        _ => panic!("expected a clone"),
    }
    let a = run.step(Event::Succeeded);
    match a {
        Action::CreatePointer { temp, target } => {
            assert_eq!(temp, "/srv/cfg/.current.tmp");
            assert_eq!(target, "/srv/cfg/config-v1.2.3");
        }
        _ => panic!("expected the pointer"),
    }
    let a = run.step(Event::Succeeded);
    match a {
        Action::ReplacePointer { temp, pointer } => {
            assert_eq!(temp, "/srv/cfg/.current.tmp");
            assert_eq!(pointer, "/srv/cfg/current");
        }
        _ => panic!("expected the rename"),
    }
    let a = run.step(Event::Succeeded);
    assert!(matches!(a, Action::ReadCompose(ref p) if p == "/srv/app/compose.yml"));
    let a = run.step(Event::ComposeRead(compose_doc()));
    match a {
        Action::WriteCompose(p, d) => {
            assert_eq!(p, "/srv/app/compose.yml");
            let expected = YamlNode::Mapping(vec![(
                s("services"),
                YamlNode::Mapping(vec![(
                    s("traefik"),
                    YamlNode::Mapping(vec![(s("volumes"), YamlNode::List(vec![s("/srv/cfg/current:/etc/traefik/dynamic:ro")]))]),
                )]),
            )]);
            assert_eq!(d, expected);
        }
        _ => panic!("expected a write"),
    }
    let a = run.step(Event::Succeeded);
    match a {
        Action::Recreate { compose_file, service } => {
            assert_eq!(compose_file, "/srv/app/compose.yml");
            assert_eq!(service, "traefik");
        }
        _ => panic!("expected a recreate"),
    }
    let a = run.step(Event::Succeeded);
    assert!(matches!(a, Action::ListVersions(ref b) if b == "/srv/cfg"));
    let a = run.step(Event::VersionsListed(vec![VersionDir {
        name: "config-v1.2.3".to_string(),
        path: "/srv/cfg/config-v1.2.3".to_string(),
        created: 1,
    }]));
    assert!(matches!(a, Action::Finish));
}

#[test]
fn existing_version_is_not_cloned_again() {
    let m = DeploymentManager::new(config());
    let (mut run, _) = m.rollback("v1.0.0", false, None);
    run.step(Event::ContainersListed(vec![container("/acme_traefik_1")]));
    let a = run.step(Event::VersionChecked(true));
    match a {
        Action::CreatePointer { target, .. } => assert_eq!(target, "/srv/cfg/config-v1.0.0"),
        _ => panic!("expected the pointer"),
    }
}

#[test]
fn rollout_failure_reports_progress() {
    let m = DeploymentManager::new(config());
    let (mut run, _) = m.rolling_deploy("v2", false, None);
    let mut other = container("/acme_api_1");
    other.image = "api".to_string();
    run.step(Event::ContainersListed(vec![container("/acme_traefik_1"), other]));
    run.step(Event::VersionChecked(true));
    run.step(Event::Succeeded);
    run.step(Event::Succeeded);
    let unchanged = YamlNode::Mapping(vec![(
        s("services"),
        YamlNode::Mapping(vec![(
            s("traefik"),
            YamlNode::Mapping(vec![(s("volumes"), YamlNode::List(vec![s("/srv/cfg/current:/etc/traefik/dynamic")]))]),
        )]),
    )]);
    let a = run.step(Event::ComposeRead(unchanged));
    assert!(matches!(a, Action::Recreate { ref service, .. } if service == "traefik"));
    let a = run.step(Event::Succeeded);
    assert!(matches!(a, Action::Recreate { ref service, .. } if service == "api"));
    let a = run.step(Event::Failed("exit 1".to_string()));
    match a {
        Action::Abort(DeployError::Rollout(svc, rolled, cause)) => {
            assert_eq!(svc, "api");
            assert_eq!(rolled, 1);
            assert_eq!(cause, "exit 1");
        }
        _ => panic!("expected a rollout error"),
    }
}

#[test]
fn cluster_mode_needs_a_service() {
    let m = DeploymentManager::new(config());
    let (_, a) = m.rolling_deploy("v1", true, None);
    assert!(matches!(a, Action::Abort(DeployError::MissingServiceName)));
    let (_, a) = m.rolling_deploy("v1", true, Some(String::new()));
    assert!(matches!(a, Action::Abort(DeployError::MissingServiceName)));
}

#[test]
fn cluster_mode_updates_the_service_mount() {
    let m = DeploymentManager::new(config());
    let (mut run, a) = m.rolling_deploy("v3", true, Some("proxy".to_string()));
    assert!(matches!(a, Action::CheckVersion(_)));
    assert!(is_effect(&run.step(Event::VersionChecked(true))));
    run.step(Event::Succeeded);
    run.step(Event::Succeeded);
    let a = run.step(Event::ComposeRead(YamlNode::Null));
    match a {
        Action::UpdateService { service, mount_rm, mount_add } => {
            assert_eq!(service, "proxy");
            assert_eq!(mount_rm, "/etc/traefik/dynamic");
            assert_eq!(mount_add, "type=bind,src=/srv/cfg/config-v3,dst=/etc/traefik/dynamic");
        }
        _ => panic!("expected a service update"),
    }
    let a = run.step(Event::Succeeded);
    assert!(matches!(a, Action::ListVersions(_)));
    let dirs: Vec<VersionDir> = (0..5)
        .map(|i| VersionDir { name: format!("config-{}", i), path: format!("/srv/cfg/config-{}", i), created: i })
        .collect();
    let a = run.step(Event::VersionsListed(dirs));
    assert!(matches!(a, Action::RemoveDir(ref p) if p == "/srv/cfg/config-0"));
    let a = run.step(Event::Failed("busy".to_string()));
    assert!(matches!(a, Action::RemoveDir(ref p) if p == "/srv/cfg/config-1"));
    let a = run.step(Event::Succeeded);
    assert!(matches!(a, Action::Finish));
}

#[test]
fn clone_failure_carries_diagnostics() {
    let m = DeploymentManager::new(config());
    let (mut run, _) = m.rolling_deploy("v9", true, Some("proxy".to_string()));
    run.step(Event::VersionChecked(false));
    let a = run.step(Event::Failed("fatal: tag not found".to_string()));
    assert!(matches!(a, Action::Abort(DeployError::Clone(ref m)) if m == "fatal: tag not found"));
    let a = run.step(Event::Succeeded);
    assert!(matches!(a, Action::Abort(DeployError::Unexpected)));
}

#[test]
fn each_stage_reports_its_own_failure() {
    let m = DeploymentManager::new(config());
    let (mut run, _) = m.rolling_deploy("v1", false, None);
    let a = run.step(Event::EngineFailed(rolling_deployer::docker_client::EngineError::Connection("refused".to_string())));
    assert!(matches!(a, Action::Abort(DeployError::Engine(rolling_deployer::docker_client::EngineError::Connection(ref m))) if m == "refused"));

    let (mut run, _) = m.rolling_deploy("v1", true, Some("proxy".to_string()));
    run.step(Event::VersionChecked(true));
    let a = run.step(Event::Failed("read-only file system".to_string()));
    assert!(matches!(a, Action::Abort(DeployError::Pointer(ref m)) if m == "read-only file system"));

    let (mut run, _) = m.rolling_deploy("v1", true, Some("proxy".to_string()));
    run.step(Event::VersionChecked(true));
    run.step(Event::Succeeded);
    run.step(Event::Succeeded);
    let a = run.step(Event::Failed("bad indentation".to_string()));
    assert!(matches!(a, Action::Abort(DeployError::Compose(ref m)) if m == "bad indentation"));

    let (mut run, _) = m.rolling_deploy("v1", true, Some("proxy".to_string()));
    run.step(Event::VersionChecked(true));
    run.step(Event::Succeeded);
    run.step(Event::Succeeded);
    run.step(Event::ComposeRead(YamlNode::Null));
    let a = run.step(Event::Failed("no such service".to_string()));
    assert!(matches!(a, Action::Abort(DeployError::ServiceUpdate(ref s, ref m)) if s == "proxy" && m == "no such service"));
}

#[test]
fn cleanup_listing_failure_still_succeeds() {
    let m = DeploymentManager::new(config());
    let (mut run, _) = m.rolling_deploy("v1", true, Some("proxy".to_string()));
    run.step(Event::VersionChecked(true));
    run.step(Event::Succeeded);
    run.step(Event::Succeeded);
    run.step(Event::ComposeRead(YamlNode::Null));
    run.step(Event::Succeeded);
    let a = run.step(Event::Failed("permission denied".to_string()));
    assert!(matches!(a, Action::Finish));
}

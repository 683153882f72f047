use rolling_deployer::compose::{patch_volume_source, VolumeMatch, YamlNode};
use rolling_deployer::git_client::{GitClient, VersionDir};

fn s(x: &str) -> YamlNode {
    YamlNode::Str(x.to_string())
}

fn map(entries: Vec<(&str, YamlNode)>) -> YamlNode {
    YamlNode::Mapping(entries.into_iter().map(|(k, v)| (s(k), v)).collect())
}

fn doc(services: Vec<(&str, YamlNode)>) -> YamlNode {
    map(vec![("version", YamlNode::Number("3".to_string())), ("services", map(services))])
}

fn target(t: &str) -> VolumeMatch {
    VolumeMatch::Target(t.to_string())
}

fn version(name: &str, created: u64) -> VersionDir {
    VersionDir { name: name.to_string(), path: format!("/srv/{}", name), created }
}

#[test]
fn version_paths() {
    assert_eq!(GitClient::versioned_path("/srv/cfg", "v1.2.3"), "/srv/cfg/config-v1.2.3");
    assert_ne!(GitClient::versioned_path("/srv/cfg", "v1"), GitClient::versioned_path("/srv/cfg", "v2"));
    assert_eq!(GitClient::current_path("/srv/cfg"), "/srv/cfg/current");
    assert_eq!(GitClient::current_temp_path("/srv/cfg"), "/srv/cfg/.current.tmp");
}

#[test]
fn retention_keeps_three_newest_of_five() {
    let entries: Vec<VersionDir> = (0..5).map(|i| version(&format!("config-v{}", i), 100 + i as u64)).collect();
    let removed = GitClient::select_removals(&entries, 3);
    assert_eq!(removed, vec!["/srv/config-v0".to_string(), "/srv/config-v1".to_string()]);
}

#[test]
fn retention_removes_nothing_from_two() {
    let entries = vec![version("config-a", 1), version("config-b", 2)];
    assert!(GitClient::select_removals(&entries, 3).is_empty());
}

#[test]
fn retention_ignores_other_directories() {
    let entries = vec![
        version("config-a", 1),
        version("current", 0),
        version("config-b", 2),
        version("notes", 3),
        version("config-c", 5),
        version("config-d", 4),
    ];
    assert_eq!(GitClient::select_removals(&entries, 2), vec!["/srv/config-a".to_string(), "/srv/config-b".to_string()]);
}

#[test]
fn compact_entry_source_is_replaced() {
    let mut d = doc(vec![
        ("proxy", map(vec![
            ("image", s("traefik:v2")),
            ("volumes", YamlNode::List(vec![s("/var/run/docker.sock:/var/run/docker.sock:ro"), s("/old/config:/etc/traefik/dynamic:ro")])),
        ])),
        ("other", map(vec![("volumes", YamlNode::List(vec![s("/x:/etc/traefik/dynamic")]))])),
    ]);
    let changed = patch_volume_source(&mut d, &target("/etc/traefik/dynamic"), "/srv/current");
    assert!(changed);
    let expected = doc(vec![
        ("proxy", map(vec![
            ("image", s("traefik:v2")),
            ("volumes", YamlNode::List(vec![s("/var/run/docker.sock:/var/run/docker.sock:ro"), s("/srv/current:/etc/traefik/dynamic:ro")])),
        ])),
        ("other", map(vec![("volumes", YamlNode::List(vec![s("/x:/etc/traefik/dynamic")]))])),
    ]);
    assert_eq!(d, expected);
    let again = patch_volume_source(&mut d, &target("/etc/traefik/dynamic"), "/srv/current");
    assert!(!again);
    assert_eq!(d, expected);
}

#[test]
fn structured_entry_keeps_other_keys() {
    let mut d = doc(vec![("proxy", map(vec![(
        "volumes",
        YamlNode::List(vec![map(vec![("type", s("bind")), ("source", s("/old")), ("target", s("/etc/t")), ("read_only", YamlNode::Bool(true))])]),
    )]))]);
    assert!(patch_volume_source(&mut d, &target("/etc/t"), "/new"));
    let expected = doc(vec![("proxy", map(vec![(
        "volumes",
        YamlNode::List(vec![map(vec![("type", s("bind")), ("source", s("/new")), ("target", s("/etc/t")), ("read_only", YamlNode::Bool(true))])]),
    )]))]);
    assert_eq!(d, expected);
}

#[test]
fn structured_entry_without_source_gets_one() {
    let mut d = doc(vec![("proxy", map(vec![("volumes", YamlNode::List(vec![map(vec![("target", s("/etc/t"))])]))]))]);
    assert!(patch_volume_source(&mut d, &target("/etc/t"), "/new"));
    let expected = doc(vec![("proxy", map(vec![("volumes", YamlNode::List(vec![map(vec![("target", s("/etc/t")), ("source", s("/new"))])]))]))]);
    assert_eq!(d, expected);
}

#[test]
fn missing_mount_is_appended_to_first_service_with_volumes() {
    let mut d = doc(vec![
        ("db", map(vec![("image", s("postgres"))])),
        ("proxy", map(vec![("volumes", YamlNode::List(vec![s("/a:/b")]))])),
    ]);
    assert!(patch_volume_source(&mut d, &target("/etc/t"), "/srv/current"));
    let expected = doc(vec![
        ("db", map(vec![("image", s("postgres"))])),
        ("proxy", map(vec![("volumes", YamlNode::List(vec![s("/a:/b"), s("/srv/current:/etc/t:rw")]))])),
    ]);
    assert_eq!(d, expected);
    assert!(!patch_volume_source(&mut d, &target("/etc/t"), "/srv/current"));
    assert_eq!(d, expected);
}

#[test]
fn source_suffix_match() {
    let mut d = doc(vec![("proxy", map(vec![("volumes", YamlNode::List(vec![s("/a:/b"), s("/srv/current:/etc/t")]))]))]);
    assert!(patch_volume_source(&mut d, &VolumeMatch::SourceSuffix("/current".to_string()), "/srv2/current"));
    let expected = doc(vec![("proxy", map(vec![("volumes", YamlNode::List(vec![s("/a:/b"), s("/srv2/current:/etc/t")]))]))]);
    assert_eq!(d, expected);
    let mut none = doc(vec![("proxy", map(vec![("volumes", YamlNode::List(vec![s("/a:/b")]))]))]);
    assert!(!patch_volume_source(&mut none, &VolumeMatch::SourceSuffix("/current".to_string()), "/x/current"));
}

#[test]
fn document_without_volumes_is_left_alone() {
    let mut d = doc(vec![("db", map(vec![("image", s("postgres"))]))]);
    let before = doc(vec![("db", map(vec![("image", s("postgres"))]))]);
    assert!(!patch_volume_source(&mut d, &target("/etc/t"), "/srv/current"));
    assert_eq!(d, before);
}

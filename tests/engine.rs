use rolling_deployer::docker_client::{DockerClient, EngineError};
use rolling_deployer::http::parse_status;
use rolling_deployer::deployment_manager::DeploymentManager;
use rolling_deployer::naming::service_name_from_name;
use rolling_deployer::targets::rollout_targets;
use rolling_deployer::types::{Container, HostConfig, NetworkSettings};

fn container(names: &[&str], state: &str, image: &str, labels: Option<Vec<(&str, &str)>>) -> Container {
    Container {
        id: format!("id-{}", names.first().unwrap_or(&"none")),
        names: names.iter().map(|n| n.to_string()).collect(),
        image: image.to_string(),
        image_id: "sha256:0".to_string(),
        command: "run".to_string(),
        created: 0,
        ports: Vec::new(),
        labels: labels.map(|l| l.into_iter().map(|(k, v)| (k.to_string(), v.to_string())).collect()),
        state: state.to_string(),
        status: "Up".to_string(),
        host_config: HostConfig { network_mode: "default".to_string() },
        network_settings: NetworkSettings { networks: Vec::new() },
        mounts: Vec::new(),
    }
}

fn client() -> DockerClient {
    DockerClient::new("/var/run/docker.sock".to_string())
}

#[test]
fn three_chunks_decode_to_their_concatenation() {
    let body = b"5\r\n[{\"a\"\r\n3\r\n:1}\r\na\r\n,{\"b\":2}]\n\r\n0\r\n\r\n".to_vec();
    let decoded = client().clean_chunked_response(&body).unwrap();
    assert_eq!(decoded, b"[{\"a\":1},{\"b\":2}]\n".to_vec());
}

#[test]
fn chunk_payload_may_hold_crlf() {
    let body = b"4\r\na\r\nb\r\n0\r\n\r\n".to_vec();
    assert_eq!(client().clean_chunked_response(&body).unwrap(), b"a\r\nb".to_vec());
}

#[test]
fn broken_chunk_framing_is_rejected() {
    assert_eq!(client().clean_chunked_response(&b"5\r\nabc".to_vec()), None);
    assert_eq!(client().clean_chunked_response(&b"zz\r\nabc\r\n0\r\n\r\n".to_vec()), None);
    assert_eq!(client().clean_chunked_response(&b"3\r\nabcX\r\n0\r\n\r\n".to_vec()), None);
    assert_eq!(client().clean_chunked_response(&b"ffffffffffffffffffff\r\nab\r\n".to_vec()), None);
}

#[test]
fn status_line_is_read() {
    assert_eq!(parse_status(&b"HTTP/1.1 200 OK".to_vec()), Some(200));
    assert_eq!(parse_status(&b"HTTP/1.1 404".to_vec()), Some(404));
    assert_eq!(parse_status(&b"HTTP/1.1 20x OK".to_vec()), None);
    assert_eq!(parse_status(&b"garbage".to_vec()), None);
}

#[test]
fn chunked_response_is_decoded() {
    let raw = b"HTTP/1.1 200 OK\r\nContent-Type: application/json\r\nTransfer-Encoding: chunked\r\n\r\n3\r\n[1,\r\n2\r\n2]\r\n0\r\n\r\n".to_vec();
    assert_eq!(client().read_response(&raw).ok().unwrap(), b"[1,2]".to_vec());
}

#[test]
fn plain_response_body_is_kept() {
    let raw = b"HTTP/1.1 204 No Content\r\nServer: x\r\n\r\n".to_vec();
    assert_eq!(client().read_response(&raw).ok().unwrap(), Vec::<u8>::new());
    let raw = b"HTTP/1.1 200 OK\r\ntransfer-encoding: CHUNKED\r\n\r\n1\r\nx\r\n0\r\n\r\n".to_vec();
    assert_eq!(client().read_response(&raw).ok().unwrap(), b"x".to_vec());
}

#[test]
fn error_status_carries_the_body() {
    let raw = b"HTTP/1.1 404 Not Found\r\n\r\n{\"message\":\"no such container\"}".to_vec();
    match client().read_response(&raw) {
        Err(EngineError::Api(code, body)) => {
            assert_eq!(code, 404);
            assert_eq!(body, b"{\"message\":\"no such container\"}".to_vec());
        }
        _ => panic!("expected an API error"),
    }
}

#[test]
fn malformed_responses_are_decode_errors() {
    assert!(matches!(client().read_response(&b"HTTP/1.1 200 OK\r\n".to_vec()), Err(EngineError::Decode(_))));
    let raw = b"HTTP/1.1 200 OK\r\nTransfer-Encoding: chunked\r\n\r\n9\r\nab\r\n".to_vec();
    assert!(matches!(client().read_response(&raw), Err(EngineError::Decode(_))));
}

#[test]
fn request_frames() {
    let c = client();
    assert_eq!(
        c.list_containers_request(false),
        "GET /containers/json HTTP/1.1\r\nHost: localhost\r\nConnection: close\r\n\r\n"
    );
    assert_eq!(
        c.list_containers_request(true),
        "GET /containers/json?all=true HTTP/1.1\r\nHost: localhost\r\nConnection: close\r\n\r\n"
    );
    assert_eq!(
        c.remove_container_request("abc", true),
        "DELETE /containers/abc?force=true HTTP/1.1\r\nHost: localhost\r\nConnection: close\r\n\r\n"
    );
    assert_eq!(
        c.stop_container_request("abc"),
        "POST /containers/abc/stop HTTP/1.1\r\nHost: localhost\r\nContent-Type: application/json\r\nContent-Length: 0\r\nConnection: close\r\n\r\n"
    );
    assert!(c.start_container_request("abc").starts_with("POST /containers/abc/start HTTP/1.1\r\n"));
    assert_eq!(c.socket(), "/var/run/docker.sock");
}

#[test]
fn filters_pick_running_containers() {
    let cs = vec![
        container(&["/a"], "running", "traefik:v2", None),
        container(&["/b"], "exited", "traefik:v2", None),
        container(&["/acme_web_1"], "running", "nginx", None),
    ];
    let by_image = client().get_running_containers_by_image_substring(cs, "traefik");
    assert_eq!(by_image.len(), 1);
    assert_eq!(by_image[0].names[0], "/a");
    let cs = vec![
        container(&["/a"], "running", "traefik:v2", None),
        container(&["/acme_web_1"], "running", "nginx", None),
    ];
    let by_name = client().get_running_containers_by_name(cs, "acme");
    assert_eq!(by_name.len(), 1);
    assert_eq!(by_name[0].image, "nginx");
}

#[test]
fn service_names_by_convention() {
    assert_eq!(service_name_from_name("/acme_traefik_1"), "traefik");
    assert_eq!(service_name_from_name("a_b_c_d"), "c");
    assert_eq!(service_name_from_name("acme-traefik-2"), "traefik");
    assert_eq!(service_name_from_name("traefik-12"), "traefik");
    assert_eq!(service_name_from_name("acme-traefik-x"), "acme-traefik-x");
    assert_eq!(service_name_from_name("acme-traefik-+3"), "traefik");
    assert_eq!(service_name_from_name("acme-traefik-99999999999"), "acme-traefik-99999999999");
    assert_eq!(service_name_from_name("//plain"), "plain");
}

#[test]
fn compose_label_comes_first() {
    let c = container(&["/x_y_1"], "running", "img", Some(vec![("com.docker.compose.service", "proxy")]));
    assert_eq!(DeploymentManager::extract_service_name(&c), "proxy");
    let c = container(&[], "running", "img", None);
    assert_eq!(DeploymentManager::extract_service_name(&c), "");
}

#[test]
fn same_service_is_rolled_once() {
    let cs = vec![
        container(&["/acme_traefik_1"], "running", "traefik:v2", None),
        container(&["/acme_traefik_2"], "running", "traefik:v2", None),
    ];
    assert_eq!(rollout_targets(&cs, "acme"), vec!["traefik".to_string()]);
}

#[test]
fn targets_follow_label_name_or_image() {
    let cs = vec![
        container(&["/web"], "running", "nginx", Some(vec![("com.docker.compose.project", "acme")])),
        container(&["/other_db_1"], "running", "postgres", None),
        container(&["/acme_cache_1"], "exited", "redis", None),
        container(&["/proxy-3"], "running", "registry/acme-proxy", None),
    ];
    assert_eq!(rollout_targets(&cs, "acme"), vec!["web".to_string(), "proxy".to_string()]);
    assert!(rollout_targets(&cs, "nobody").is_empty());
}

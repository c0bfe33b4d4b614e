use nzbdav::servers::{
    add_server, default_connections, default_port, default_true, delete_server,
    enabled_by_priority, prepare_server, update_server, ServerEntry, ServerError, TestResult,
};

fn sample_server() -> ServerEntry {
    ServerEntry {
        id: String::new(),
        name: "Test Server".to_string(),
        host: "news.example.com".to_string(),
        port: 563,
        ssl: true,
        ssl_verify: true,
        username: Some("user".to_string()),
        password: Some("pass".to_string()),
        connections: 8,
        priority: 0,
        enabled: true,
        retention: 3000,
    }
}

fn named(id: &str, priority: u8, enabled: bool) -> ServerEntry {
    ServerEntry { id: id.to_string(), priority, enabled, ..sample_server() }
}

#[test]
fn test_add_server() {
    let mut servers = Vec::new();
    let added = add_server(&mut servers, sample_server()).unwrap();
    assert_eq!(added.name, "Test Server");
    assert_eq!(added.host, "news.example.com");
    // Should have auto-generated an id
    assert!(!added.id.is_empty());
    assert_eq!(added.id.len(), 36);
}

#[test]
fn test_add_server_empty_host() {
    let mut servers = Vec::new();
    let mut entry = sample_server();
    entry.host = String::new();
    assert_eq!(add_server(&mut servers, entry).unwrap_err(), ServerError::EmptyHost);
    assert!(servers.is_empty());
}

#[test]
fn test_add_and_list() {
    let mut servers = Vec::new();
    add_server(&mut servers, sample_server()).unwrap();
    assert_eq!(servers.len(), 1);
    assert_eq!(servers[0].host, "news.example.com");
}

#[test]
fn test_delete_server() {
    let mut servers = Vec::new();
    let added = add_server(&mut servers, sample_server()).unwrap();
    assert!(delete_server(&mut servers, &added.id));
    assert_eq!(servers.len(), 0);
}

#[test]
fn server_api_test_delete_not_found() {
    let mut servers = vec![named("a", 0, true)];
    assert!(!delete_server(&mut servers, "00000000-0000-0000-0000-000000000000"));
    assert_eq!(servers.len(), 1);
}

#[test]
fn test_update_server() {
    let mut servers = Vec::new();
    let added = add_server(&mut servers, sample_server()).unwrap();
    let mut changed = sample_server();
    changed.id = "ignored".to_string();
    changed.name = "Updated Server".to_string();
    changed.host = "updated.example.com".to_string();
    let updated = update_server(&mut servers, &added.id, changed).unwrap();
    assert_eq!(updated.name, "Updated Server");
    assert_eq!(updated.host, "updated.example.com");
    assert_eq!(updated.id, added.id);
    assert_eq!(servers[0].name, "Updated Server");
}

#[test]
fn test_update_not_found() {
    let mut servers = vec![named("a", 0, true)];
    let r = update_server(&mut servers, "00000000-0000-0000-0000-000000000000", sample_server());
    assert!(r.is_none());
    assert_eq!(servers[0].id, "a");
}

#[test]
fn given_ids_and_names_are_kept_and_missing_names_come_from_the_host() {
    let mut e = sample_server();
    e.id = "fixed".to_string();
    e.name = String::new();
    let p = prepare_server(e, 0).unwrap();
    assert_eq!(p.id, "fixed");
    assert_eq!(p.name, "news.example.com");
    let q = prepare_server(sample_server(), 0x0123_4567_89ab_cdef_0123_4567_89ab_cdef).unwrap();
    assert_eq!(q.id, "01234567-89ab-cdef-0123-456789abcdef");
}

#[test]
fn delete_removes_every_server_with_the_id() {
    let mut servers = vec![named("a", 0, true), named("b", 0, true), named("a", 1, false)];
    assert!(delete_server(&mut servers, "a"));
    assert_eq!(servers.len(), 1);
    assert_eq!(servers[0].id, "b");
}

#[test]
fn pools_follow_priority_and_skip_disabled_servers() {
    let servers = vec![
        named("low", 5, true),
        named("off", 0, false),
        named("first", 0, true),
        named("second", 0, true),
        named("top", 255, true),
    ];
    let order: Vec<String> = enabled_by_priority(&servers).into_iter().map(|s| s.id).collect();
    assert_eq!(order, vec!["first", "second", "low", "top"]);
}

#[test]
fn serde_defaults() {
    assert_eq!(default_port(), 563);
    assert!(default_true());
    assert_eq!(default_connections(), 8);
}

#[test]
fn connection_test_answers() {
    let ok = TestResult::from_outcome(Ok(()));
    assert!(ok.success);
    assert_eq!(ok.message, "Connection successful");
    let bad = TestResult::from_outcome(Err("timed out".to_string()));
    assert!(!bad.success);
    assert_eq!(bad.message, "Connection failed: timed out");
}

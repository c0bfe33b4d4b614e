use nzbdav::arr::{
    arr_api_url, arr_request, find_stuck_items, rclone_base_url, rclone_vfs_url, stuck_step,
    ArrBody, ArrCall, ArrConfig, ArrQueueItem, HttpMethod, StuckAction, StuckStep, VfsAction,
};

fn item(id: i32, status: Option<&str>, error: Option<&str>) -> ArrQueueItem {
    ArrQueueItem {
        id,
        title: format!("title {id}"),
        status: "downloading".to_string(),
        download_id: None,
        tracked_download_status: status.map(|s| s.to_string()),
        tracked_download_state: None,
        error_message: error.map(|s| s.to_string()),
    }
}

fn config() -> ArrConfig {
    ArrConfig {
        name: "sonarr".to_string(),
        base_url: "http://sonarr:8989//".to_string(),
        api_key: "k".to_string(),
    }
}

fn query_of(call: ArrCall) -> Vec<(String, String)> {
    arr_request(&config(), &call).unwrap().query
}

#[test]
fn stuck_items_have_warnings_or_errors() {
    let records = vec![
        item(1, Some("ok"), None),
        item(2, Some("Warning"), None),
        item(3, None, Some("boom")),
        item(4, Some("warningx"), None),
        item(5, Some("WARNING"), Some("both")),
    ];
    let stuck = find_stuck_items(&records);
    let ids: Vec<i32> = stuck.iter().map(|s| s.id).collect();
    assert_eq!(ids, vec![2, 3, 5]);
    assert_eq!(stuck[1].title, "title 3");
    assert_eq!(stuck[1].error_message.as_deref(), Some("boom"));
}

#[test]
fn stuck_actions() {
    assert_eq!(stuck_step(StuckAction::Remove), StuckStep::Delete { blocklist: false });
    assert_eq!(stuck_step(StuckAction::RemoveAndBlocklist), StuckStep::Delete { blocklist: true });
    assert_eq!(stuck_step(StuckAction::Warn), StuckStep::Warn);
}

#[test]
fn api_urls_drop_trailing_slashes() {
    assert_eq!(arr_api_url("http://radarr:7878/", "queue"), "http://radarr:7878/api/v3/queue");
    assert_eq!(arr_api_url("http://radarr:7878", "command"), "http://radarr:7878/api/v3/command");
}

#[test]
fn requests_of_each_call() {
    let r = arr_request(&config(), &ArrCall::DownloadClients).unwrap();
    assert_eq!(r.method, HttpMethod::Get);
    assert_eq!(r.url, "http://sonarr:8989/api/v3/downloadclient");
    assert!(r.query.is_empty());

    let r = arr_request(&config(), &ArrCall::RefreshMonitoredDownloads).unwrap();
    assert_eq!(r.method, HttpMethod::Post);
    assert!(matches!(r.body, ArrBody::Command(ref n) if n == "RefreshMonitoredDownloads"));

    assert_eq!(
        query_of(ArrCall::Queue),
        vec![("page".to_string(), "1".to_string()), ("pageSize".to_string(), "100".to_string())]
    );

    let r = arr_request(&config(), &ArrCall::DeleteQueueItem { id: -7, blocklist: true }).unwrap();
    assert_eq!(r.method, HttpMethod::Delete);
    assert_eq!(r.url, "http://sonarr:8989/api/v3/queue/-7");
    assert_eq!(
        r.query,
        vec![
            ("removeFromClient".to_string(), "true".to_string()),
            ("blocklist".to_string(), "true".to_string())
        ]
    );

    let r = arr_request(&config(), &ArrCall::DeleteQueueBulk { ids: vec![1, 2], blocklist: false })
        .unwrap();
    assert_eq!(r.url, "http://sonarr:8989/api/v3/queue/bulk");
    assert_eq!(r.query[1].1, "false");
    assert!(matches!(r.body, ArrBody::Ids(ref v) if v == &vec![1, 2]));

    assert!(arr_request(&config(), &ArrCall::DeleteQueueBulk { ids: vec![], blocklist: true })
        .is_none());
}

#[test]
fn rclone_urls() {
    let base = rclone_base_url("http://rclone:5572///");
    assert_eq!(base, "http://rclone:5572");
    assert_eq!(rclone_vfs_url(&base, VfsAction::Forget), "http://rclone:5572/vfs/forget");
    assert_eq!(rclone_vfs_url(&base, VfsAction::Refresh), "http://rclone:5572/vfs/refresh");
}

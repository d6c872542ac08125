use lerobot_mcp::client::{is_success_status, HubClient};
use lerobot_mcp::error::AppError;

#[test]
fn server_creates_without_panic() {
    let _client = HubClient::new(None).unwrap();
}

#[test]
fn token_becomes_bearer_header() {
    let c = HubClient::new(Some("hf_abc")).unwrap();
    assert_eq!(c.authorization.as_deref(), Some("Bearer hf_abc"));
    assert_eq!(c.hf_api_base, "https://huggingface.co/api");
    assert_eq!(c.ds_server_base, "https://datasets-server.huggingface.co");
}

#[test]
fn token_with_control_character_is_refused() {
    match HubClient::new(Some("bad\ntoken")) {
        Err(AppError::InvalidConfig { message }) => {
            assert_eq!(message, "Invalid HF token: failed to parse header value")
        }
        other => panic!("unexpected {other:?}"),
    }
}

#[test]
fn urls_are_encoded() {
    let c = HubClient::new(None).unwrap();
    assert_eq!(
        c.search_datasets_url("pick & place/ü", 30),
        "https://huggingface.co/api/datasets?search=pick%20%26%20place%2F%C3%BC&filter=other:LeRobot&sort=downloads&direction=-1&limit=30&full=true&cardData=true"
    );
    assert_eq!(
        c.dataset_detail_url("lerobot/aloha_sim"),
        "https://huggingface.co/api/datasets/lerobot%2Faloha_sim?full=true"
    );
    assert_eq!(
        c.dataset_server_info_url("a/b"),
        "https://datasets-server.huggingface.co/info?dataset=a%2Fb"
    );
    assert_eq!(c.dataset_size_url("a-b.c~d"), "https://datasets-server.huggingface.co/size?dataset=a-b.c~d");
}

#[test]
fn row_pages_are_capped_at_100() {
    let c = HubClient::new(None).unwrap();
    assert_eq!(
        c.dataset_rows_url("a/b", "default", "train", 40, 500),
        "https://datasets-server.huggingface.co/rows?dataset=a%2Fb&config=default&split=train&offset=40&length=100"
    );
    assert_eq!(
        c.filter_rows_url("a/b", "default", "train", "\"episode_index\"=3", 0, 20),
        "https://datasets-server.huggingface.co/filter?dataset=a%2Fb&config=default&split=train&where=%22episode_index%22%3D3&offset=0&length=20"
    );
}

#[test]
fn errors_map_by_status() {
    let c = HubClient::new(None).unwrap();
    match c.map_error(404, "https://huggingface.co/api/datasets/user/ds?full=true", String::new()) {
        AppError::NotFound { repo_id } => assert_eq!(repo_id, "user/ds"),
        other => panic!("unexpected {other:?}"),
    }
    match c.map_error(404, "https://datasets-server.huggingface.co/size?dataset=x", String::new()) {
        AppError::NotFound { repo_id } => assert_eq!(repo_id, "unknown"),
        other => panic!("unexpected {other:?}"),
    }
    assert!(matches!(c.map_error(429, "u", String::new()), AppError::RateLimited { retry_after_secs: 60 }));
    match c.map_error(500, "u", "boom".to_string()) {
        AppError::HubApi { status, url, body } => {
            assert_eq!((status, url.as_str(), body.as_str()), (500, "u", "boom"))
        }
        other => panic!("unexpected {other:?}"),
    }
}

#[test]
fn error_messages() {
    assert_eq!(AppError::NotFound { repo_id: "a/b".to_string() }.message(), "Dataset not found: a/b");
    assert_eq!(
        AppError::RateLimited { retry_after_secs: 60 }.message(),
        "Rate limited by HF Hub, retry after 60s"
    );
    assert_eq!(
        AppError::HubApi { status: 503, url: "u".to_string(), body: String::new() }.message(),
        "Hub API error: HTTP 503 for u"
    );
    assert_eq!(
        AppError::InvalidConfig { message: "m".to_string() }.message(),
        "Invalid configuration: m"
    );
}

#[test]
fn success_statuses_are_200_to_299() {
    assert!(is_success_status(200));
    assert!(is_success_status(204));
    assert!(is_success_status(299));
    assert!(!is_success_status(199));
    assert!(!is_success_status(300));
    assert!(!is_success_status(404));
}

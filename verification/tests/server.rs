use lerobot_mcp::error::AppError;
use lerobot_mcp::server::{echo_text, search_request, EchoParams, SearchDatasetsParams};

fn params(query: &str, limit: Option<u32>) -> SearchDatasetsParams {
    SearchDatasetsParams { query: query.to_string(), robot_type: Some("koch".to_string()), min_episodes: Some(3), limit }
}

#[test]
fn search_request_trims_and_caps() {
    let r = search_request(&params("  aloha\t", None)).unwrap();
    assert_eq!(r.query, "aloha");
    assert_eq!(r.limit, 10);
    assert_eq!(r.robot_type.as_deref(), Some("koch"));
    assert_eq!(r.min_episodes, Some(3));
    assert_eq!(search_request(&params("x", Some(500))).unwrap().limit, 50);
    assert_eq!(search_request(&params("x", Some(7))).unwrap().limit, 7);
}

#[test]
fn empty_query_is_refused() {
    match search_request(&params(" \n ", Some(5))) {
        Err(AppError::InvalidParam { message }) => assert_eq!(message, "query parameter cannot be empty"),
        other => panic!("unexpected {other:?}"),
    }
}

#[test]
fn echo_answers_with_prefix() {
    assert_eq!(echo_text(&EchoParams { message: "hi".to_string() }), "echo: hi");
}

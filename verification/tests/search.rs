use lerobot_mcp::json::{JsonNumber, JsonValue};
use lerobot_mcp::search::{fetch_limit, filter_search_results, SearchResult, SearchResultItem};
use lerobot_mcp::types::{CardData, DatasetListItem};

fn card(robot: Option<&str>, episodes: Option<u64>) -> CardData {
    let mut extra = Vec::new();
    if let Some(r) = robot {
        extra.push(("robot_type".to_string(), JsonValue::String(r.to_string())));
    }
    if let Some(e) = episodes {
        extra.push(("num_episodes".to_string(), JsonValue::Number(JsonNumber::PosInt(e))));
    }
    extra.push(("fps".to_string(), JsonValue::Number(JsonNumber::PosInt(30))));
    CardData { tags: None, task_categories: None, license: None, configs: None, extra }
}

fn item(id: &str, card_data: Option<CardData>, tags: Option<Vec<&str>>) -> DatasetListItem {
    DatasetListItem {
        id: id.to_string(),
        author: None,
        likes: Some(3),
        downloads: Some(100),
        downloads_all_time: None,
        last_modified: None,
        created_at: None,
        tags: tags.map(|t| t.into_iter().map(|s| s.to_string()).collect()),
        private: None,
        card_data,
        sha: None,
        description: Some("desc".to_string()),
        citation: None,
    }
}

fn ids(r: &SearchResult) -> Vec<String> {
    r.items.iter().map(|i| i.repo_id.clone()).collect()
}

#[test]
fn fetch_limit_over_fetches_when_filtering() {
    assert_eq!(fetch_limit(None, None, 10), 10);
    assert_eq!(fetch_limit(Some("so100"), None, 10), 30);
    assert_eq!(fetch_limit(None, Some(5), 50), 100);
    assert_eq!(fetch_limit(None, None, 500), 500);
}

#[test]
fn filter_by_robot_type_and_tags() {
    let items = vec![
        item("a/so100", Some(card(Some("SO100-arm"), Some(50))), None),
        item("b/aloha", Some(card(Some("aloha"), Some(50))), None),
        item("c/tagged", None, Some(vec!["LeRobot", "So100"])),
        item("d/none", None, None),
    ];
    let r = filter_search_results(items, Some("so100"), None, 10);
    assert_eq!(ids(&r), vec!["a/so100", "c/tagged"]);
    assert_eq!(r.total_found, 4);
    assert_eq!(r.total_after_filter, 2);
}

#[test]
fn unknown_episode_count_is_kept() {
    let items = vec![
        item("a", Some(card(None, Some(3))), None),
        item("b", Some(card(None, Some(30))), None),
        item("c", Some(card(None, None)), None),
        item("d", None, None),
    ];
    let r = filter_search_results(items, None, Some(10), 10);
    assert_eq!(ids(&r), vec!["b", "c", "d"]);
}

#[test]
fn results_are_cut_at_the_limit() {
    let items = vec![item("a", None, None), item("b", None, None), item("c", None, None)];
    let r = filter_search_results(items, None, None, 2);
    assert_eq!(ids(&r), vec!["a", "b"]);
    assert_eq!(r.total_found, 3);
    assert_eq!(r.total_after_filter, 2);
    let r = filter_search_results(vec![item("a", None, None)], None, None, 0);
    assert!(r.items.is_empty());
}

#[test]
fn result_items_carry_card_metadata() {
    let r = filter_search_results(vec![item("a", Some(card(Some("koch"), Some(7))), None)], None, None, 5);
    let it = &r.items[0];
    assert_eq!(it.robot_type.as_deref(), Some("koch"));
    assert_eq!(it.num_episodes, Some(7));
    assert_eq!(it.fps, Some(30));
    assert_eq!(it.downloads, Some(100));
    assert_eq!(it.likes, Some(3));
    assert_eq!(it.description.as_deref(), Some("desc"));
}

#[test]
fn markdown_for_empty_result() {
    let r = SearchResult { items: vec![], total_found: 5, total_after_filter: 0 };
    assert_eq!(r.to_markdown(), "No datasets found matching your criteria.\n");
}

#[test]
fn markdown_table() {
    let r = SearchResult {
        items: vec![
            SearchResultItem {
                repo_id: "lerobot/aloha".to_string(),
                robot_type: Some("aloha".to_string()),
                num_episodes: Some(50),
                downloads: Some(1234),
                likes: None,
                description: None,
                fps: Some(50),
                tasks: vec!["fold".to_string(), "stack".to_string()],
            },
            SearchResultItem {
                repo_id: "x/y".to_string(),
                robot_type: None,
                num_episodes: None,
                downloads: None,
                likes: None,
                description: None,
                fps: None,
                tasks: vec![],
            },
        ],
        total_found: 7,
        total_after_filter: 2,
    };
    assert_eq!(
        r.to_markdown(),
        "Found 7 datasets (2 after filtering):\n\n\
         | Dataset | Robot | Episodes | Downloads | FPS | Tasks |\n\
         |---------|-------|----------|-----------|-----|-------|\n\
         | lerobot/aloha | aloha | 50 | 1234 | 50 | fold, stack |\n\
         | x/y | - | - | - | - | - |\n"
    );
}

#[test]
fn robot_type_case_is_ignored() {
    let make = || {
        vec![
            item("a/so100", Some(card(Some("so100"), Some(50))), None),
            item("b/koch", Some(card(Some("koch"), Some(50))), Some(vec!["SO100-follower"])),
            item("c/aloha", Some(card(Some("aloha"), Some(50))), None),
        ]
    };
    let lower = filter_search_results(make(), Some("so100"), None, 10);
    let upper = filter_search_results(make(), Some("SO100"), None, 10);
    assert_eq!(ids(&lower), vec!["a/so100", "b/koch"]);
    assert_eq!(ids(&upper), ids(&lower));
    assert_eq!(upper.total_found, lower.total_found);
    assert_eq!(upper.total_after_filter, lower.total_after_filter);
    // Beyond ASCII the Unicode mapping applies.
    let r = filter_search_results(
        vec![item("d/umlaut", Some(card(Some("ÄRM"), None)), None)],
        Some("ärm"),
        None,
        10,
    );
    assert_eq!(ids(&r), vec!["d/umlaut"]);
}

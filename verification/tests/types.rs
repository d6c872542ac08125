use lerobot_mcp::json::{JsonNumber, JsonValue};
use lerobot_mcp::size_format::format_bytes;
use lerobot_mcp::types::{extract_json_block, CardData, DatasetListItem, LeRobotMetadata};

fn to_model(v: serde_json::Value) -> JsonValue {
    match v {
        serde_json::Value::Null => JsonValue::Null,
        serde_json::Value::Bool(b) => JsonValue::Bool(b),
        serde_json::Value::Number(n) => JsonValue::Number(match (n.as_u64(), n.as_i64()) {
            (Some(u), _) => JsonNumber::PosInt(u),
            (None, Some(i)) => JsonNumber::NegInt(i),
            (None, None) => JsonNumber::Float(n.to_string()),
        }),
        serde_json::Value::String(s) => JsonValue::String(s),
        serde_json::Value::Array(a) => JsonValue::Array(a.into_iter().map(to_model).collect()),
        serde_json::Value::Object(m) => {
            JsonValue::Object(m.into_iter().map(|(k, x)| (k, to_model(x))).collect())
        }
    }
}

fn strings(v: Option<serde_json::Value>) -> Option<Vec<String>> {
    v.and_then(|x| x.as_array().map(|a| a.iter().filter_map(|s| s.as_str().map(|s| s.to_string())).collect()))
}

/// Builds card data the way the card's front matter deserializes: the named
/// members go to their fields, every other member to `extra`.
fn card_from_json(text: &str) -> CardData {
    let v: serde_json::Value = serde_json::from_str(text).unwrap();
    let mut map = match v {
        serde_json::Value::Object(m) => m,
        _ => panic!("not an object"),
    };
    let tags = strings(map.remove("tags"));
    let task_categories = strings(map.remove("task_categories"));
    let license = map.remove("license").and_then(|l| l.as_str().map(|s| s.to_string()));
    map.remove("configs");
    let extra = map.into_iter().map(|(k, x)| (k, to_model(x))).collect();
    CardData { tags, task_categories, license, configs: None, extra }
}

fn item(id: &str) -> DatasetListItem {
    DatasetListItem {
        id: id.to_string(),
        author: None,
        likes: None,
        downloads: None,
        downloads_all_time: None,
        last_modified: None,
        created_at: None,
        tags: None,
        private: None,
        card_data: None,
        sha: None,
        description: None,
        citation: None,
    }
}

#[test]
fn format_bytes_works() {
    assert_eq!(format_bytes(0), "0 B");
    assert_eq!(format_bytes(512), "512 B");
    assert_eq!(format_bytes(1024), "1.0 KB");
    assert_eq!(format_bytes(1_500_000), "1.4 MB");
    assert_eq!(format_bytes(2_500_000_000), "2.3 GB");
}

fn float_formatting(bytes: u64) -> String {
    const KB: u64 = 1024;
    const MB: u64 = KB * 1024;
    const GB: u64 = MB * 1024;
    const TB: u64 = GB * 1024;
    if bytes >= TB {
        format!("{:.1} TB", bytes as f64 / TB as f64)
    } else if bytes >= GB {
        format!("{:.1} GB", bytes as f64 / GB as f64)
    } else if bytes >= MB {
        format!("{:.1} MB", bytes as f64 / MB as f64)
    } else if bytes >= KB {
        format!("{:.1} KB", bytes as f64 / KB as f64)
    } else {
        format!("{bytes} B")
    }
}

#[test]
fn format_bytes_agrees_with_float_formatting() {
    let mut samples: Vec<u64> = vec![
        1023, 1024, 1075, 1076, 1126, 1127, 2304, 2355, 2406, 1_048_575, 1_048_576, 1_101_005,
        1_153_433, 1_073_741_823, 1_073_741_824, 1_099_511_627_775, 1_099_511_627_776,
        (1u64 << 53) - 1, 1u64 << 53, (1u64 << 53) + 1, (1u64 << 53) + 3, (1u64 << 54) + 2,
        (1u64 << 54) + 6, u64::MAX - 1, u64::MAX, 18_446_744_073_709_550_592,
        18_446_744_073_709_549_568, 9_007_199_254_740_993,
    ];
    let mut x: u64 = 0x9e37_79b9_7f4a_7c15;
    for _ in 0..20000 {
        x ^= x << 13;
        x ^= x >> 7;
        x ^= x << 17;
        samples.push(x >> (x % 64));
        samples.push((x % 4096) * 256);
    }
    for b in samples {
        assert_eq!(format_bytes(b), float_formatting(b), "bytes = {b}");
    }
}

#[test]
fn format_bytes_units() {
    assert_eq!(format_bytes(1023), "1023 B");
    assert_eq!(format_bytes(2304), "2.2 KB");
    assert_eq!(format_bytes(1u64 << 40), "1.0 TB");
    assert_eq!(format_bytes(u64::MAX), "16777216.0 TB");
}

#[test]
fn card_data_extracts_lerobot_metadata() {
    let json = r#"{
            "tags": ["LeRobot", "so100"],
            "robot_type": "so100",
            "fps": 30,
            "num_episodes": 50,
            "features": {
                "observation.state": {"type": "float32", "shape": [6]},
                "action": {"type": "float32", "shape": [6]}
            }
        }"#;
    let cd = card_from_json(json);
    let meta = cd.lerobot_metadata();
    assert_eq!(meta.robot_type.as_deref(), Some("so100"));
    assert_eq!(meta.fps, Some(30));
    assert_eq!(meta.num_episodes, Some(50));
    assert_eq!(meta.features.len(), 2);
    assert!(meta.features.contains(&"action".to_string()));
}

#[test]
fn card_tasks_from_array_or_string() {
    let cd = card_from_json(r#"{"tasks": ["pick", 3, "place"], "env_type": "real_world", "num_frames": 900}"#);
    let meta = cd.lerobot_metadata();
    assert_eq!(meta.tasks, vec!["pick".to_string(), "place".to_string()]);
    assert_eq!(meta.env_type.as_deref(), Some("real_world"));
    assert_eq!(meta.num_frames, Some(900));
    let cd = card_from_json(r#"{"tasks": "fold the towel"}"#);
    assert_eq!(cd.lerobot_metadata().tasks, vec!["fold the towel".to_string()]);
    let cd = card_from_json(r#"{"tasks": {"a": 1}}"#);
    assert!(cd.lerobot_metadata().tasks.is_empty());
}

#[test]
fn card_fields_of_wrong_type_are_ignored() {
    let cd = card_from_json(r#"{"robot_type": 5, "fps": "30", "num_episodes": -3, "features": ["x"]}"#);
    let meta = cd.lerobot_metadata();
    assert_eq!(meta.robot_type, None);
    assert_eq!(meta.fps, None);
    assert_eq!(meta.num_episodes, None);
    assert!(meta.features.is_empty());
}

#[test]
fn card_fps_keeps_low_bits() {
    let cd = card_from_json(r#"{"fps": 4294967326}"#);
    assert_eq!(cd.lerobot_metadata().fps, Some(30));
}

#[test]
fn empty_card_gives_empty_metadata() {
    let cd = card_from_json("{}");
    let meta = cd.lerobot_metadata();
    assert!(meta.robot_type.is_none() && meta.fps.is_none() && meta.tasks.is_empty());
    let d = LeRobotMetadata::default();
    assert!(d.num_episodes.is_none() && d.features.is_empty() && d.env_type.is_none());
}

#[test]
fn extract_json_block_finds_balanced_object() {
    assert_eq!(extract_json_block(r#"{"a": {"b": 1}} trailing }"#).as_deref(), Some(r#"{"a": {"b": 1}}"#));
    assert_eq!(extract_json_block("{{}"), None);
    assert_eq!(extract_json_block("no braces"), None);
    assert_eq!(extract_json_block("}{}"), None);
    assert_eq!(extract_json_block("}{{}}}").as_deref(), Some("}{{}"));
    assert_eq!(extract_json_block("x{é}"), Some("x{é}".to_string()));
}

#[test]
fn description_info_fills_missing_metadata() {
    let mut it = item("user/ds");
    it.description = Some(
        r#"This dataset was created using LeRobot. meta/info.json: {"robot_type": "koch", "fps": 15, "total_episodes": 12, "total_frames": 3400, "features": {"action": {}, "observation.state": {}}} end"#
            .to_string(),
    );
    let meta = it.lerobot_metadata();
    assert_eq!(meta.robot_type.as_deref(), Some("koch"));
    assert_eq!(meta.fps, Some(15));
    assert_eq!(meta.num_episodes, Some(12));
    assert_eq!(meta.num_frames, Some(3400));
    assert_eq!(meta.features, vec!["action".to_string(), "observation.state".to_string()]);
}

#[test]
fn card_metadata_takes_priority_over_description() {
    let mut it = item("user/ds");
    it.card_data = Some(card_from_json(r#"{"robot_type": "so100", "fps": 30}"#));
    it.description = Some(r#"{"robot_type": "aloha", "fps": 50, "total_episodes": 7}"#.to_string());
    let meta = it.lerobot_metadata();
    assert_eq!(meta.robot_type.as_deref(), Some("so100"));
    assert_eq!(meta.fps, Some(30));
    assert_eq!(meta.num_episodes, Some(7));
}

#[test]
fn unparsable_description_is_ignored() {
    let mut it = item("user/ds");
    it.description = Some("see {not json} here".to_string());
    let meta = it.lerobot_metadata();
    assert!(meta.robot_type.is_none() && meta.num_episodes.is_none());
    it.description = Some("no object at all".to_string());
    assert!(it.lerobot_metadata().fps.is_none());
}

#[test]
fn repeated_feature_names_are_listed_once() {
    let features = JsonValue::Object(vec![
        ("action".to_string(), JsonValue::Null),
        ("state".to_string(), JsonValue::Null),
        ("action".to_string(), JsonValue::Bool(true)),
    ]);
    let cd = CardData {
        tags: None,
        task_categories: None,
        license: None,
        configs: None,
        extra: vec![("features".to_string(), features)],
    };
    assert_eq!(cd.lerobot_metadata().features, vec!["action".to_string(), "state".to_string()]);
    assert_eq!(
        lerobot_mcp::json::keys_of(&vec![
            ("b".to_string(), JsonValue::Null),
            ("a".to_string(), JsonValue::Null),
            ("b".to_string(), JsonValue::Null),
            ("a".to_string(), JsonValue::Null),
        ]),
        vec!["b".to_string(), "a".to_string()]
    );
}

#[test]
fn fractional_numbers_keep_their_text_and_are_not_counts() {
    let v = to_model(serde_json::from_str("1.5").unwrap());
    assert!(matches!(&v, JsonValue::Number(JsonNumber::Float(t)) if t == "1.5"));
    assert_eq!(v.as_u64(), None);
    let mut it = item("u/fraction");
    it.description = Some(r#"info: {"fps": 29.97, "total_episodes": 4}"#.to_string());
    let meta = it.lerobot_metadata();
    assert_eq!(meta.fps, None);
    assert_eq!(meta.num_episodes, Some(4));
}

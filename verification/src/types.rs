//! Records of the Hugging Face Hub API and of the datasets-server API, and
//! the extraction of LeRobot metadata from them.
//!
//! Community LeRobot datasets carry inconsistent metadata, so every field
//! that the API may leave out is optional here, and extraction is best-effort.

use vstd::prelude::*;

use crate::json::{
    entry_keys, json_as_str, json_as_u64, json_get, json_object_keys, keys_of, lookup,
    lookup_entry, string_elements, strings_of, JsonValue, json_parse, parse_json,
};
use crate::text::{chars_of, find_char, first_index_of, string_from_range};

pub use crate::size_format::format_bytes;

verus! {

/// A single dataset from the Hub listing/search endpoint
/// (`GET /api/datasets?search=...&full=true&cardData=true`).
#[derive(Debug)]
pub struct DatasetListItem {
    /// Full repo ID, e.g. "lerobot/aloha_mobile_cabinet".
    pub id: String,
    /// Display name (often the owner part of the id).
    pub author: Option<String>,
    /// Number of likes on the Hub.
    pub likes: Option<u64>,
    /// Number of downloads (last 30 days).
    pub downloads: Option<u64>,
    /// Total all-time downloads.
    pub downloads_all_time: Option<u64>,
    /// ISO timestamp of last modification.
    pub last_modified: Option<String>,
    /// ISO timestamp of creation.
    pub created_at: Option<String>,
    /// Tags applied to the dataset (e.g. ["LeRobot", "robotics"]).
    pub tags: Option<Vec<String>>,
    /// Whether the dataset is private.
    pub private: Option<bool>,
    /// The dataset card's YAML front matter, where LeRobot metadata lives.
    pub card_data: Option<CardData>,
    /// Git SHA of the latest commit.
    pub sha: Option<String>,
    /// Short description from the dataset card.
    pub description: Option<String>,
    /// Citation string.
    pub citation: Option<String>,
}

/// Detailed info for a single dataset (`GET /api/datasets/{repo_id}?full=true`):
/// the same record as a search result.
pub type DatasetDetail = DatasetListItem;

/// The front matter of a dataset card.
#[derive(Debug)]
pub struct CardData {
    /// Tags from the front matter (e.g. ["LeRobot", "so100", "tutorial"]).
    pub tags: Option<Vec<String>>,
    /// Task categories (e.g. ["robotics"]).
    pub task_categories: Option<Vec<String>>,
    /// License (e.g. "apache-2.0").
    pub license: Option<String>,
    /// The card's configs block.
    pub configs: Option<Vec<DatasetConfig>>,
    /// Every other top-level member of the front matter (such as
    /// `robot_type`, `fps`, `features`), by name; a lookup takes the first
    /// member of a name.
    pub extra: Vec<(String, JsonValue)>,
}

/// A config entry from the dataset card.
#[derive(Debug)]
pub struct DatasetConfig {
    pub config_name: Option<String>,
    pub data_files: Option<JsonValue>,
}

/// LeRobot-specific metadata of a dataset.
#[derive(Debug)]
pub struct LeRobotMetadata {
    /// Robot type (e.g. "so100", "aloha", "widowx", "koch").
    pub robot_type: Option<String>,
    /// Frames per second.
    pub fps: Option<u32>,
    /// Number of episodes.
    pub num_episodes: Option<u64>,
    /// Number of frames in all.
    pub num_frames: Option<u64>,
    /// Task descriptions.
    pub tasks: Vec<String>,
    /// Feature names (e.g. "observation.state", "action").
    pub features: Vec<String>,
    /// Environment type (e.g. "real_world", "sim_transfer_cube").
    pub env_type: Option<String>,
}

/// The texts of a list of strings.
pub open spec fn texts(v: Seq<String>) -> Seq<Seq<char>> {
    v.map_values(|s: String| s@)
}

/// The text of an optional string.
pub open spec fn opt_text(o: Option<String>) -> Option<Seq<char>> {
    match o {
        Some(s) => Some(s@),
        None => None,
    }
}

/// `LeRobotMetadata` as plain values.
pub ghost struct MetadataView {
    pub robot_type: Option<Seq<char>>,
    pub fps: Option<u32>,
    pub num_episodes: Option<u64>,
    pub num_frames: Option<u64>,
    pub tasks: Seq<Seq<char>>,
    pub features: Seq<Seq<char>>,
    pub env_type: Option<Seq<char>>,
}

impl View for LeRobotMetadata {
    type V = MetadataView;

    open spec fn view(&self) -> MetadataView {
        MetadataView {
            robot_type: opt_text(self.robot_type),
            fps: self.fps,
            num_episodes: self.num_episodes,
            num_frames: self.num_frames,
            tasks: texts(self.tasks@),
            features: texts(self.features@),
            env_type: opt_text(self.env_type),
        }
    }
}

/// Metadata that knows nothing.
pub open spec fn empty_metadata() -> MetadataView {
    MetadataView {
        robot_type: None,
        fps: None,
        num_episodes: None,
        num_frames: None,
        tasks: Seq::empty(),
        features: Seq::empty(),
        env_type: None,
    }
}

impl Default for LeRobotMetadata {
    fn default() -> (m: Self)
        ensures
            m@ == empty_metadata(),
    {
        let m = LeRobotMetadata {
            robot_type: None,
            fps: None,
            num_episodes: None,
            num_frames: None,
            tasks: Vec::new(),
            features: Vec::new(),
            env_type: None,
        };
        assert(texts(m.tasks@) =~= Seq::empty());
        m
    }
}

/// The text of member `key` of a JSON value, where it is a string.
pub open spec fn str_member(v: JsonValue, key: Seq<char>) -> Option<Seq<char>> {
    match json_get(v, key) {
        Some(x) => json_as_str(x),
        None => None,
    }
}

/// Member `key` of a JSON value, where it is a non-negative integer in `u64`.
pub open spec fn u64_member(v: JsonValue, key: Seq<char>) -> Option<u64> {
    match json_get(v, key) {
        Some(x) => json_as_u64(x),
        None => None,
    }
}

/// The text of front-matter member `key`, where it is a string.
pub open spec fn str_entry(extra: Seq<(String, JsonValue)>, key: Seq<char>) -> Option<Seq<char>> {
    match lookup(extra, key) {
        Some(x) => json_as_str(x),
        None => None,
    }
}

/// Front-matter member `key`, where it is a non-negative integer in `u64`.
pub open spec fn u64_entry(extra: Seq<(String, JsonValue)>, key: Seq<char>) -> Option<u64> {
    match lookup(extra, key) {
        Some(x) => json_as_u64(x),
        None => None,
    }
}

/// A frame rate read as `u64` and kept in `u32` (the low 32 bits).
pub open spec fn fps_of(n: Option<u64>) -> Option<u32> {
    match n {
        Some(v) => Some(v as u32),
        None => None,
    }
}

/// The metadata that a card's front matter states: `robot_type`, `fps`,
/// `num_episodes`, `num_frames` and `env_type` where they have the right JSON
/// type; `tasks` from an array (its string elements) or from one string;
/// `features` as the member names of an object.
pub open spec fn card_metadata(extra: Seq<(String, JsonValue)>) -> MetadataView {
    MetadataView {
        robot_type: str_entry(extra, "robot_type"@),
        fps: fps_of(u64_entry(extra, "fps"@)),
        num_episodes: u64_entry(extra, "num_episodes"@),
        num_frames: u64_entry(extra, "num_frames"@),
        tasks: match lookup(extra, "tasks"@) {
            Some(JsonValue::Array(items)) => string_elements(items@),
            Some(JsonValue::String(s)) => seq![s@],
            _ => Seq::empty(),
        },
        features: match lookup(extra, "features"@) {
            Some(JsonValue::Object(entries)) => entry_keys(entries@),
            _ => Seq::empty(),
        },
        env_type: str_entry(extra, "env_type"@),
    }
}

/// The text of a found JSON value, where it is a string.
fn text_of(v: Option<&JsonValue>) -> (r: Option<String>)
    ensures
        opt_text(r) == match v {
            Some(x) => json_as_str(*x),
            None => None,
        },
{
    match v {
        Some(x) => match x.as_str() {
            Some(s) => Some(s.clone()),
            None => None,
        },
        None => None,
    }
}

/// A found JSON value, where it is a non-negative integer in `u64`.
fn u64_of(v: Option<&JsonValue>) -> (r: Option<u64>)
    ensures
        r == match v {
            Some(x) => json_as_u64(*x),
            None => None,
        },
{
    match v {
        Some(x) => x.as_u64(),
        None => None,
    }
}

/// Keeps the low 32 bits of a frame rate.
fn fps_from(n: Option<u64>) -> (r: Option<u32>)
    ensures
        r == fps_of(n),
{
    match n {
        Some(v) => Some(#[verifier::truncate] (v as u32)),
        None => None,
    }
}

impl CardData {
    /// Extracts LeRobot metadata from the card's front matter (best effort).
    pub fn lerobot_metadata(&self) -> (m: LeRobotMetadata)
        ensures
            m@ == card_metadata(self.extra@),
    {
        let mut meta = LeRobotMetadata::default();
        meta.robot_type = text_of(lookup_entry(&self.extra, "robot_type"));
        meta.fps = fps_from(u64_of(lookup_entry(&self.extra, "fps")));
        meta.num_episodes = u64_of(lookup_entry(&self.extra, "num_episodes"));
        meta.num_frames = u64_of(lookup_entry(&self.extra, "num_frames"));
        meta.env_type = text_of(lookup_entry(&self.extra, "env_type"));
        match lookup_entry(&self.extra, "tasks") {
            Some(JsonValue::Array(items)) => {
                meta.tasks = strings_of(items);
            },
            Some(JsonValue::String(s)) => {
                let mut tasks: Vec<String> = Vec::new();
                tasks.push(s.clone());
                assert(texts(tasks@) =~= seq![s@]);
                meta.tasks = tasks;
            },
            _ => {},
        }
        match lookup_entry(&self.extra, "features") {
            Some(JsonValue::Object(entries)) => {
                meta.features = keys_of(entries);
            },
            _ => {},
        }
        meta
    }
}

} // verus!

verus! {

/// How a character moves the brace depth.
pub open spec fn brace_step(c: char) -> int {
    if c == '{' {
        1
    } else if c == '}' {
        -1
    } else {
        0
    }
}

/// The brace depth after reading `s`: opening braces minus closing braces.
pub open spec fn brace_depth(s: Seq<char>) -> int
    decreases s.len(),
{
    if s.len() == 0 {
        0
    } else {
        brace_depth(s.drop_last()) + brace_step(s.last())
    }
}

/// Position `j` of `s` holds a closing brace that brings the depth back to 0.
pub open spec fn closes_at(s: Seq<char>, j: int) -> bool {
    0 <= j < s.len() && s[j] == '}' && brace_depth(s.take(j + 1)) == 0
}

/// The shortest prefix of `s` that ends in a closing brace bringing the
/// brace depth back to 0; nothing where no closing brace does.
pub open spec fn json_block(s: Seq<char>) -> Option<Seq<char>> {
    if exists|j: int| closes_at(s, j) {
        let j = choose|j: int| closes_at(s, j) && forall|k: int| 0 <= k < j ==> !closes_at(s, k);
        Some(s.take(j + 1))
    } else {
        None
    }
}

/// Extracts a JSON object from the start of a string, counting nested braces:
/// the shortest prefix that ends in a `}` which brings the brace depth back
/// to 0. Braces inside JSON strings are counted too.
pub fn extract_json_block(s: &str) -> (r: Option<String>)
    ensures
        match r {
            Some(b) => exists|j: int|
                #![trigger closes_at(s@, j)]
                closes_at(s@, j) && (forall|k: int| 0 <= k < j ==> !closes_at(s@, k)) && b@ == s@.take(j + 1),
            None => forall|j: int| !closes_at(s@, j),
        },
        r matches Some(b) ==> json_block(s@) == Some(b@),
        r is None ==> json_block(s@) is None,
{
    let cs = chars_of(s);
    let mut depth: i128 = 0;
    let mut i: usize = 0;
    while i < cs.len()
        invariant
            i <= cs@.len(),
            cs@ == s@,
            depth == brace_depth(cs@.take(i as int)),
            -(i as int) <= depth <= i as int,
            forall|k: int| 0 <= k < i ==> !closes_at(cs@, k),
        decreases cs@.len() - i,
    {
        let c = cs[i];
        assert(cs@.take(i + 1).drop_last() =~= cs@.take(i as int));
        if c == '{' {
            depth = depth + 1;
        } else if c == '}' {
            depth = depth - 1;
            if depth == 0 {
                assert(closes_at(cs@, i as int));
                let ghost j = choose|j: int| closes_at(cs@, j) && forall|k: int| 0 <= k < j ==> !closes_at(cs@, k);
                assert(j == i as int) by {
                    if j < i {
                        assert(!closes_at(cs@, j));
                    } else if j > i {
                        assert(!closes_at(cs@, i as int));
                    }
                }
                return Some(string_from_range(&cs, 0, i + 1));
            }
        }
        assert(!closes_at(cs@, i as int));
        i = i + 1;
    }
    None
}

/// The metadata after filling what `base` leaves open from the `meta/info.json`
/// object found in a description: `robot_type`, `fps`, `total_episodes`,
/// `total_frames`, and the member names of `features` where `base` has no
/// features. Tasks and environment type stay as they are.
pub open spec fn merge_info(base: MetadataView, info: JsonValue) -> MetadataView {
    MetadataView {
        robot_type: if base.robot_type is Some {
            base.robot_type
        } else {
            str_member(info, "robot_type"@)
        },
        fps: if base.fps is Some {
            base.fps
        } else {
            fps_of(u64_member(info, "fps"@))
        },
        num_episodes: if base.num_episodes is Some {
            base.num_episodes
        } else {
            u64_member(info, "total_episodes"@)
        },
        num_frames: if base.num_frames is Some {
            base.num_frames
        } else {
            u64_member(info, "total_frames"@)
        },
        tasks: base.tasks,
        features: if base.features.len() == 0 {
            match json_get(info, "features"@) {
                Some(JsonValue::Object(entries)) => entry_keys(entries@),
                _ => base.features,
            }
        } else {
            base.features
        },
        env_type: base.env_type,
    }
}

/// Fills what `meta` leaves open from a parsed `meta/info.json` object.
pub fn merge_description_info(meta: LeRobotMetadata, info: &JsonValue) -> (m: LeRobotMetadata)
    ensures
        m@ == merge_info(meta@, *info),
{
    let mut meta = meta;
    if meta.robot_type.is_none() {
        meta.robot_type = text_of(info.get("robot_type"));
    }
    if meta.fps.is_none() {
        meta.fps = fps_from(u64_of(info.get("fps")));
    }
    if meta.num_episodes.is_none() {
        meta.num_episodes = u64_of(info.get("total_episodes"));
    }
    if meta.num_frames.is_none() {
        meta.num_frames = u64_of(info.get("total_frames"));
    }
    if meta.features.len() == 0 {
        match info.get("features") {
            Some(JsonValue::Object(entries)) => {
                meta.features = keys_of(entries);
            },
            _ => {},
        }
    }
    meta
}

/// The metadata of the card, or none where there is no card.
pub open spec fn card_or_empty(card: Option<CardData>) -> MetadataView {
    match card {
        Some(cd) => card_metadata(cd.extra@),
        None => empty_metadata(),
    }
}

/// The metadata of a listed dataset: what its card states, then what is still
/// open filled from the first JSON object in its description (the object that
/// starts at the first `{`), where that object parses.
pub open spec fn item_metadata(item: DatasetListItem) -> MetadataView {
    let base = card_or_empty(item.card_data);
    match item.description {
        None => base,
        Some(d) => match first_index_of(d@, '{') {
            None => base,
            Some(start) => match json_block(d@.skip(start)) {
                None => base,
                Some(block) => match json_parse(block) {
                    Some(info) => merge_info(base, info),
                    None => base,
                },
            },
        },
    }
}

impl DatasetListItem {
    /// Extracts LeRobot metadata: first from the card, then from the dump of
    /// `meta/info.json` that descriptions often contain.
    pub fn lerobot_metadata(&self) -> (m: LeRobotMetadata)
        ensures
            m@ == item_metadata(*self),
    {
        let meta = match &self.card_data {
            Some(cd) => cd.lerobot_metadata(),
            None => LeRobotMetadata::default(),
        };
        match &self.description {
            None => meta,
            Some(desc) => {
                let cs = chars_of(desc.as_str());
                match find_char(&cs, '{') {
                    None => meta,
                    Some(start) => {
                        let tail = string_from_range(&cs, start, cs.len());
                        assert(tail@ =~= desc@.skip(start as int));
                        match extract_json_block(tail.as_str()) {
                            None => meta,
                            Some(block) => match parse_json(block.as_str()) {
                                Some(info) => merge_description_info(meta, &info),
                                None => meta,
                            },
                        }
                    },
                }
            },
        }
    }
}

} // verus!

verus! {

/// Response of the datasets-server `/info` endpoint.
#[derive(Debug)]
pub struct DatasetServerInfo {
    /// Info for each config, by config name.
    pub dataset_info: Vec<(String, ConfigInfo)>,
}

/// Info for a single config (subset) of a dataset.
#[derive(Debug)]
pub struct ConfigInfo {
    /// Description of this config.
    pub description: Option<String>,
    /// Citation.
    pub citation: Option<String>,
    /// Features (column schemas), by column name.
    pub features: Option<Vec<(String, JsonValue)>>,
    /// Splits info (train, test, etc.), by split name.
    pub splits: Option<Vec<(String, SplitInfo)>>,
    /// Builder name.
    pub builder_name: Option<String>,
    /// Config name.
    pub config_name: Option<String>,
    /// Dataset name.
    pub dataset_name: Option<String>,
    /// Version.
    pub version: Option<JsonValue>,
    /// Download size.
    pub download_size: Option<u64>,
    /// Dataset size.
    pub dataset_size: Option<u64>,
}

/// Info about a single split (e.g. "train").
#[derive(Debug, Clone)]
pub struct SplitInfo {
    pub name: Option<String>,
    pub num_bytes: Option<u64>,
    pub num_examples: Option<u64>,
    pub dataset_name: Option<String>,
}

/// Response of the datasets-server `/size` endpoint.
#[derive(Debug, Clone)]
pub struct DatasetSize {
    pub size: SizePayload,
}

/// Sizes of a dataset, of its configs and of its splits.
#[derive(Debug, Clone)]
pub struct SizePayload {
    pub dataset: DatasetSizeInfo,
    pub configs: Vec<ConfigSizeInfo>,
    pub splits: Vec<SplitSizeInfo>,
}

/// Size of a whole dataset.
#[derive(Debug, Clone)]
pub struct DatasetSizeInfo {
    pub dataset: Option<String>,
    pub num_bytes_original_files: Option<u64>,
    pub num_bytes_parquet_files: Option<u64>,
    pub num_bytes_memory: Option<u64>,
    pub num_rows: Option<u64>,
}

/// Size of one config.
#[derive(Debug, Clone)]
pub struct ConfigSizeInfo {
    pub dataset: Option<String>,
    pub config: Option<String>,
    pub num_bytes_original_files: Option<u64>,
    pub num_bytes_parquet_files: Option<u64>,
    pub num_bytes_memory: Option<u64>,
    pub num_rows: Option<u64>,
    pub num_columns: Option<u64>,
}

/// Size of one split.
#[derive(Debug, Clone)]
pub struct SplitSizeInfo {
    pub dataset: Option<String>,
    pub config: Option<String>,
    pub split: Option<String>,
    pub num_bytes_parquet_files: Option<u64>,
    pub num_bytes_memory: Option<u64>,
    pub num_rows: Option<u64>,
    pub num_columns: Option<u64>,
}

/// Response of the datasets-server `/rows` or `/filter` endpoint.
#[derive(Debug)]
pub struct DatasetRows {
    /// Column schemas.
    pub features: Vec<FeatureInfo>,
    /// The rows.
    pub rows: Vec<RowEntry>,
    /// Number of rows of the (filtered or full) split.
    pub num_rows_total: Option<u64>,
}

/// The schema of one column.
#[derive(Debug)]
pub struct FeatureInfo {
    pub feature_idx: u32,
    pub name: String,
    /// The column's type description.
    pub dtype: JsonValue,
}

/// One row.
#[derive(Debug)]
pub struct RowEntry {
    pub row_idx: u64,
    /// The cells, by column name.
    pub row: Vec<(String, JsonValue)>,
    pub truncated_cells: Option<Vec<String>>,
}

} // verus!

verus! {

/// What the card states is never replaced by what the description says;
/// tasks and environment type come from the card alone.
pub proof fn law_card_takes_priority(item: DatasetListItem)
    ensures
        ({
            let card = card_or_empty(item.card_data);
            let m = item_metadata(item);
            &&& card.robot_type is Some ==> m.robot_type == card.robot_type
            &&& card.fps is Some ==> m.fps == card.fps
            &&& card.num_episodes is Some ==> m.num_episodes == card.num_episodes
            &&& card.num_frames is Some ==> m.num_frames == card.num_frames
            &&& card.features.len() > 0 ==> m.features == card.features
            &&& m.tasks == card.tasks
            &&& m.env_type == card.env_type
        }),
{
}

/// Without a description, the metadata of a listed dataset is its card's.
pub proof fn law_no_description_means_card_only(item: DatasetListItem)
    requires
        item.description is None,
    ensures
        item_metadata(item) == card_or_empty(item.card_data),
{
}

} // verus!

//! The `search_datasets` tool: post-filtering of Hub search results by robot
//! type and episode count, and their rendering as a markdown table.
//!
//! The Hub API does the text search and the LeRobot tag filter; robot type and
//! episode count live in the card front matter, so they are filtered here.

use vstd::prelude::*;

use crate::text::{
    chars_of, contains_chars, contains_seq, ascii_lower, ascii_lower_char, ascii_upper, decimal,
    is_ascii_text, law_contains_occurrence, lower_text, push_decimal, push_str,
    string_from_chars, to_lowercase,
};
use crate::types::{card_or_empty, opt_text, texts, DatasetListItem, LeRobotMetadata, MetadataView};

verus! {

/// Result of a dataset search, formatted for LLM consumption.
#[derive(Debug)]
pub struct SearchResult {
    pub items: Vec<SearchResultItem>,
    /// Number of datasets the Hub returned.
    pub total_found: usize,
    /// Number of datasets kept by the filters (and the limit).
    pub total_after_filter: usize,
}

/// One dataset of a search result.
#[derive(Debug)]
pub struct SearchResultItem {
    pub repo_id: String,
    pub robot_type: Option<String>,
    pub num_episodes: Option<u64>,
    pub downloads: Option<u64>,
    pub likes: Option<u64>,
    pub description: Option<String>,
    pub fps: Option<u32>,
    pub tasks: Vec<String>,
}

/// `SearchResultItem` as plain values.
pub ghost struct ItemView {
    pub repo_id: Seq<char>,
    pub robot_type: Option<Seq<char>>,
    pub num_episodes: Option<u64>,
    pub downloads: Option<u64>,
    pub likes: Option<u64>,
    pub description: Option<Seq<char>>,
    pub fps: Option<u32>,
    pub tasks: Seq<Seq<char>>,
}

impl View for SearchResultItem {
    type V = ItemView;

    open spec fn view(&self) -> ItemView {
        ItemView {
            repo_id: self.repo_id@,
            robot_type: opt_text(self.robot_type),
            num_episodes: self.num_episodes,
            downloads: self.downloads,
            likes: self.likes,
            description: opt_text(self.description),
            fps: self.fps,
            tasks: texts(self.tasks@),
        }
    }
}

/// The views of a list of result items.
pub open spec fn item_views(items: Seq<SearchResultItem>) -> Seq<ItemView> {
    items.map_values(|i: SearchResultItem| i@)
}

/// `items` separated by `sep`.
pub open spec fn join(items: Seq<Seq<char>>, sep: Seq<char>) -> Seq<char>
    decreases items.len(),
{
    if items.len() == 0 {
        Seq::empty()
    } else if items.len() == 1 {
        items[0]
    } else {
        join(items.drop_last(), sep) + sep + items.last()
    }
}

/// A count, or "-" where it is unknown.
pub open spec fn count_cell(n: Option<nat>) -> Seq<char> {
    match n {
        Some(v) => decimal(v),
        None => "-"@,
    }
}

/// An optional `u64` as a natural number.
pub open spec fn nat_of_u64(n: Option<u64>) -> Option<nat> {
    match n {
        Some(v) => Some(v as nat),
        None => None,
    }
}

/// An optional `u32` as a natural number.
pub open spec fn nat_of_u32(n: Option<u32>) -> Option<nat> {
    match n {
        Some(v) => Some(v as nat),
        None => None,
    }
}

/// The table row of one dataset.
pub open spec fn markdown_row(it: ItemView) -> Seq<char> {
    "| "@ + it.repo_id + " | "@ + match it.robot_type {
        Some(r) => r,
        None => "-"@,
    } + " | "@ + count_cell(nat_of_u64(it.num_episodes)) + " | "@ + count_cell(
        nat_of_u64(it.downloads),
    ) + " | "@ + count_cell(nat_of_u32(it.fps)) + " | "@ + if it.tasks.len() == 0 {
        "-"@
    } else {
        join(it.tasks, ", "@)
    } + " |\n"@
}

/// The table rows of the datasets, in order.
pub open spec fn markdown_rows(items: Seq<ItemView>) -> Seq<char>
    decreases items.len(),
{
    if items.len() == 0 {
        Seq::empty()
    } else {
        markdown_rows(items.drop_last()) + markdown_row(items.last())
    }
}

/// The markdown rendering of a search result.
pub open spec fn markdown(items: Seq<ItemView>, total_found: nat, total_after_filter: nat) -> Seq<char> {
    if items.len() == 0 {
        "No datasets found matching your criteria.\n"@
    } else {
        "Found "@ + decimal(total_found) + " datasets ("@ + decimal(total_after_filter)
            + " after filtering):\n\n"@ + "| Dataset | Robot | Episodes | Downloads | FPS | Tasks |\n"@
            + "|---------|-------|----------|-----------|-----|-------|\n"@ + markdown_rows(items)
    }
}

/// Appends a count, or "-" where it is unknown.
fn push_count(out: &mut Vec<char>, n: Option<u64>)
    ensures
        final(out)@ == old(out)@ + count_cell(nat_of_u64(n)),
{
    match n {
        Some(v) => push_decimal(out, v as u128),
        None => push_str(out, "-"),
    }
}

/// Appends `items` separated by `sep`.
fn push_joined(out: &mut Vec<char>, items: &Vec<String>, sep: &str)
    ensures
        final(out)@ == old(out)@ + join(texts(items@), sep@),
{
    let ghost start = out@;
    let mut i: usize = 0;
    while i < items.len()
        invariant
            i <= items@.len(),
            out@ == start + join(texts(items@.take(i as int)), sep@),
        decreases items@.len() - i,
    {
        assert(texts(items@.take(i + 1)).drop_last() =~= texts(items@.take(i as int)));
        if i > 0 {
            push_str(out, sep);
        }
        push_str(out, items[i].as_str());
        proof {
            let t = texts(items@.take(i + 1));
            assert(t.last() == items@[i as int]@);
            if i == 0 {
                assert(t.len() == 1);
                assert(join(texts(items@.take(0)), sep@) =~= Seq::empty());
            }
        }
        assert(out@ =~= start + join(texts(items@.take(i + 1)), sep@));
        i = i + 1;
    }
    assert(items@.take(items@.len() as int) =~= items@);
}

/// Appends the table row of one dataset.
#[verifier::rlimit(40)]
fn push_row(out: &mut Vec<char>, item: &SearchResultItem)
    ensures
        final(out)@ == old(out)@ + markdown_row(item@),
{
    let ghost before = out@;
    push_str(out, "| ");
    push_str(out, item.repo_id.as_str());
    push_str(out, " | ");
    match &item.robot_type {
        Some(r) => push_str(out, r.as_str()),
        None => push_str(out, "-"),
    }
    push_str(out, " | ");
    push_count(out, item.num_episodes);
    push_str(out, " | ");
    push_count(out, item.downloads);
    push_str(out, " | ");
    match item.fps {
        Some(f) => push_decimal(out, f as u128),
        None => push_str(out, "-"),
    }
    push_str(out, " | ");
    if item.tasks.len() == 0 {
        push_str(out, "-");
    } else {
        push_joined(out, &item.tasks, ", ");
    }
    push_str(out, " |\n");
    assert(out@ =~= before + markdown_row(item@));
}

impl SearchResult {
    /// Formats the result as a markdown table for LLM readability.
    pub fn to_markdown(&self) -> (s: String)
        ensures
            s@ == markdown(item_views(self.items@), self.total_found as nat, self.total_after_filter as nat),
    {
        let mut out: Vec<char> = Vec::new();
        if self.items.len() == 0 {
            push_str(&mut out, "No datasets found matching your criteria.\n");
            return string_from_chars(&out);
        }
        push_str(&mut out, "Found ");
        push_decimal(&mut out, self.total_found as u128);
        push_str(&mut out, " datasets (");
        push_decimal(&mut out, self.total_after_filter as u128);
        push_str(&mut out, " after filtering):\n\n");
        push_str(&mut out, "| Dataset | Robot | Episodes | Downloads | FPS | Tasks |\n");
        push_str(&mut out, "|---------|-------|----------|-----------|-----|-------|\n");
        let ghost head = out@;
        let mut i: usize = 0;
        while i < self.items.len()
            invariant
                i <= self.items@.len(),
                out@ == head + markdown_rows(item_views(self.items@.take(i as int))),
            decreases self.items@.len() - i,
        {
            let item = &self.items[i];
            assert(item_views(self.items@.take(i + 1)).drop_last() =~= item_views(self.items@.take(i as int)));
            push_row(&mut out, item);
            assert(item_views(self.items@.take(i + 1)).last() == item@);
            i = i + 1;
        }
        assert(self.items@.take(self.items@.len() as int) =~= self.items@);
        string_from_chars(&out)
    }
}

} // verus!

verus! {

/// How many results to ask the Hub for: three times the limit (at most 100,
/// the API's maximum) when results will be filtered afterwards, else the limit.
pub open spec fn fetch_count(filtering: bool, limit: nat) -> nat {
    if filtering {
        if 3 * limit <= 100 {
            3 * limit
        } else {
            100
        }
    } else {
        limit
    }
}

/// How many results to ask the Hub for, over-fetching to make up for post-filtering.
pub fn fetch_limit(robot_type: Option<&str>, min_episodes: Option<u32>, limit: u32) -> (n: u32)
    requires
        robot_type is Some || min_episodes is Some ==> 3 * limit <= u32::MAX,
    ensures
        n == fetch_count(robot_type is Some || min_episodes is Some, limit as nat),
{
    if robot_type.is_some() || min_episodes.is_some() {
        let over = limit * 3;
        if over <= 100 {
            over
        } else {
            100
        }
    } else {
        limit
    }
}

/// The metadata, the robot type or one of the tags names the wanted robot
/// type, compared in lowercase by containment.
pub open spec fn robot_matches(meta: MetadataView, tags: Option<Vec<String>>, wanted: Seq<char>) -> bool {
    let needle = lower_text(wanted);
    (match meta.robot_type {
        Some(r) => contains_seq(lower_text(r), needle),
        None => false,
    }) || (match tags {
        Some(ts) => exists|i: int| 0 <= i < ts@.len() && contains_seq(lower_text(#[trigger] ts@[i]@), needle),
        None => false,
    })
}

/// The episode count passes the minimum; an unknown count always does.
pub open spec fn episodes_pass(meta: MetadataView, min_episodes: Option<u32>) -> bool {
    match (min_episodes, meta.num_episodes) {
        (Some(m), Some(n)) => n >= m,
        _ => true,
    }
}

/// A dataset passes the filters (judged on its card's metadata).
pub open spec fn passes(item: DatasetListItem, robot_type: Option<Seq<char>>, min_episodes: Option<u32>) -> bool {
    let meta = card_or_empty(item.card_data);
    (match robot_type {
        Some(r) => robot_matches(meta, item.tags, r),
        None => true,
    }) && episodes_pass(meta, min_episodes)
}

/// The result entry of a dataset (its card's metadata, and the Hub's counts).
pub open spec fn result_item(item: DatasetListItem) -> ItemView {
    let meta = card_or_empty(item.card_data);
    ItemView {
        repo_id: item.id@,
        robot_type: meta.robot_type,
        num_episodes: meta.num_episodes,
        downloads: item.downloads,
        likes: item.likes,
        description: opt_text(item.description),
        fps: meta.fps,
        tasks: meta.tasks,
    }
}

/// The result entries of the datasets that pass the filters, in order.
pub open spec fn filtered(
    items: Seq<DatasetListItem>,
    robot_type: Option<Seq<char>>,
    min_episodes: Option<u32>,
) -> Seq<ItemView>
    decreases items.len(),
{
    if items.len() == 0 {
        Seq::empty()
    } else {
        let rest = filtered(items.drop_last(), robot_type, min_episodes);
        if passes(items.last(), robot_type, min_episodes) {
            rest.push(result_item(items.last()))
        } else {
            rest
        }
    }
}

/// At most the first `limit` entries.
pub open spec fn at_most(s: Seq<ItemView>, limit: nat) -> Seq<ItemView> {
    if s.len() <= limit {
        s
    } else {
        s.take(limit as int)
    }
}

/// The text of an optional `&str`.
pub open spec fn opt_str(o: Option<&str>) -> Option<Seq<char>> {
    match o {
        Some(s) => Some(s@),
        None => None,
    }
}

/// A copy of an optional string.
fn copy_opt(o: &Option<String>) -> (r: Option<String>)
    ensures
        opt_text(r) == opt_text(*o),
{
    match o {
        Some(s) => Some(s.clone()),
        None => None,
    }
}

/// Whether the lowercase form of `text` contains `needle`.
fn lower_contains(text: &str, needle: &Vec<char>) -> (b: bool)
    ensures
        b == contains_seq(lower_text(text@), needle@),
{
    let lower = to_lowercase(text);
    contains_chars(&chars_of(lower.as_str()), needle)
}

/// Some tag names the wanted robot type.
fn any_tag_matches(ts: &Vec<String>, needle: &Vec<char>) -> (b: bool)
    ensures
        b == exists|i: int| 0 <= i < ts@.len() && contains_seq(lower_text(#[trigger] ts@[i]@), needle@),
{
    let mut i: usize = 0;
    while i < ts.len()
        invariant
            i <= ts@.len(),
            forall|j: int| 0 <= j < i ==> !contains_seq(lower_text(#[trigger] ts@[j]@), needle@),
        decreases ts@.len() - i,
    {
        if lower_contains(ts[i].as_str(), needle) {
            assert(0 <= i < ts@.len() && contains_seq(lower_text(ts@[i as int]@), needle@));
            return true;
        }
        i = i + 1;
    }
    false
}

/// The robot type or one of the tags names the wanted robot type.
fn robot_type_matches(meta: &LeRobotMetadata, tags: &Option<Vec<String>>, needle: &Vec<char>, wanted: &str) -> (b: bool)
    requires
        needle@ == lower_text(wanted@),
    ensures
        b == robot_matches(meta@, *tags, wanted@),
{
    let by_robot = match &meta.robot_type {
        Some(r) => lower_contains(r.as_str(), needle),
        None => false,
    };
    if by_robot {
        return true;
    }
    match tags {
        Some(ts) => any_tag_matches(ts, needle),
        None => false,
    }
}

/// The result entry of a dataset, from its card's metadata.
fn make_item(item: &DatasetListItem, meta: LeRobotMetadata) -> (r: SearchResultItem)
    requires
        meta@ == card_or_empty(item.card_data),
    ensures
        r@ == result_item(*item),
{
    SearchResultItem {
        repo_id: item.id.clone(),
        robot_type: meta.robot_type,
        num_episodes: meta.num_episodes,
        downloads: item.downloads,
        likes: item.likes,
        description: copy_opt(&item.description),
        fps: meta.fps,
        tasks: meta.tasks,
    }
}

/// Keeps the datasets that pass the robot-type and episode filters, up to
/// `limit`, in the Hub's order. Datasets whose episode count is unknown are
/// kept. `total_found` counts every dataset the Hub returned.
pub fn filter_search_results(
    items: Vec<DatasetListItem>,
    robot_type: Option<&str>,
    min_episodes: Option<u32>,
    limit: u32,
) -> (r: SearchResult)
    ensures
        item_views(r.items@) == at_most(filtered(items@, opt_str(robot_type), min_episodes), limit as nat),
        r.total_found == items@.len(),
        r.total_after_filter == r.items@.len(),
{
    let needle: Vec<char> = match robot_type {
        Some(rt) => chars_of(to_lowercase(rt).as_str()),
        None => Vec::new(),
    };
    let mut kept: Vec<SearchResultItem> = Vec::new();
    let mut i: usize = 0;
    while i < items.len() && kept.len() < limit as usize
        invariant
            i <= items@.len(),
            kept@.len() <= limit,
            robot_type matches Some(rt) ==> needle@ == lower_text(rt@),
            item_views(kept@) == at_most(filtered(items@.take(i as int), opt_str(robot_type), min_episodes), limit as nat),
            kept@.len() < limit ==> item_views(kept@) == filtered(items@.take(i as int), opt_str(robot_type), min_episodes),
        decreases items@.len() - i,
    {
        let item = &items[i];
        assert(items@.take(i + 1).drop_last() =~= items@.take(i as int));
        assert(items@.take(i + 1).last() == *item);
        let meta = match &item.card_data {
            Some(cd) => cd.lerobot_metadata(),
            None => LeRobotMetadata::default(),
        };
        let robot_ok = match robot_type {
            Some(rt) => robot_type_matches(&meta, &item.tags, &needle, rt),
            None => true,
        };
        let episodes_ok = match (min_episodes, meta.num_episodes) {
            (Some(m), Some(n)) => n >= m as u64,
            _ => true,
        };
        if robot_ok && episodes_ok {
            let entry = make_item(item, meta);
            kept.push(entry);
            assert(item_views(kept@) =~= item_views(kept@.drop_last()).push(entry@));
        }
        i = i + 1;
    }
    proof {
        if kept@.len() < limit {
            assert(items@.take(i as int) =~= items@);
        } else {
            lemma_filtered_prefix(items@, i as int, opt_str(robot_type), min_episodes, limit as nat);
        }
    }
    let n = kept.len();
    SearchResult { items: kept, total_found: items.len(), total_after_filter: n }
}

/// Once `limit` entries come from a prefix, the whole list gives the same first `limit`.
proof fn lemma_filtered_prefix(
    items: Seq<DatasetListItem>,
    i: int,
    robot_type: Option<Seq<char>>,
    min_episodes: Option<u32>,
    limit: nat,
)
    requires
        0 <= i <= items.len(),
        filtered(items.take(i), robot_type, min_episodes).len() >= limit,
    ensures
        at_most(filtered(items, robot_type, min_episodes), limit) == at_most(
            filtered(items.take(i), robot_type, min_episodes),
            limit,
        ),
    decreases items.len() - i,
{
    if i < items.len() {
        assert(items.take(i + 1).drop_last() =~= items.take(i));
        let a = filtered(items.take(i), robot_type, min_episodes);
        let b = filtered(items.take(i + 1), robot_type, min_episodes);
        lemma_filtered_prefix(items, i + 1, robot_type, min_episodes, limit);
        assert(b.take(limit as int) =~= a.take(limit as int));
    } else {
        assert(items.take(i) =~= items);
    }
}

} // verus!

verus! {

proof fn lemma_filtered_len(items: Seq<DatasetListItem>, robot_type: Option<Seq<char>>, min_episodes: Option<u32>)
    ensures
        filtered(items, robot_type, min_episodes).len() <= items.len(),
    decreases items.len(),
{
    if items.len() > 0 {
        lemma_filtered_len(items.drop_last(), robot_type, min_episodes);
    }
}

/// A search never returns more results than its limit, nor more than the
/// Hub returned.
pub proof fn law_result_count_bounded(
    items: Seq<DatasetListItem>,
    robot_type: Option<Seq<char>>,
    min_episodes: Option<u32>,
    limit: nat,
)
    ensures
        at_most(filtered(items, robot_type, min_episodes), limit).len() <= limit,
        at_most(filtered(items, robot_type, min_episodes), limit).len() <= items.len(),
{
    lemma_filtered_len(items, robot_type, min_episodes);
}

/// Every result stands for a dataset the Hub returned that passes the
/// filters, and results keep the Hub's order.
pub proof fn law_results_pass_filters(
    items: Seq<DatasetListItem>,
    robot_type: Option<Seq<char>>,
    min_episodes: Option<u32>,
    k: int,
)
    requires
        0 <= k < filtered(items, robot_type, min_episodes).len(),
    ensures
        exists|j: int|
            0 <= j < items.len() && passes(#[trigger] items[j], robot_type, min_episodes) && filtered(
                items,
                robot_type,
                min_episodes,
            )[k] == result_item(items[j]),
    decreases items.len(),
{
    let rest = filtered(items.drop_last(), robot_type, min_episodes);
    if k < rest.len() {
        law_results_pass_filters(items.drop_last(), robot_type, min_episodes, k);
        let j = choose|j: int|
            0 <= j < items.drop_last().len() && passes(#[trigger] items.drop_last()[j], robot_type, min_episodes)
                && rest[k] == result_item(items.drop_last()[j]);
        assert(items[j] == items.drop_last()[j]);
    } else {
        let j = items.len() - 1;
        assert(items[j] == items.last());
    }
}

/// A dataset whose episode count is unknown is never dropped for its
/// episode count.
pub proof fn law_unknown_episodes_kept(item: DatasetListItem, min_episodes: Option<u32>)
    requires
        card_or_empty(item.card_data).num_episodes is None,
    ensures
        episodes_pass(card_or_empty(item.card_data), min_episodes),
{
}

/// Without filters every dataset is kept, in the Hub's order.
pub proof fn law_no_filters_keep_everything(items: Seq<DatasetListItem>)
    ensures
        filtered(items, None, None) == items.map_values(|i: DatasetListItem| result_item(i)),
    decreases items.len(),
{
    if items.len() > 0 {
        law_no_filters_keep_everything(items.drop_last());
        assert(items.map_values(|i: DatasetListItem| result_item(i)) =~= items.drop_last().map_values(
            |i: DatasetListItem| result_item(i),
        ).push(result_item(items.last())));
    } else {
        assert(items.map_values(|i: DatasetListItem| result_item(i)) =~= Seq::<ItemView>::empty());
    }
}

/// Two robot types with the same lowercase form keep the same datasets.
proof fn lemma_filtered_same_lowercase(
    items: Seq<DatasetListItem>,
    a: Seq<char>,
    b: Seq<char>,
    min_episodes: Option<u32>,
)
    requires
        lower_text(a) == lower_text(b),
    ensures
        filtered(items, Some(a), min_episodes) == filtered(items, Some(b), min_episodes),
    decreases items.len(),
{
    if items.len() > 0 {
        lemma_filtered_same_lowercase(items.drop_last(), a, b, min_episodes);
    }
}

/// Robot-type matching ignores the case of an ASCII robot type: asking for
/// the robot type in upper case keeps the same datasets, in the same order.
pub proof fn law_robot_type_ascii_case_ignored(items: Seq<DatasetListItem>, rt: Seq<char>, min_episodes: Option<u32>)
    requires
        is_ascii_text(rt),
    ensures
        filtered(items, Some(rt), min_episodes) == filtered(items, Some(ascii_upper(rt)), min_episodes),
{
    let up = ascii_upper(rt);
    assert forall|i: int| 0 <= i < up.len() implies (#[trigger] up[i] as u32) < 128 by {
        assert((rt[i] as u32) < 128);
    }
    assert forall|i: int| 0 <= i < rt.len() implies ascii_lower_char(#[trigger] up[i]) == ascii_lower_char(rt[i]) by {
        let c = rt[i];
        if 'a' <= c <= 'z' {
            assert(up[i] == ((c as u32) - 32) as char);
        }
    }
    assert(ascii_lower(up) =~= ascii_lower(rt));
    lemma_filtered_same_lowercase(items, rt, up, min_episodes);
}

/// A single text joins to itself.
pub proof fn law_join_single(t: Seq<char>, sep: Seq<char>)
    ensures
        join(seq![t], sep) == t,
{
}

/// Joining two non-empty lists one after the other puts exactly one
/// separator between them: every two neighbouring texts are separated.
pub proof fn law_join_concat(a: Seq<Seq<char>>, b: Seq<Seq<char>>, sep: Seq<char>)
    requires
        a.len() > 0,
        b.len() > 0,
    ensures
        join(a + b, sep) == join(a, sep) + sep + join(b, sep),
    decreases b.len(),
{
    if b.len() == 1 {
        assert((a + b).drop_last() =~= a);
        assert((a + b).last() == b[0]);
    } else {
        law_join_concat(a, b.drop_last(), sep);
        assert((a + b).drop_last() =~= a + b.drop_last());
        assert((a + b).last() == b.last());
        assert(join(a + b, sep) =~= join(a, sep) + sep + join(b, sep));
    }
}

/// The robot type is found anywhere in the card's robot type: a dataset
/// whose lowercase robot type holds the lowercase wanted text at any position
/// passes the robot-type filter.
pub proof fn law_robot_type_found_anywhere(
    item: DatasetListItem,
    wanted: Seq<char>,
    before: Seq<char>,
    after: Seq<char>,
    min_episodes: Option<u32>,
)
    requires
        card_or_empty(item.card_data).robot_type matches Some(r) && lower_text(r) == before + lower_text(wanted)
            + after,
        episodes_pass(card_or_empty(item.card_data), min_episodes),
    ensures
        passes(item, Some(wanted), min_episodes),
{
    law_contains_occurrence(before, lower_text(wanted), after);
}

/// The robot type is found anywhere in a tag too.
pub proof fn law_robot_type_found_in_tag(
    item: DatasetListItem,
    wanted: Seq<char>,
    k: int,
    before: Seq<char>,
    after: Seq<char>,
    min_episodes: Option<u32>,
)
    requires
        item.tags matches Some(ts) && 0 <= k < ts@.len() && lower_text(ts@[k]@) == before + lower_text(wanted)
            + after,
        episodes_pass(card_or_empty(item.card_data), min_episodes),
    ensures
        passes(item, Some(wanted), min_episodes),
{
    law_contains_occurrence(before, lower_text(wanted), after);
    let ts = item.tags->0;
    assert(0 <= k < ts@.len() && contains_seq(lower_text(ts@[k]@), lower_text(wanted)));
}

/// A dataset that passes the filters is kept when the Hub returns it alone.
pub proof fn law_single_passing_dataset_kept(item: DatasetListItem, robot_type: Option<Seq<char>>, min_episodes: Option<u32>)
    requires
        passes(item, robot_type, min_episodes),
    ensures
        filtered(seq![item], robot_type, min_episodes) == seq![result_item(item)],
{
    let one = seq![item];
    assert(one.drop_last() =~= Seq::<DatasetListItem>::empty());
    assert(one.last() == item);
    assert(filtered(one.drop_last(), robot_type, min_episodes) == Seq::<ItemView>::empty());
    assert(filtered(one, robot_type, min_episodes) =~= seq![result_item(item)]);
}

} // verus!

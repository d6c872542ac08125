//! Requests to the Hugging Face Hub REST API and to the datasets-server API:
//! their URLs, the authorization header, and how a failed response maps to
//! an error. Sending the requests is left to the caller.

use vstd::prelude::*;

use crate::error::AppError;
use crate::text::{
    chars_of, decimal, digit_char, find_char, find_from, first_index_of, first_occurrence, occurs,
    push_decimal, push_str, string_from_chars, string_from_range,
};

verus! {

/// The byte `b` stands for itself in a URL component (ASCII letters and
/// digits, `-`, `.`, `_`, `~`).
pub open spec fn unreserved(b: u8) -> bool {
    (48 <= b <= 57) || (65 <= b <= 90) || (97 <= b <= 122) || b == 45 || b == 46 || b == 95 || b == 126
}

/// The upper-case hexadecimal digit for `d < 16`.
pub open spec fn hex_digit(d: nat) -> char {
    if d < 10 {
        digit_char(d)
    } else if d == 10 {
        'A'
    } else if d == 11 {
        'B'
    } else if d == 12 {
        'C'
    } else if d == 13 {
        'D'
    } else if d == 14 {
        'E'
    } else {
        'F'
    }
}

/// One byte, percent-encoded unless it is unreserved.
pub open spec fn encode_byte(b: u8) -> Seq<char> {
    if unreserved(b) {
        seq![b as char]
    } else {
        seq!['%', hex_digit((b / 16) as nat), hex_digit((b % 16) as nat)]
    }
}

/// Bytes, percent-encoded one by one.
pub open spec fn percent_encode(bytes: Seq<u8>) -> Seq<char>
    decreases bytes.len(),
{
    if bytes.len() == 0 {
        Seq::empty()
    } else {
        encode_byte(bytes[0]) + percent_encode(bytes.drop_first())
    }
}

/// A text, percent-encoded for use in a URL (over its UTF-8 bytes).
pub open spec fn url_encoded(s: Seq<char>) -> Seq<char> {
    percent_encode(vstd::utf8::encode_utf8(s))
}

/// `urlencoding::encode`: every UTF-8 byte of the text except ASCII letters,
/// digits, `-`, `.`, `_` and `~` becomes `%` and two upper-case hex digits.
/// The contract states this in full (`url_encoded`), as urlencoding 2.1's
/// source does it.
#[verifier::external_body]
fn url_encode(s: &str) -> (r: String)
    ensures
        r@ == url_encoded(s@),
{
    urlencoding::encode(s).into_owned()
}

/// A byte that a header value may hold: visible ASCII, a tab, or any byte
/// from 0x80 up.
pub open spec fn header_byte_ok(b: u8) -> bool {
    (b >= 32 && b != 127) || b == 9
}

/// `reqwest::header::HeaderValue::from_str` (http 1.x): the text is accepted
/// exactly when every UTF-8 byte of it may stand in a header value; a refusal
/// displays as "failed to parse header value". Only the verdict and that text
/// come back; the header value itself is built again by the caller that sends
/// requests.
#[verifier::external_body]
fn check_header_value(s: &str) -> (r: Result<(), String>)
    ensures
        r is Ok <==> forall|i: int|
            0 <= i < vstd::utf8::encode_utf8(s@).len() ==> header_byte_ok(
                #[trigger] vstd::utf8::encode_utf8(s@)[i],
            ),
        r matches Err(m) ==> m@ == "failed to parse header value"@,
{
    match reqwest::header::HeaderValue::from_str(s) {
        Ok(_) => Ok(()),
        Err(e) => Err(e.to_string()),
    }
}

/// Client for the Hugging Face Hub REST API and the datasets-server API.
#[derive(Debug)]
pub struct HubClient {
    /// Base of the Hub REST API.
    pub hf_api_base: String,
    /// Base of the datasets-server API.
    pub ds_server_base: String,
    /// The `Authorization` header value, where a token was given.
    pub authorization: Option<String>,
}

/// `https://huggingface.co/api`
pub open spec fn hf_api_base() -> Seq<char> {
    "https://huggingface.co/api"@
}

/// `https://datasets-server.huggingface.co`
pub open spec fn ds_server_base() -> Seq<char> {
    "https://datasets-server.huggingface.co"@
}

impl HubClient {
    /// Creates a client; a token (for private or gated datasets) becomes a
    /// Bearer `Authorization` header, and one that cannot stand in a header
    /// is refused.
    pub fn new(token: Option<&str>) -> (r: Result<HubClient, AppError>)
        ensures
            match token {
                None => r matches Ok(c) && c.authorization is None && c.hf_api_base@ == hf_api_base()
                    && c.ds_server_base@ == ds_server_base(),
                Some(tok) => {
                    let value = "Bearer "@ + tok@;
                    if forall|i: int|
                        0 <= i < vstd::utf8::encode_utf8(value).len() ==> header_byte_ok(
                            #[trigger] vstd::utf8::encode_utf8(value)[i],
                        ) {
                        r matches Ok(c) && c.authorization matches Some(a) && a@ == value
                            && c.hf_api_base@ == hf_api_base() && c.ds_server_base@ == ds_server_base()
                    } else {
                        r matches Err(AppError::InvalidConfig { message }) && message@
                            == "Invalid HF token: "@ + "failed to parse header value"@
                    }
                },
            },
    {
        broadcast use vstd::string::group_string_axioms;

        let authorization = match token {
            None => None,
            Some(tok) => {
                let mut out: Vec<char> = Vec::new();
                push_str(&mut out, "Bearer ");
                push_str(&mut out, tok);
                let value = string_from_chars(&out);
                match check_header_value(value.as_str()) {
                    Ok(()) => Some(value),
                    Err(e) => {
                        let mut msg: Vec<char> = Vec::new();
                        push_str(&mut msg, "Invalid HF token: ");
                        push_str(&mut msg, e.as_str());
                        return Err(AppError::InvalidConfig { message: string_from_chars(&msg) });
                    },
                }
            },
        };
        Ok(HubClient {
            hf_api_base: "https://huggingface.co/api".to_string(),
            ds_server_base: "https://datasets-server.huggingface.co".to_string(),
            authorization,
        })
    }
}

} // verus!

verus! {

/// The smaller of a requested page length and 100, the most the
/// datasets-server hands out at once.
pub open spec fn page_length(length: u32) -> nat {
    if length < 100 {
        length as nat
    } else {
        100
    }
}

/// URL of a Hub search for LeRobot datasets, most downloaded first.
pub open spec fn search_url(base: Seq<char>, query: Seq<char>, limit: nat) -> Seq<char> {
    base + "/datasets?search="@ + url_encoded(query) + "&filter=other:LeRobot&sort=downloads&direction=-1&limit="@
        + decimal(limit) + "&full=true&cardData=true"@
}

/// URL of the Hub's full record of one dataset.
pub open spec fn detail_url(base: Seq<char>, repo_id: Seq<char>) -> Seq<char> {
    base + "/datasets/"@ + url_encoded(repo_id) + "?full=true"@
}

/// URL of a datasets-server endpoint that takes a dataset only (`info`, `size`).
pub open spec fn dataset_endpoint_url(base: Seq<char>, endpoint: Seq<char>, repo_id: Seq<char>) -> Seq<char> {
    base + "/"@ + endpoint + "?dataset="@ + url_encoded(repo_id)
}

/// URL of a page of rows of one split.
pub open spec fn rows_url(
    base: Seq<char>,
    repo_id: Seq<char>,
    config: Seq<char>,
    split: Seq<char>,
    offset: nat,
    length: u32,
) -> Seq<char> {
    base + "/rows?dataset="@ + url_encoded(repo_id) + "&config="@ + url_encoded(config) + "&split="@
        + url_encoded(split) + "&offset="@ + decimal(offset) + "&length="@ + decimal(page_length(length))
}

/// URL of a page of the rows of one split that satisfy a condition.
pub open spec fn filter_url(
    base: Seq<char>,
    repo_id: Seq<char>,
    config: Seq<char>,
    split: Seq<char>,
    where_clause: Seq<char>,
    offset: nat,
    length: u32,
) -> Seq<char> {
    base + "/filter?dataset="@ + url_encoded(repo_id) + "&config="@ + url_encoded(config) + "&split="@
        + url_encoded(split) + "&where="@ + url_encoded(where_clause) + "&offset="@ + decimal(offset)
        + "&length="@ + decimal(page_length(length))
}

/// The repository named in a Hub URL: what follows the first "/datasets/", up
/// to the next "/datasets/" and then up to the first '?'; "unknown" where the
/// URL has no "/datasets/".
pub open spec fn repo_id_in_url(url: Seq<char>) -> Seq<char> {
    let pat = "/datasets/"@;
    match first_occurrence(url, pat, 0) {
        None => "unknown"@,
        Some(i) => {
            let start = i + pat.len();
            let end = match first_occurrence(url, pat, start) {
                Some(j) => j,
                None => url.len() as int,
            };
            let segment = url.subrange(start, end);
            match first_index_of(segment, '?') {
                Some(q) => segment.take(q),
                None => segment,
            }
        },
    }
}

/// Appends `s`, percent-encoded.
fn push_encoded(out: &mut Vec<char>, s: &str)
    ensures
        final(out)@ == old(out)@ + url_encoded(s@),
{
    let e = url_encode(s);
    push_str(out, e.as_str());
}

impl HubClient {
    /// URL of a Hub search for LeRobot datasets
    /// (`GET /api/datasets?search={query}&filter=other:LeRobot&sort=downloads&direction=-1&limit={limit}&full=true&cardData=true`).
    pub fn search_datasets_url(&self, query: &str, limit: u32) -> (u: String)
        ensures
            u@ == search_url(self.hf_api_base@, query@, limit as nat),
    {
        let mut out: Vec<char> = Vec::new();
        push_str(&mut out, self.hf_api_base.as_str());
        push_str(&mut out, "/datasets?search=");
        push_encoded(&mut out, query);
        push_str(&mut out, "&filter=other:LeRobot&sort=downloads&direction=-1&limit=");
        push_decimal(&mut out, limit as u128);
        push_str(&mut out, "&full=true&cardData=true");
        assert(out@ =~= search_url(self.hf_api_base@, query@, limit as nat));
        string_from_chars(&out)
    }

    /// URL of the Hub's full record of one dataset (`GET /api/datasets/{repo_id}?full=true`).
    pub fn dataset_detail_url(&self, repo_id: &str) -> (u: String)
        ensures
            u@ == detail_url(self.hf_api_base@, repo_id@),
    {
        let mut out: Vec<char> = Vec::new();
        push_str(&mut out, self.hf_api_base.as_str());
        push_str(&mut out, "/datasets/");
        push_encoded(&mut out, repo_id);
        push_str(&mut out, "?full=true");
        assert(out@ =~= detail_url(self.hf_api_base@, repo_id@));
        string_from_chars(&out)
    }

    /// URL of a dataset's column schemas and splits (`GET /info?dataset={repo_id}`).
    pub fn dataset_server_info_url(&self, repo_id: &str) -> (u: String)
        ensures
            u@ == dataset_endpoint_url(self.ds_server_base@, "info"@, repo_id@),
    {
        let mut out: Vec<char> = Vec::new();
        push_str(&mut out, self.ds_server_base.as_str());
        push_str(&mut out, "/");
        push_str(&mut out, "info");
        push_str(&mut out, "?dataset=");
        push_encoded(&mut out, repo_id);
        assert(out@ =~= dataset_endpoint_url(self.ds_server_base@, "info"@, repo_id@));
        string_from_chars(&out)
    }

    /// URL of a dataset's size in rows and bytes (`GET /size?dataset={repo_id}`).
    pub fn dataset_size_url(&self, repo_id: &str) -> (u: String)
        ensures
            u@ == dataset_endpoint_url(self.ds_server_base@, "size"@, repo_id@),
    {
        let mut out: Vec<char> = Vec::new();
        push_str(&mut out, self.ds_server_base.as_str());
        push_str(&mut out, "/");
        push_str(&mut out, "size");
        push_str(&mut out, "?dataset=");
        push_encoded(&mut out, repo_id);
        assert(out@ =~= dataset_endpoint_url(self.ds_server_base@, "size"@, repo_id@));
        string_from_chars(&out)
    }

    /// URL of a page of rows; the page length is capped at 100
    /// (`GET /rows?dataset=...&config=...&split=...&offset=...&length=...`).
    pub fn dataset_rows_url(&self, repo_id: &str, config: &str, split: &str, offset: u64, length: u32) -> (u:
        String)
        ensures
            u@ == rows_url(self.ds_server_base@, repo_id@, config@, split@, offset as nat, length),
    {
        let mut out: Vec<char> = Vec::new();
        push_str(&mut out, self.ds_server_base.as_str());
        push_str(&mut out, "/rows?dataset=");
        push_encoded(&mut out, repo_id);
        push_str(&mut out, "&config=");
        push_encoded(&mut out, config);
        push_str(&mut out, "&split=");
        push_encoded(&mut out, split);
        push_str(&mut out, "&offset=");
        push_decimal(&mut out, offset as u128);
        push_str(&mut out, "&length=");
        let capped: u32 = if length < 100 {
            length
        } else {
            100
        };
        push_decimal(&mut out, capped as u128);
        assert(out@ =~= rows_url(self.ds_server_base@, repo_id@, config@, split@, offset as nat, length));
        string_from_chars(&out)
    }

    /// URL of a page of the rows that satisfy a condition (used for episode
    /// preview); the page length is capped at 100
    /// (`GET /filter?dataset=...&config=...&split=...&where=...&offset=...&length=...`).
    pub fn filter_rows_url(
        &self,
        repo_id: &str,
        config: &str,
        split: &str,
        where_clause: &str,
        offset: u64,
        length: u32,
    ) -> (u: String)
        ensures
            u@ == filter_url(self.ds_server_base@, repo_id@, config@, split@, where_clause@, offset as nat, length),
    {
        let mut out: Vec<char> = Vec::new();
        push_str(&mut out, self.ds_server_base.as_str());
        push_str(&mut out, "/filter?dataset=");
        push_encoded(&mut out, repo_id);
        push_str(&mut out, "&config=");
        push_encoded(&mut out, config);
        push_str(&mut out, "&split=");
        push_encoded(&mut out, split);
        push_str(&mut out, "&where=");
        push_encoded(&mut out, where_clause);
        push_str(&mut out, "&offset=");
        push_decimal(&mut out, offset as u128);
        push_str(&mut out, "&length=");
        let capped: u32 = if length < 100 {
            length
        } else {
            100
        };
        push_decimal(&mut out, capped as u128);
        assert(out@ =~= filter_url(
            self.ds_server_base@,
            repo_id@,
            config@,
            split@,
            where_clause@,
            offset as nat,
            length,
        ));
        string_from_chars(&out)
    }

    /// The error for a failed response: 404 names the dataset found in the
    /// URL, 429 asks to retry after 60 seconds, anything else keeps the
    /// status, URL and body.
    pub fn map_error(&self, status: u16, url: &str, body: String) -> (e: AppError)
        ensures
            status == 404 ==> (e matches AppError::NotFound { repo_id } && repo_id@ == repo_id_in_url(url@)),
            status == 429 ==> (e matches AppError::RateLimited { retry_after_secs } && retry_after_secs == 60),
            status != 404 && status != 429 ==> (e matches AppError::HubApi { status: s, url: u, body: b } && s
                == status && u@ == url@ && b == body),
    {
        if status == 404 {
            AppError::NotFound { repo_id: repo_id_from_url(url) }
        } else if status == 429 {
            AppError::RateLimited { retry_after_secs: 60 }
        } else {
            AppError::HubApi { status, url: string_from_chars(&chars_of(url)), body }
        }
    }
}

/// A response status that counts as success (200 to 299); any other goes
/// through `HubClient::map_error`.
pub fn is_success_status(status: u16) -> (b: bool)
    ensures
        b == (200 <= status <= 299),
{
    200 <= status && status <= 299
}

/// The part of `segment` before its first '?'.
fn before_question_mark(segment: String) -> (r: String)
    ensures
        r@ == match first_index_of(segment@, '?') {
            Some(q) => segment@.take(q),
            None => segment@,
        },
{
    let seg = chars_of(segment.as_str());
    match find_char(&seg, '?') {
        Some(q) => {
            let r = string_from_range(&seg, 0, q);
            assert(r@ =~= segment@.take(q as int));
            r
        },
        None => segment,
    }
}

/// The repository named in a Hub URL (see `repo_id_in_url`).
pub fn repo_id_from_url(url: &str) -> (r: String)
    ensures
        r@ == repo_id_in_url(url@),
{
    let cs = chars_of(url);
    let pat = chars_of("/datasets/");
    match find_from(&cs, &pat, 0) {
        None => string_from_chars(&chars_of("unknown")),
        Some(i) => {
            let n = cs.len();
            assert(occurs(cs@, pat@, i as int));
            let start = i + pat.len();
            let end = match find_from(&cs, &pat, start) {
                Some(j) => j,
                None => cs.len(),
            };
            let segment = string_from_range(&cs, start, end);
            before_question_mark(segment)
        },
    }
}

} // verus!

verus! {

/// A character that cannot change the structure of a URL: an unreserved
/// character or `%`.
pub open spec fn url_safe(c: char) -> bool {
    ('0' <= c <= '9') || ('A' <= c <= 'Z') || ('a' <= c <= 'z') || c == '-' || c == '.' || c == '_' || c == '~'
        || c == '%'
}

proof fn lemma_percent_encode_safe(bytes: Seq<u8>)
    ensures
        forall|i: int| 0 <= i < percent_encode(bytes).len() ==> url_safe(#[trigger] percent_encode(bytes)[i]),
    decreases bytes.len(),
{
    if bytes.len() > 0 {
        lemma_percent_encode_safe(bytes.drop_first());
        let head = encode_byte(bytes[0]);
        let tail = percent_encode(bytes.drop_first());
        assert forall|i: int| 0 <= i < head.len() implies url_safe(#[trigger] head[i]) by {
            let b = bytes[0];
            if !unreserved(b) {
                assert(b / 16 < 16 && b % 16 < 16);
            }
        }
        assert forall|i: int| 0 <= i < percent_encode(bytes).len() implies url_safe(
            #[trigger] percent_encode(bytes)[i],
        ) by {
            if i < head.len() {
                assert(percent_encode(bytes)[i] == head[i]);
            } else {
                assert(percent_encode(bytes)[i] == tail[i - head.len()]);
            }
        }
    }
}

/// A percent-encoded text holds only unreserved characters and `%`, so a
/// query value can never add a parameter or end the query of the URL it is
/// put in.
pub proof fn law_encoded_text_is_url_safe(s: Seq<char>)
    ensures
        forall|i: int| 0 <= i < url_encoded(s).len() ==> url_safe(#[trigger] url_encoded(s)[i]),
{
    lemma_percent_encode_safe(vstd::utf8::encode_utf8(s));
}

} // verus!

verus! {

/// A page of rows asks for the requested length, up to 100: the rows URL ends
/// with the offset and then the requested length where it is below 100, and
/// 100 otherwise.
pub proof fn law_rows_url_asks_for_requested_length(
    base: Seq<char>,
    repo_id: Seq<char>,
    config: Seq<char>,
    split: Seq<char>,
    offset: nat,
    length: u32,
)
    ensures
        ({
            let url = rows_url(base, repo_id, config, split, offset, length);
            let tail = "&offset="@ + decimal(offset) + "&length="@ + decimal(
                if length < 100 {
                    length as nat
                } else {
                    100
                },
            );
            tail.len() <= url.len() && url.skip(url.len() - tail.len()) == tail
        }),
{
    let url = rows_url(base, repo_id, config, split, offset, length);
    let tail = "&offset="@ + decimal(offset) + "&length="@ + decimal(
        if length < 100 {
            length as nat
        } else {
            100
        },
    );
    let head = base + "/rows?dataset="@ + url_encoded(repo_id) + "&config="@ + url_encoded(config) + "&split="@
        + url_encoded(split);
    assert(url =~= head + tail);
    assert(url.skip(url.len() - tail.len()) =~= tail);
}

/// The same for a filtered page of rows.
pub proof fn law_filter_url_asks_for_requested_length(
    base: Seq<char>,
    repo_id: Seq<char>,
    config: Seq<char>,
    split: Seq<char>,
    where_clause: Seq<char>,
    offset: nat,
    length: u32,
)
    ensures
        ({
            let url = filter_url(base, repo_id, config, split, where_clause, offset, length);
            let tail = "&offset="@ + decimal(offset) + "&length="@ + decimal(
                if length < 100 {
                    length as nat
                } else {
                    100
                },
            );
            tail.len() <= url.len() && url.skip(url.len() - tail.len()) == tail
        }),
{
    let url = filter_url(base, repo_id, config, split, where_clause, offset, length);
    let tail = "&offset="@ + decimal(offset) + "&length="@ + decimal(
        if length < 100 {
            length as nat
        } else {
            100
        },
    );
    let head = base + "/filter?dataset="@ + url_encoded(repo_id) + "&config="@ + url_encoded(config) + "&split="@
        + url_encoded(split) + "&where="@ + url_encoded(where_clause);
    assert(url =~= head + tail);
    assert(url.skip(url.len() - tail.len()) =~= tail);
}

} // verus!

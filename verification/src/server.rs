//! What the MCP tools decide before and after they reach the Hub: parameter
//! checks and defaults, and the texts they answer with.

use vstd::prelude::*;

use crate::error::AppError;
use crate::text::{chars_of, push_str, string_from_chars, trim, trim_seq};

verus! {

/// Parameters of the `echo` tool.
#[derive(Debug)]
pub struct EchoParams {
    /// The message to echo back.
    pub message: String,
}

/// Parameters of the `search_datasets` tool.
#[derive(Debug)]
pub struct SearchDatasetsParams {
    /// Search query string.
    pub query: String,
    /// Filter by robot type (e.g. 'so100', 'aloha', 'widowx', 'koch').
    pub robot_type: Option<String>,
    /// Minimum number of episodes.
    pub min_episodes: Option<u32>,
    /// Maximum number of results to return (default 10, max 50).
    pub limit: Option<u32>,
}

/// A checked `search_datasets` call.
#[derive(Debug)]
pub struct SearchRequest {
    /// The query without surrounding white space; never empty.
    pub query: String,
    pub robot_type: Option<String>,
    pub min_episodes: Option<u32>,
    /// At most 50.
    pub limit: u32,
}

/// The number of results a search returns: 10 unless asked, and never more than 50.
pub open spec fn effective_limit(limit: Option<u32>) -> nat {
    let asked = match limit {
        Some(l) => l as nat,
        None => 10,
    };
    if asked <= 50 {
        asked
    } else {
        50
    }
}

/// Checks the parameters of `search_datasets`: the query, trimmed, must not
/// be empty; the limit defaults to 10 and is capped at 50.
pub fn search_request(params: &SearchDatasetsParams) -> (r: Result<SearchRequest, AppError>)
    ensures
        trim_seq(params.query@).len() == 0 <==> r is Err,
        r matches Err(e) ==> (e matches AppError::InvalidParam { message } && message@
            == "query parameter cannot be empty"@),
        r matches Ok(req) ==> req.query@ == trim_seq(params.query@) && req.limit == effective_limit(params.limit)
            && req.min_episodes == params.min_episodes && match (req.robot_type, params.robot_type) {
            (Some(a), Some(b)) => a@ == b@,
            (None, None) => true,
            _ => false,
        },
{
    let query = trim(params.query.as_str());
    if query.as_str().is_empty() {
        return Err(
            AppError::InvalidParam {
                message: string_from_chars(&chars_of("query parameter cannot be empty")),
            },
        );
    }
    let asked = match params.limit {
        Some(l) => l,
        None => 10,
    };
    let limit = if asked <= 50 {
        asked
    } else {
        50
    };
    let robot_type = match &params.robot_type {
        Some(r) => Some(r.clone()),
        None => None,
    };
    Ok(SearchRequest { query, robot_type, min_episodes: params.min_episodes, limit })
}

/// The answer of the `echo` tool.
pub fn echo_text(params: &EchoParams) -> (s: String)
    ensures
        s@ == "echo: "@ + params.message@,
{
    let mut out: Vec<char> = Vec::new();
    push_str(&mut out, "echo: ");
    push_str(&mut out, params.message.as_str());
    string_from_chars(&out)
}

} // verus!

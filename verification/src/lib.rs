//! Core of a Slack conversation archiver: parses a message permalink,
//! decides which auxiliary entities (channel, users, teams) to fetch,
//! collects and deduplicates the identifiers to resolve, and denormalizes
//! the fetched entities back into the message graph, producing one
//! self-contained document together with a stable file name.
//!
//! The host supplies the network transport; this crate only builds the
//! requests and consumes the already-deserialized responses.

use vstd::prelude::*;

pub mod channels;
pub mod components;
pub mod errors;
pub mod messages;
pub mod response;
pub mod slack_http_client;
pub mod slack_url;
pub mod state_machine;
pub mod team;
pub mod users;
pub mod utils;

verus! {

use vstd::string::StringExecFns;

/// Returns the base URL of the Slack web API.
pub fn get_api_base() -> (r: String)
    ensures
        r@ == "https://slack.com/api"@,
{
    String::from_str("https://slack.com/api")
}

} // verus!

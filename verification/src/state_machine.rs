//! The retrieval state machine: a deterministic transition table from the
//! current state and the feature flags to the next state. Channel info
//! comes before user info (a direct-message channel may reveal one more
//! user to fetch), and team info comes after user info (team ids are
//! discovered only on fetched users).

use vstd::prelude::*;

use crate::components::ObsidianSlackComponentsBuilder;
use crate::slack_http_client::{SlackHttpClient, SlackHttpClientConfigFeatureFlags};
use crate::slack_url::SlackUrl;

verus! {

/// A `(state, flags)` pair outside the transition table.
#[derive(Debug, Clone, Copy, PartialEq, Eq, Structural)]
pub enum Error {
    InvalidStateTransition {
        state: ObsidianSlackStates,
        flags: SlackHttpClientConfigFeatureFlags,
    },
}

/// The states of one retrieval, in dependency order.
#[derive(Debug, Clone, Copy, PartialEq, Eq, Structural)]
pub enum ObsidianSlackStates {
    Start,
    MessageAndThread,
    ChannelInfo,
    UserInfo,
    TeamInfo,
    End,
}

/// What one retrieval threads through the state machine: the accumulator,
/// the request builder, and the parsed permalink.
#[derive(Debug)]
pub struct ObsidianSlackStateMachineInput {
    pub components: ObsidianSlackComponentsBuilder,
    pub client: SlackHttpClient,
    pub slack_url: SlackUrl,
}

/// The state machine itself; it carries no data.
pub struct ObsidianSlackStateMachine;

/// The transition table. The message and thread are always fetched first;
/// then, per flags, channel info, user info and team info; `End` has no
/// successor.
pub open spec fn spec_transition(
    state: ObsidianSlackStates,
    flags: SlackHttpClientConfigFeatureFlags,
) -> Result<ObsidianSlackStates, Error> {
    match state {
        ObsidianSlackStates::Start => Ok(ObsidianSlackStates::MessageAndThread),
        ObsidianSlackStates::MessageAndThread => if !flags.get_users && !flags.get_channel_info {
            Ok(ObsidianSlackStates::End)
        } else if flags.get_channel_info {
            Ok(ObsidianSlackStates::ChannelInfo)
        } else {
            Ok(ObsidianSlackStates::UserInfo)
        },
        ObsidianSlackStates::ChannelInfo => if flags.get_users {
            Ok(ObsidianSlackStates::UserInfo)
        } else {
            Ok(ObsidianSlackStates::End)
        },
        ObsidianSlackStates::UserInfo => if flags.get_team_info {
            Ok(ObsidianSlackStates::TeamInfo)
        } else {
            Ok(ObsidianSlackStates::End)
        },
        ObsidianSlackStates::TeamInfo => Ok(ObsidianSlackStates::End),
        ObsidianSlackStates::End => Err(Error::InvalidStateTransition { state, flags }),
    }
}

impl ObsidianSlackStateMachine {
    /// One step of the table; the caller performs the fetch that the
    /// returned state calls for before stepping again.
    pub fn transition(
        state: &ObsidianSlackStates,
        flags: &SlackHttpClientConfigFeatureFlags,
    ) -> (r: Result<ObsidianSlackStates, Error>)
        ensures
            r == spec_transition(*state, *flags),
    {
        match state {
            ObsidianSlackStates::Start => Ok(ObsidianSlackStates::MessageAndThread),
            ObsidianSlackStates::MessageAndThread => {
                if !flags.get_users && !flags.get_channel_info {
                    Ok(ObsidianSlackStates::End)
                } else if flags.get_channel_info {
                    Ok(ObsidianSlackStates::ChannelInfo)
                } else {
                    Ok(ObsidianSlackStates::UserInfo)
                }
            },
            ObsidianSlackStates::ChannelInfo => {
                if flags.get_users {
                    Ok(ObsidianSlackStates::UserInfo)
                } else {
                    Ok(ObsidianSlackStates::End)
                }
            },
            ObsidianSlackStates::UserInfo => {
                if flags.get_team_info {
                    Ok(ObsidianSlackStates::TeamInfo)
                } else {
                    Ok(ObsidianSlackStates::End)
                }
            },
            ObsidianSlackStates::TeamInfo => Ok(ObsidianSlackStates::End),
            ObsidianSlackStates::End => Err(
                Error::InvalidStateTransition { state: *state, flags: *flags },
            ),
        }
    }
}

/// From any state but `End`, the machine reaches `End`: each transition
/// either lands there or strictly advances through the dependency order.
pub proof fn lemma_transitions_terminate(
    state: ObsidianSlackStates,
    flags: SlackHttpClientConfigFeatureFlags,
)
    requires
        !(state is End),
    ensures
        spec_transition(state, flags) matches Ok(next) && state_rank(next) > state_rank(state),
{
}

/// A measure that every transition strictly increases.
pub open spec fn state_rank(state: ObsidianSlackStates) -> int {
    match state {
        ObsidianSlackStates::Start => 0,
        ObsidianSlackStates::MessageAndThread => 1,
        ObsidianSlackStates::ChannelInfo => 2,
        ObsidianSlackStates::UserInfo => 3,
        ObsidianSlackStates::TeamInfo => 4,
        ObsidianSlackStates::End => 5,
    }
}

} // verus!

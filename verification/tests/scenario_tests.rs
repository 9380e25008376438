//! End-to-end retrieval scenarios, with the remote responses canned: the
//! test plays the host, driving the state machine and handing each step
//! its response.

use obsidian_slack::components::{
    Error as ComponentsError, FileName, ObsidianSlackComponents, ObsidianSlackComponentsBuilder,
};
use obsidian_slack::messages::{message_and_thread_from_response, Message, MessageResponse};
use obsidian_slack::slack_http_client::SlackHttpClientConfigFeatureFlags;
use obsidian_slack::slack_url::SlackUrl;
use obsidian_slack::state_machine::{ObsidianSlackStateMachine, ObsidianSlackStates};
use obsidian_slack::team::{teams_from_responses, CollectTeams, Team, TeamResponse, Teams};
use obsidian_slack::users::{users_from_responses, CollectUsers, User, UserResponse};
use obsidian_slack::utils::create_file_name;

fn message(user: &str, ts: &str, reaction_users: &[&str]) -> Message {
    Message {
        message_type: Some("message".to_string()),
        user: Some(user.to_string()),
        user_info: None,
        text: Some("hello".to_string()),
        thread_ts: Some(ts.to_string()),
        reply_count: None,
        ts: Some(ts.to_string()),
        reactions: if reaction_users.is_empty() {
            None
        } else {
            Some(obsidian_slack::messages::Reactions(vec![
                obsidian_slack::messages::Reaction {
                    name: "thumbsup".to_string(),
                    users: reaction_users.iter().map(|u| u.to_string()).collect(),
                    users_info: None,
                    count: reaction_users.len() as u16,
                },
            ]))
        },
        files: None,
    }
}

fn user(id: &str) -> User {
    User {
        id: id.to_string(),
        team_id: Some("T1".to_string()),
        team_info: None,
        name: Some(format!("name-{}", id)),
        real_name: None,
    }
}

fn dm_channel(user_id: &str) -> obsidian_slack::channels::Channel {
    obsidian_slack::channels::Channel {
        id: Some("D55555".to_string()),
        name: None,
        is_channel: Some(false),
        is_group: Some(false),
        is_im: Some(true),
        created: Some(1),
        creator: None,
        is_archived: Some(false),
        is_general: Some(false),
        name_normalized: None,
        is_shared: Some(false),
        is_member: Some(true),
        is_private: Some(true),
        is_mpim: Some(false),
        last_read: None,
        topic: None,
        purpose: None,
        locale: None,
        is_org_shared: Some(false),
        user: Some(user_id.to_string()),
        user_info: None,
        unread_count: None,
        is_open: Some(true),
    }
}

/// Drives the state machine as the host would, with canned responses.
fn retrieve(
    url: &str,
    flags: SlackHttpClientConfigFeatureFlags,
    replies: MessageResponse,
    channel: Option<obsidian_slack::channels::Channel>,
    user_ok: bool,
) -> Result<ObsidianSlackComponents, String> {
    let slack_url = SlackUrl::new(url).map_err(|e| format!("{:?}", e))?;
    let mut builder = ObsidianSlackComponentsBuilder::default();
    let mut state = ObsidianSlackStates::Start;
    while state != ObsidianSlackStates::End {
        state = ObsidianSlackStateMachine::transition(&state, &flags)
            .map_err(|e| format!("{:?}", e))?;
        match state {
            ObsidianSlackStates::MessageAndThread => {
                let ts = slack_url.ts.clone();
                let mat = message_and_thread_from_response(&replies, &ts)
                    .map_err(|e| format!("{:?}", e))?;
                builder.message_and_thread(mat);
            }
            ObsidianSlackStates::ChannelInfo => {
                builder.channel(channel.clone());
            }
            ObsidianSlackStates::UserInfo => {
                let ids = builder.collect_users().map_err(|e| format!("{:?}", e))?;
                let responses: Vec<UserResponse> = ids
                    .0
                    .iter()
                    .map(|id| UserResponse {
                        ok: Some(user_ok),
                        error: if user_ok { None } else { Some("user_not_found".to_string()) },
                        user: if user_ok { Some(user(id)) } else { None },
                    })
                    .collect();
                let users =
                    users_from_responses(&ids, &responses).map_err(|e| format!("{:?}", e))?;
                builder.users(Some(users));
            }
            ObsidianSlackStates::TeamInfo => {
                let ids = builder.collect_teams().map_err(|e| format!("{:?}", e))?;
                let responses: Vec<TeamResponse> = ids
                    .0
                    .iter()
                    .map(|id| TeamResponse {
                        ok: Some(true),
                        error: None,
                        team: Some(Team {
                            id: id.to_string(),
                            name: format!("team-{}", id),
                            domain: None,
                            email_domain: None,
                            enterprise_id: None,
                            enterprise_name: None,
                        }),
                    })
                    .collect();
                let teams =
                    teams_from_responses(&ids, &responses).map_err(|e| format!("{:?}", e))?;
                builder.teams(Some(teams));
            }
            _ => {}
        }
    }
    builder.file_name(FileName(create_file_name(&slack_url)));
    let components = builder.build().map_err(|e| format!("{:?}", e))?;
    ObsidianSlackComponents::finalize(components).map_err(|e| format!("{:?}", e))
}

fn no_flags() -> SlackHttpClientConfigFeatureFlags {
    SlackHttpClientConfigFeatureFlags {
        get_users: false,
        get_channel_info: false,
        get_team_info: false,
        get_file_data: false,
    }
}

#[test]
fn retrieval_with_all_flags_off_returns_bare_message() {
    let replies = MessageResponse {
        messages: Some(vec![
            message("U1", "1111111111.000100", &[]),
            message("U2", "1111111111.000200", &[]),
        ]),
        ok: Some(true),
        error: None,
    };
    let out = retrieve(
        "https://x.slack.com/archives/C123/p1111111111000200",
        no_flags(),
        replies,
        None,
        true,
    )
    .unwrap();
    assert!(out.users.is_none());
    assert!(out.channel.is_none());
    assert!(out.teams.is_none());
    assert_eq!(out.message_and_thread.message.0.len(), 1);
    assert_eq!(
        out.message_and_thread.message.0[0].ts.as_deref(),
        Some("1111111111.000200")
    );
    assert_eq!(out.message_and_thread.thread.0.len(), 2);
    // Without fetched users no entry is populated: enrichment is
    // strictly additive.
    assert!(out.message_and_thread.message.0[0].user_info.is_none());
    assert!(out.message_and_thread.thread.0.iter().all(|m| m.user_info.is_none()));
    assert_eq!(out.file_name.0, "C123-1111111111.000200.json");
}

#[test]
fn retrieval_with_users_dedups_sender_and_reactor() {
    let replies = MessageResponse {
        messages: Some(vec![message("U1", "1111111111.000100", &["U1"])]),
        ok: Some(true),
        error: None,
    };
    let mut flags = no_flags();
    flags.get_users = true;
    let out = retrieve(
        "https://x.slack.com/archives/C123/p1111111111000100",
        flags,
        replies,
        None,
        true,
    )
    .unwrap();
    let users = out.users.unwrap();
    // One fetch for U1, not two.
    assert_eq!(users.0.len(), 1);
    assert_eq!(users.0[0].0, "U1");
    let msg = &out.message_and_thread.message.0[0];
    assert_eq!(msg.user_info.as_ref().unwrap().id, "U1");
    let reactions = msg.reactions.as_ref().unwrap();
    assert_eq!(reactions.0[0].users_info.as_ref().unwrap()[0].id, "U1");
}

#[test]
fn retrieval_with_channel_includes_counterpart_user() {
    let replies = MessageResponse {
        messages: Some(vec![message("U2", "1111111111.000100", &[])]),
        ok: Some(true),
        error: None,
    };
    let mut flags = no_flags();
    flags.get_users = true;
    flags.get_channel_info = true;
    let out = retrieve(
        "https://x.slack.com/archives/D55555/p1111111111000100",
        flags,
        replies,
        Some(dm_channel("U1")),
        true,
    )
    .unwrap();
    let users = out.users.unwrap();
    // U1 never appears in a message, only as the channel counterpart.
    assert!(users.0.iter().any(|(id, _)| id == "U1"));
    assert!(users.0.iter().any(|(id, _)| id == "U2"));
    let channel = out.channel.unwrap();
    assert_eq!(channel.user_info.unwrap().id, "U1");
}

#[test]
fn retrieval_fails_without_partial_result_on_not_ok_reply() {
    let replies = MessageResponse {
        messages: None,
        ok: Some(false),
        error: Some("channel_not_found".to_string()),
    };
    let result = retrieve(
        "https://x.slack.com/archives/C123/p1111111111000100",
        no_flags(),
        replies,
        None,
        true,
    );
    assert!(result.is_err());
}

#[test]
fn retrieval_fails_without_partial_result_on_not_ok_user_response() {
    let replies = MessageResponse {
        messages: Some(vec![message("U1", "1111111111.000100", &[])]),
        ok: Some(true),
        error: None,
    };
    let mut flags = no_flags();
    flags.get_users = true;
    let result = retrieve(
        "https://x.slack.com/archives/C123/p1111111111000100",
        flags,
        replies,
        None,
        false,
    );
    assert!(result.is_err());
}

#[test]
fn retrieval_with_teams_populates_team_info() {
    let replies = MessageResponse {
        messages: Some(vec![message("U1", "1111111111.000100", &[])]),
        ok: Some(true),
        error: None,
    };
    let mut flags = no_flags();
    flags.get_users = true;
    flags.get_team_info = true;
    let out = retrieve(
        "https://x.slack.com/archives/C123/p1111111111000100",
        flags,
        replies,
        None,
        true,
    )
    .unwrap();
    let users = out.users.unwrap();
    assert_eq!(users.0[0].1.team_info.as_ref().unwrap().id, "T1");
    let teams = out.teams.unwrap();
    assert_eq!(teams.0.len(), 1);
    assert_eq!(teams.0[0].0, "T1");
}

#[test]
fn finalize_fails_when_collected_id_was_never_fetched() {
    // A user map missing a referenced sender is a consistency violation.
    let replies = MessageResponse {
        messages: Some(vec![message("U1", "1111111111.000100", &[])]),
        ok: Some(true),
        error: None,
    };
    let slack_url = SlackUrl::new("https://x.slack.com/archives/C123/p1111111111000100").unwrap();
    let ts = slack_url.ts.clone();
    let mat = message_and_thread_from_response(&replies, &ts).unwrap();
    let mut builder = ObsidianSlackComponentsBuilder::default();
    builder.message_and_thread(mat);
    builder.users(Some(obsidian_slack::users::Users(vec![(
        "U9".to_string(),
        user("U9"),
    )])));
    builder.file_name(FileName(create_file_name(&slack_url)));
    let components = builder.build().unwrap();
    let err = ObsidianSlackComponents::finalize(components).unwrap_err();
    assert!(matches!(err, ComponentsError::CouldNotFinalizeMessages { .. }));
}

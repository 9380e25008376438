use obsidian_slack::slack_http_client::SlackHttpClientConfigFeatureFlags;
use obsidian_slack::state_machine::{Error, ObsidianSlackStateMachine, ObsidianSlackStates};

fn flags(get_users: bool, get_channel_info: bool, get_team_info: bool) -> SlackHttpClientConfigFeatureFlags {
    SlackHttpClientConfigFeatureFlags {
        get_users,
        get_channel_info,
        get_team_info,
        get_file_data: false,
    }
}

fn step(state: ObsidianSlackStates, f: &SlackHttpClientConfigFeatureFlags) -> ObsidianSlackStates {
    ObsidianSlackStateMachine::transition(&state, f).unwrap()
}

#[test]
fn start_always_fetches_message_and_thread() {
    for &u in &[false, true] {
        for &c in &[false, true] {
            for &t in &[false, true] {
                assert_eq!(
                    step(ObsidianSlackStates::Start, &flags(u, c, t)),
                    ObsidianSlackStates::MessageAndThread
                );
            }
        }
    }
}

#[test]
fn message_and_thread_ends_without_users_or_channel() {
    assert_eq!(
        step(ObsidianSlackStates::MessageAndThread, &flags(false, false, false)),
        ObsidianSlackStates::End
    );
    assert_eq!(
        step(ObsidianSlackStates::MessageAndThread, &flags(false, false, true)),
        ObsidianSlackStates::End
    );
}

#[test]
fn message_and_thread_goes_to_channel_info_first() {
    // Channel info wins even when users are also requested: the channel
    // may reveal one more user id to fetch.
    assert_eq!(
        step(ObsidianSlackStates::MessageAndThread, &flags(true, true, false)),
        ObsidianSlackStates::ChannelInfo
    );
    assert_eq!(
        step(ObsidianSlackStates::MessageAndThread, &flags(false, true, false)),
        ObsidianSlackStates::ChannelInfo
    );
}

#[test]
fn message_and_thread_goes_to_user_info_without_channel() {
    assert_eq!(
        step(ObsidianSlackStates::MessageAndThread, &flags(true, false, false)),
        ObsidianSlackStates::UserInfo
    );
}

#[test]
fn channel_info_goes_to_user_info_when_users_requested() {
    assert_eq!(
        step(ObsidianSlackStates::ChannelInfo, &flags(true, true, false)),
        ObsidianSlackStates::UserInfo
    );
    assert_eq!(
        step(ObsidianSlackStates::ChannelInfo, &flags(false, true, false)),
        ObsidianSlackStates::End
    );
}

#[test]
fn user_info_goes_to_team_info_when_teams_requested() {
    assert_eq!(
        step(ObsidianSlackStates::UserInfo, &flags(true, false, true)),
        ObsidianSlackStates::TeamInfo
    );
    assert_eq!(
        step(ObsidianSlackStates::UserInfo, &flags(true, false, false)),
        ObsidianSlackStates::End
    );
}

#[test]
fn team_info_always_ends() {
    assert_eq!(
        step(ObsidianSlackStates::TeamInfo, &flags(true, true, true)),
        ObsidianSlackStates::End
    );
}

#[test]
fn end_has_no_successor() {
    let f = flags(true, true, true);
    let err = ObsidianSlackStateMachine::transition(&ObsidianSlackStates::End, &f).unwrap_err();
    assert!(matches!(err, Error::InvalidStateTransition { .. }));
}

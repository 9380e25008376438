use obsidian_slack::channels::{channel_from_response, Channel, ChannelResponse};
use obsidian_slack::errors::SlackHttpClientError;
use obsidian_slack::team::{teams_from_responses, CollectTeams, Team, TeamIds, TeamResponse, Teams};
use obsidian_slack::users::{
    users_from_responses, Error as UsersError, User, UserIds, UserResponse, Users,
};

fn team(id: &str) -> Team {
    Team {
        id: id.to_string(),
        name: format!("team-{}", id),
        domain: Some("example".to_string()),
        email_domain: None,
        enterprise_id: None,
        enterprise_name: None,
    }
}

fn user(id: &str, team_id: Option<&str>) -> User {
    User {
        id: id.to_string(),
        team_id: team_id.map(|t| t.to_string()),
        team_info: None,
        name: Some(format!("name-{}", id)),
        real_name: Some(format!("Real {}", id)),
    }
}

fn channel(user_id: Option<&str>) -> Channel {
    Channel {
        id: Some("D1".to_string()),
        name: None,
        is_channel: Some(false),
        is_group: Some(false),
        is_im: Some(true),
        created: Some(1),
        creator: None,
        is_archived: Some(false),
        is_general: Some(false),
        name_normalized: None,
        is_shared: Some(false),
        is_member: Some(true),
        is_private: Some(true),
        is_mpim: Some(false),
        last_read: None,
        topic: None,
        purpose: None,
        locale: None,
        is_org_shared: Some(false),
        user: user_id.map(|u| u.to_string()),
        user_info: None,
        unread_count: None,
        is_open: Some(true),
    }
}

#[test]
fn users_from_responses_zips_positionally() {
    let ids = UserIds(vec!["U1".to_string(), "U2".to_string()]);
    let responses = vec![
        UserResponse { ok: Some(true), error: None, user: Some(user("U1", Some("T1"))) },
        UserResponse { ok: Some(true), error: None, user: Some(user("U2", Some("T1"))) },
    ];
    let users = users_from_responses(&ids, &responses).unwrap();
    assert_eq!(users.0.len(), 2);
    assert_eq!(users.0[0].0, "U1");
    assert_eq!(users.0[0].1.id, "U1");
    assert_eq!(users.0[1].0, "U2");
    let found = users.get(&"U2".to_string()).unwrap();
    assert_eq!(found.id, "U2");
    assert!(users.get(&"U9".to_string()).is_none());
}

#[test]
fn users_from_responses_fails_atomically_on_not_ok() {
    let ids = UserIds(vec!["U1".to_string(), "U2".to_string()]);
    let responses = vec![
        UserResponse { ok: Some(true), error: None, user: Some(user("U1", Some("T1"))) },
        UserResponse { ok: Some(false), error: Some("user_not_found".to_string()), user: None },
    ];
    let err = users_from_responses(&ids, &responses).unwrap_err();
    assert!(matches!(err, UsersError::InvalidUserResponse { .. }));
}

#[test]
fn teams_from_responses_zips_positionally() {
    let ids = TeamIds(vec!["T1".to_string()]);
    let responses = vec![TeamResponse { ok: Some(true), error: None, team: Some(team("T1")) }];
    let teams = teams_from_responses(&ids, &responses).unwrap();
    assert_eq!(teams.0.len(), 1);
    assert_eq!(teams.get(&"T1".to_string()).unwrap().id, "T1");
}

#[test]
fn teams_from_responses_fails_atomically_on_not_ok() {
    let ids = TeamIds(vec!["T1".to_string(), "T2".to_string()]);
    let responses = vec![
        TeamResponse { ok: Some(false), error: Some("team_not_found".to_string()), team: None },
        TeamResponse { ok: Some(true), error: None, team: Some(team("T2")) },
    ];
    assert!(teams_from_responses(&ids, &responses).is_err());
}

#[test]
fn collect_teams_lists_every_users_team() {
    let users = Users(vec![
        ("U1".to_string(), user("U1", Some("T1"))),
        ("U2".to_string(), user("U2", Some("T2"))),
    ]);
    let tids = users.collect_teams().unwrap();
    assert_eq!(tids.0, vec!["T1".to_string(), "T2".to_string()]);
}

#[test]
fn collect_teams_fails_on_user_without_team() {
    let users = Users(vec![("U1".to_string(), user("U1", None))]);
    let err = users.collect_teams().unwrap_err();
    assert!(matches!(err, UsersError::TeamIdWasNoneInUser { .. }));
}

#[test]
fn finalize_users_populates_team_info() {
    let users = Users(vec![
        ("U1".to_string(), user("U1", Some("T1"))),
        ("U2".to_string(), user("U2", Some("T1"))),
    ]);
    let teams = Teams(vec![("T1".to_string(), team("T1"))]);
    let out = Users::finalize_users(users, &teams).unwrap();
    assert_eq!(out.0.len(), 2);
    assert_eq!(out.0[0].1.team_info.as_ref().unwrap().id, "T1");
    assert_eq!(out.0[1].1.team_info.as_ref().unwrap().id, "T1");
}

#[test]
fn finalize_users_fails_on_missing_team_id() {
    let users = Users(vec![("U1".to_string(), user("U1", None))]);
    let teams = Teams(vec![("T1".to_string(), team("T1"))]);
    let err = Users::finalize_users(users, &teams).unwrap_err();
    assert!(matches!(err, UsersError::TeamIdWasNoneInUser { .. }));
}

#[test]
fn finalize_users_fails_on_team_not_in_map() {
    let users = Users(vec![("U1".to_string(), user("U1", Some("T9")))]);
    let teams = Teams(vec![("T1".to_string(), team("T1"))]);
    let err = Users::finalize_users(users, &teams).unwrap_err();
    assert_eq!(err, UsersError::TeamIdNotFoundInTeamMap { team_id: "T9".to_string() });
}

#[test]
fn channel_from_response_extracts_the_channel() {
    let response = ChannelResponse { ok: Some(true), error: None, channel: Some(channel(Some("U1"))) };
    let c = channel_from_response(&response).unwrap();
    assert_eq!(c.user.as_deref(), Some("U1"));
}

#[test]
fn channel_from_response_fails_on_not_ok() {
    let response = ChannelResponse {
        ok: Some(false),
        error: Some("channel_not_found".to_string()),
        channel: None,
    };
    assert!(channel_from_response(&response).is_err());
}

#[test]
fn channel_collect_users_yields_the_counterpart() {
    assert_eq!(channel(Some("U1")).collect_users(), vec!["U1".to_string()]);
    assert_eq!(channel(None).collect_users(), Vec::<String>::new());
}

#[test]
fn finalize_channel_populates_counterpart_user() {
    let users = Users(vec![("U1".to_string(), user("U1", Some("T1")))]);
    let out = Channel::finalize_channel(channel(Some("U1")), Some(&users)).unwrap();
    assert_eq!(out.user_info.unwrap().id, "U1");
}

#[test]
fn finalize_channel_without_users_is_identity() {
    let c = channel(Some("U1"));
    let out = Channel::finalize_channel(c.clone(), None).unwrap();
    assert_eq!(out, c);
}

#[test]
fn finalize_channel_fails_on_unknown_counterpart() {
    let users = Users(vec![("U2".to_string(), user("U2", Some("T1")))]);
    let err = Channel::finalize_channel(channel(Some("U1")), Some(&users)).unwrap_err();
    assert!(matches!(
        err,
        obsidian_slack::channels::Error::UserIdNotFoundInUserMap { .. }
    ));
}

#[test]
fn http_client_error_messages() {
    let e = SlackHttpClientError::InvalidApiToken("abc".to_string());
    assert_eq!(e.message(), "Provided api token was invalid: abc");
    let e = SlackHttpClientError::InvalidApiCookie("def".to_string());
    assert_eq!(e.message(), "Provided api cookie was invalid: def");
}

use obsidian_slack::messages::{
    message_and_thread_from_response, Error, File, Files, Message, MessageResponse, Reaction,
    Reactions,
};
use obsidian_slack::users::{CollectUsers, User, Users};

fn message(user: Option<&str>, ts: &str, reactions: Option<Reactions>) -> Message {
    Message {
        message_type: Some("message".to_string()),
        user: user.map(|u| u.to_string()),
        user_info: None,
        text: Some("hello".to_string()),
        thread_ts: Some(ts.to_string()),
        reply_count: None,
        ts: Some(ts.to_string()),
        reactions,
        files: None,
    }
}

fn reaction(name: &str, users: &[&str]) -> Reaction {
    Reaction {
        name: name.to_string(),
        users: users.iter().map(|u| u.to_string()).collect(),
        users_info: None,
        count: users.len() as u16,
    }
}

fn user(id: &str) -> User {
    User {
        id: id.to_string(),
        team_id: Some("T1".to_string()),
        team_info: None,
        name: Some(format!("name-{}", id)),
        real_name: None,
    }
}

fn user_map(ids: &[&str]) -> Users {
    Users(ids.iter().map(|id| (id.to_string(), user(id))).collect())
}

#[test]
fn from_response_splits_message_and_thread() {
    let response = MessageResponse {
        messages: Some(vec![
            message(Some("U1"), "1.000000", None),
            message(Some("U2"), "2.000000", None),
            message(Some("U3"), "3.000000", None),
        ]),
        ok: Some(true),
        error: None,
    };
    let ts = "2.000000".to_string();
    let mat = message_and_thread_from_response(&response, &ts).unwrap();
    assert_eq!(mat.thread.0.len(), 3);
    assert_eq!(mat.message.0.len(), 1);
    assert_eq!(mat.message.0[0].user.as_deref(), Some("U2"));
    assert_eq!(mat.message.0[0].ts.as_deref(), Some("2.000000"));
}

#[test]
fn from_response_fails_on_not_ok() {
    let response = MessageResponse {
        messages: None,
        ok: Some(false),
        error: Some("channel_not_found".to_string()),
    };
    let ts = "1.000000".to_string();
    let err = message_and_thread_from_response(&response, &ts).unwrap_err();
    assert!(matches!(err, Error::InvalidMessageResponse { .. }));
}

#[test]
fn from_response_fails_without_messages() {
    let response = MessageResponse { messages: None, ok: Some(true), error: None };
    let ts = "1.000000".to_string();
    let err = message_and_thread_from_response(&response, &ts).unwrap_err();
    assert_eq!(err, Error::MessagesNotFoundInMessageResponse);
}

#[test]
fn from_response_fails_when_ts_matches_nothing() {
    let response = MessageResponse {
        messages: Some(vec![message(Some("U1"), "1.000000", None)]),
        ok: Some(true),
        error: None,
    };
    let ts = "9.000000".to_string();
    let err = message_and_thread_from_response(&response, &ts).unwrap_err();
    assert_eq!(err, Error::MessageNotFoundInThread);
}

#[test]
fn copy_from_existing_keeps_only_the_seed_ts() {
    let response = MessageResponse {
        messages: Some(vec![
            message(Some("U1"), "1.000000", None),
            message(Some("U2"), "2.000000", None),
        ]),
        ok: Some(true),
        error: None,
    };
    let seed = "1.000000".to_string();
    let copy = response.copy_from_existing_given_seed_ts(&seed);
    let kept = copy.messages.unwrap();
    assert_eq!(kept.len(), 1);
    assert_eq!(kept[0].user.as_deref(), Some("U1"));
    assert_eq!(copy.ok, Some(true));
}

#[test]
fn collect_users_dedups_sender_and_reaction_users() {
    let mat = message_and_thread_from_response(
        &MessageResponse {
            messages: Some(vec![message(
                Some("U1"),
                "1.000000",
                Some(Reactions(vec![reaction("thumbsup", &["U1"])])),
            )]),
            ok: Some(true),
            error: None,
        },
        &"1.000000".to_string(),
    )
    .unwrap();
    let ids = mat.collect_users().unwrap();
    assert_eq!(ids.0, vec!["U1".to_string()]);
}

#[test]
fn collect_users_keeps_first_occurrence_order() {
    let mat = message_and_thread_from_response(
        &MessageResponse {
            messages: Some(vec![
                message(Some("U2"), "1.000000", Some(Reactions(vec![reaction("eyes", &["U3", "U2"])]))),
                message(Some("U1"), "2.000000", None),
            ]),
            ok: Some(true),
            error: None,
        },
        &"1.000000".to_string(),
    )
    .unwrap();
    let ids = mat.collect_users().unwrap();
    // Per message the reaction users come first, then the sender; the
    // permalinked message list is scanned before the thread.
    assert_eq!(
        ids.0,
        vec!["U3".to_string(), "U2".to_string(), "U1".to_string()]
    );
}

#[test]
fn collect_users_fails_on_message_without_sender() {
    let mat_messages = obsidian_slack::messages::Messages(vec![message(None, "1.000000", None)]);
    let err = mat_messages.collect_users().unwrap_err();
    assert_eq!(err, Error::UserIdWasNoneInMessage);
}

#[test]
fn finalize_reaction_resolves_every_user() {
    let users = user_map(&["U1", "U2"]);
    let r = reaction("eyes", &["U1", "U2"]);
    let out = Reaction::finalize_reaction(&r, &users).unwrap();
    let infos = out.users_info.unwrap();
    assert_eq!(infos.len(), 2);
    assert_eq!(infos[0].id, "U1");
    assert_eq!(infos[1].id, "U2");
    assert_eq!(out.users, vec!["U1".to_string(), "U2".to_string()]);
}

#[test]
fn finalize_reaction_fails_on_unknown_user() {
    let users = user_map(&["U1"]);
    let r = reaction("eyes", &["U1", "U9"]);
    let err = Reaction::finalize_reaction(&r, &users).unwrap_err();
    assert_eq!(err, Error::UserIdNotFoundInUserMap { user_id: "U9".to_string() });
}

#[test]
fn finalize_message_without_users_is_identity() {
    let m = message(Some("U1"), "1.000000", None);
    let out = Message::finalize_message(&m, None).unwrap();
    assert_eq!(out, m);
}

#[test]
fn finalize_message_populates_user_info() {
    let users = user_map(&["U1"]);
    let m = message(Some("U1"), "1.000000", None);
    let out = Message::finalize_message(&m, Some(&users)).unwrap();
    assert_eq!(out.user_info.unwrap().id, "U1");
}

#[test]
fn finalize_message_fails_on_unknown_sender() {
    let users = user_map(&["U2"]);
    let m = message(Some("U1"), "1.000000", None);
    let err = Message::finalize_message(&m, Some(&users)).unwrap_err();
    assert_eq!(err, Error::UserIdNotFoundInUserMap { user_id: "U1".to_string() });
}

#[test]
fn collect_file_links_keys_by_team_and_id() {
    let file = File {
        id: "F1".to_string(),
        name: "notes.txt".to_string(),
        user_team: "T1".to_string(),
        title: "notes".to_string(),
        mimetype: "text/plain".to_string(),
        filetype: "text".to_string(),
        size: 10,
        url_private: "https://files.slack.com/f/1".to_string(),
        url_private_download: "https://files.slack.com/f/1/download".to_string(),
        permalink: "https://x.slack.com/files/F1".to_string(),
        permalink_public: "https://x.slack.com/files/public/F1".to_string(),
    };
    let mut with_file = message(Some("U1"), "1.000000", None);
    with_file.files = Some(Files(vec![file]));
    let mat = obsidian_slack::messages::MessageAndThread {
        message: obsidian_slack::messages::Messages(vec![]),
        thread: obsidian_slack::messages::Messages(vec![with_file]),
    };
    let links = mat.collect_file_links();
    assert_eq!(
        links.0,
        vec![("T1-F1".to_string(), "https://files.slack.com/f/1".to_string())]
    );
}

//! The aggregate one retrieval produces: its builder, identifier
//! collection across all fetched parts, and the finalization pass that
//! denormalizes identifier references into the fetched entities.

use vstd::prelude::*;

use crate::channels::Channel;
use crate::messages::{
    all_senders_present, message_models, messages_populated, messages_resolvable,
    messages_resolved, spec_messages_user_ids, FilesData, MessageAndThread,
};
use crate::team::{CollectTeams, TeamIds, Teams};
use crate::users::{spec_team_ids, user_team_resolved, CollectUsers, UserIds, Users};
use crate::utils::{
    contains_view, dedup_by_view, dedup_strings, lemma_contains_view_concat, lemma_dedup_no_dups,
    lemma_dedup_same_views, unique_string_views,
};

verus! {

use crate::channels;
use crate::messages;
use crate::users;

/// Why the aggregate could not be assembled or finalized.
#[derive(Debug, PartialEq, Eq)]
pub enum Error {
    /// Collecting user ids from the message and thread lists failed.
    CouldNotGetUsersFromMessages { source: messages::Error },
    /// Collecting team ids from the fetched users failed.
    CouldNotGetTeamsFromUsers { source: users::Error },
    /// Finalizing the message and thread lists failed.
    CouldNotFinalizeMessages { source: messages::Error },
    /// Finalizing the channel failed.
    CouldNotFinalizeChannel { source: channels::Error },
    /// Finalizing the users against the team map failed.
    CouldNotFinalizeUsers { source: users::Error },
}

/// The archival file name of the aggregate.
#[derive(Debug, Clone, PartialEq, Eq)]
pub struct FileName(pub String);

/// The self-contained result of one retrieval.
#[derive(Debug, PartialEq, Eq)]
pub struct ObsidianSlackComponents {
    pub message_and_thread: MessageAndThread,
    pub file_name: FileName,
    pub users: Option<Users>,
    pub channel: Option<Channel>,
    pub teams: Option<Teams>,
    pub file_data: Option<FilesData>,
}

/// A builder could not produce the aggregate.
#[derive(Debug, Clone, PartialEq, Eq)]
pub enum ObsidianSlackComponentsBuilderError {
    /// A required field was never set; carries the field's name.
    UninitializedField { field: String },
}

/// The aggregate under construction: each state-machine step fills one
/// field.
#[derive(Debug, PartialEq, Eq)]
pub struct ObsidianSlackComponentsBuilder {
    pub message_and_thread: Option<MessageAndThread>,
    pub file_name: Option<FileName>,
    pub users: Option<Users>,
    pub channel: Option<Channel>,
    pub teams: Option<Teams>,
    pub file_data: Option<FilesData>,
}

impl Default for ObsidianSlackComponentsBuilder {
    /// An empty builder: nothing fetched, nothing named.
    fn default() -> (r: Self)
        ensures
            r == (ObsidianSlackComponentsBuilder {
                message_and_thread: None,
                file_name: None,
                users: None,
                channel: None,
                teams: None,
                file_data: None,
            }),
    {
        ObsidianSlackComponentsBuilder {
            message_and_thread: None,
            file_name: None,
            users: None,
            channel: None,
            teams: None,
            file_data: None,
        }
    }
}

impl ObsidianSlackComponentsBuilder {
    /// Sets the fetched message and thread.
    pub fn message_and_thread(&mut self, value: MessageAndThread)
        ensures
            *final(self) == (ObsidianSlackComponentsBuilder {
                message_and_thread: Some(value),
                ..*old(self)
            }),
    {
        self.message_and_thread = Some(value);
    }

    /// Sets the derived file name.
    pub fn file_name(&mut self, value: FileName)
        ensures
            *final(self) == (ObsidianSlackComponentsBuilder { file_name: Some(value), ..*old(self) }),
    {
        self.file_name = Some(value);
    }

    /// Sets the fetched users.
    pub fn users(&mut self, value: Option<Users>)
        ensures
            *final(self) == (ObsidianSlackComponentsBuilder { users: value, ..*old(self) }),
    {
        self.users = value;
    }

    /// Sets the fetched channel.
    pub fn channel(&mut self, value: Option<Channel>)
        ensures
            *final(self) == (ObsidianSlackComponentsBuilder { channel: value, ..*old(self) }),
    {
        self.channel = value;
    }

    /// Sets the fetched teams.
    pub fn teams(&mut self, value: Option<Teams>)
        ensures
            *final(self) == (ObsidianSlackComponentsBuilder { teams: value, ..*old(self) }),
    {
        self.teams = value;
    }

    /// Sets the file contents fetched by the host.
    pub fn file_data(&mut self, value: Option<FilesData>)
        ensures
            *final(self) == (ObsidianSlackComponentsBuilder { file_data: value, ..*old(self) }),
    {
        self.file_data = value;
    }

    /// Produces the aggregate; the message-and-thread pair and the file
    /// name must have been set.
    pub fn build(self) -> (r: Result<ObsidianSlackComponents, ObsidianSlackComponentsBuilderError>)
        ensures
            r is Ok <==> self.message_and_thread is Some && self.file_name is Some,
            r matches Ok(c) ==> c == (ObsidianSlackComponents {
                message_and_thread: self.message_and_thread->0,
                file_name: self.file_name->0,
                users: self.users,
                channel: self.channel,
                teams: self.teams,
                file_data: self.file_data,
            }),
            r matches Err(e) ==> e matches ObsidianSlackComponentsBuilderError::UninitializedField {
                ..
            },
    {
        let message_and_thread = match self.message_and_thread {
            Some(m) => m,
            None => {
                return Err(
                    ObsidianSlackComponentsBuilderError::UninitializedField {
                        field: "message_and_thread".to_owned(),
                    },
                );
            },
        };
        let file_name = match self.file_name {
            Some(f) => f,
            None => {
                return Err(
                    ObsidianSlackComponentsBuilderError::UninitializedField {
                        field: "file_name".to_owned(),
                    },
                );
            },
        };
        Ok(
            ObsidianSlackComponents {
                message_and_thread,
                file_name,
                users: self.users,
                channel: self.channel,
                teams: self.teams,
                file_data: self.file_data,
            },
        )
    }
}

/// The user ids a fetched channel contributes: its direct-message
/// counterpart, if any.
pub open spec fn channel_user_ids(channel: Option<Channel>) -> Seq<String> {
    match channel {
        Some(c) => match c.user {
            Some(uid) => seq![uid],
            None => Seq::empty(),
        },
        None => Seq::empty(),
    }
}

impl CollectUsers<Error> for ObsidianSlackComponentsBuilder {
    open spec fn collect_users_enabled(&self) -> bool {
        self.message_and_thread is Some
    }

    /// The deduplicated user ids referenced anywhere in the aggregate:
    /// by the message and thread lists and by the channel, if one was
    /// fetched.
    fn collect_users(&self) -> (r: Result<UserIds, Error>)
        ensures
            r is Ok <==> all_senders_present((self.message_and_thread->0).message.0@)
                && all_senders_present((self.message_and_thread->0).thread.0@),
            r matches Ok(ids) ==> {
                &&& unique_string_views(ids.0@)
                &&& forall|v: Seq<char>|
                    contains_view(ids.0@, v) == contains_view(
                        spec_messages_user_ids((self.message_and_thread->0).message.0@)
                            + spec_messages_user_ids((self.message_and_thread->0).thread.0@)
                            + channel_user_ids(self.channel),
                        v,
                    )
            },
            r matches Err(e) ==> e matches Error::CouldNotGetUsersFromMessages { .. },
    {
        let message_and_thread = match &self.message_and_thread {
            Some(m) => m,
            None => vstd::pervasive::unreached(),
        };
        let mut ids = match message_and_thread.collect_users() {
            Ok(ids) => ids.0,
            Err(e) => {
                return Err(Error::CouldNotGetUsersFromMessages { source: e });
            },
        };
        let mut from_channel = match &self.channel {
            Some(c) => c.collect_users(),
            None => Vec::new(),
        };
        let ghost mt_ids = spec_messages_user_ids((self.message_and_thread->0).message.0@)
            + spec_messages_user_ids((self.message_and_thread->0).thread.0@);
        let ghost pre = ids@;
        ids.append(&mut from_channel);
        let deduped = dedup_strings(&ids);
        proof {
            lemma_dedup_no_dups(ids@);
            lemma_dedup_same_views(ids@);
            lemma_contains_view_concat(pre, channel_user_ids(self.channel));
            lemma_dedup_same_views(mt_ids);
            lemma_contains_view_concat(mt_ids, channel_user_ids(self.channel));
            assert forall|v: Seq<char>|
                contains_view(deduped@, v) == contains_view(
                    mt_ids + channel_user_ids(self.channel),
                    v,
                ) by {
                assert(contains_view(deduped@, v) == contains_view(ids@, v));
                assert(contains_view(ids@, v) == (contains_view(pre, v) || contains_view(
                    channel_user_ids(self.channel),
                    v,
                )));
                assert(contains_view(pre, v) == contains_view(mt_ids, v));
            }
        }
        Ok(UserIds(deduped))
    }
}

impl CollectTeams<Error> for ObsidianSlackComponentsBuilder {
    open spec fn collect_teams_enabled(&self) -> bool {
        self.users is Some
    }

    /// The deduplicated team ids of the fetched users.
    fn collect_teams(&self) -> (r: Result<TeamIds, Error>)
        ensures
            r is Ok <==> forall|i: int|
                0 <= i < (self.users->0).0@.len() ==> (#[trigger] (self.users->0).0@[
                    i
                ].1.team_id) is Some,
            r matches Ok(tids) ==> {
                &&& tids.0@ == dedup_by_view(spec_team_ids((self.users->0).0@))
                &&& unique_string_views(tids.0@)
                &&& forall|v: Seq<char>|
                    contains_view(tids.0@, v) == contains_view(
                        spec_team_ids((self.users->0).0@),
                        v,
                    )
            },
            r matches Err(e) ==> e matches Error::CouldNotGetTeamsFromUsers { source }
                && source matches users::Error::TeamIdWasNoneInUser { .. },
    {
        let users = match &self.users {
            Some(u) => u,
            None => vstd::pervasive::unreached(),
        };
        let raw = match users.collect_teams() {
            Ok(tids) => tids.0,
            Err(e) => {
                return Err(Error::CouldNotGetTeamsFromUsers { source: e });
            },
        };
        let deduped = dedup_strings(&raw);
        proof {
            lemma_dedup_no_dups(raw@);
            lemma_dedup_same_views(raw@);
        }
        Ok(TeamIds(deduped))
    }
}

/// Whether every fetched user carries a team id that the fetched team map
/// holds.
pub open spec fn users_finalizable(users: Users, teams: Teams) -> bool {
    forall|i: int|
        0 <= i < users.0@.len() ==> (#[trigger] users.0@[i].1.team_id) is Some
            && teams@.contains_key(users.0@[i].1.team_id->0@)
}

/// Whether the whole finalization pass succeeds on this aggregate: when
/// users and teams were both fetched every user's team id resolves, and
/// when users were fetched every referenced user id (sender, reaction
/// user, channel counterpart) resolves.
pub open spec fn spec_finalize_ok(c: ObsidianSlackComponents) -> bool {
    &&& match (c.users, c.teams) {
        (Some(u), Some(t)) => users_finalizable(u, t),
        _ => true,
    }
    &&& match c.users {
        Some(u) => {
            &&& messages_resolvable(c.message_and_thread.message.0@, u@)
            &&& messages_resolvable(c.message_and_thread.thread.0@, u@)
            &&& match c.channel {
                Some(ch) => ch.user matches Some(uid) ==> u@.contains_key(uid@),
                None => true,
            }
        },
        None => true,
    }
}

/// Two user collections with pointwise equal keys denote maps with the
/// same key set.
proof fn lemma_same_keys_same_dom(a: Users, b: Users)
    requires
        a.0@.len() == b.0@.len(),
        forall|i: int| 0 <= i < a.0@.len() ==> (#[trigger] a.0@[i]).0 == b.0@[i].0,
    ensures
        forall|k: Seq<char>| a@.contains_key(k) == b@.contains_key(k),
{
    assert forall|k: Seq<char>| a@.contains_key(k) == b@.contains_key(k) by {
        if a@.contains_key(k) {
            let i = choose|i: int| 0 <= i < a.0@.len() && a.0@[i].0@ == k;
            assert(b.0@[i].0@ == k);
        }
        if b@.contains_key(k) {
            let i = choose|i: int| 0 <= i < b.0@.len() && b.0@[i].0@ == k;
            assert(a.0@[i].0@ == k);
        }
    }
}

impl ObsidianSlackComponents {
    /// The finalization pass: resolves every user's team (when both maps
    /// are present), then every message's and reaction's users, then the
    /// channel's counterpart user. Enrichment is strictly additive: with
    /// no fetched users the aggregate comes back unchanged.
    pub fn finalize(components: ObsidianSlackComponents) -> (r: Result<
        ObsidianSlackComponents,
        Error,
    >)
        requires
            components.users matches Some(u) ==> u.wf(),
            components.teams matches Some(t) ==> t.wf(),
        ensures
            r is Ok <==> spec_finalize_ok(components),
            r matches Ok(out) ==> {
                &&& out.file_name == components.file_name
                &&& out.teams == components.teams
                &&& out.file_data == components.file_data
                &&& match (components.users, components.teams) {
                    (Some(u), Some(t)) => out.users matches Some(fu) && fu.0@.len() == u.0@.len()
                        && (forall|i: int|
                        0 <= i < u.0@.len() ==> (#[trigger] fu.0@[i]).0 == u.0@[i].0
                            && user_team_resolved(u.0@[i].1, t@, fu.0@[i].1)),
                    (Some(u), None) => out.users == Some(u),
                    (None, _) => out.users is None,
                }
                &&& match out.users {
                    Some(fu) => {
                        &&& fu.wf()
                        &&& messages_resolved(
                            components.message_and_thread.message.0@,
                            fu@,
                            out.message_and_thread.message.0@,
                        )
                        &&& messages_resolved(
                            components.message_and_thread.thread.0@,
                            fu@,
                            out.message_and_thread.thread.0@,
                        )
                        &&& messages_populated(out.message_and_thread.message.0@)
                        &&& messages_populated(out.message_and_thread.thread.0@)
                    },
                    None => message_models(out.message_and_thread.message.0@) == message_models(
                        components.message_and_thread.message.0@,
                    ) && message_models(out.message_and_thread.thread.0@) == message_models(
                        components.message_and_thread.thread.0@,
                    ),
                }
                &&& match components.channel {
                    None => out.channel is None,
                    Some(ch) => match out.users {
                        Some(fu) => match ch.user {
                            Some(uid) => out.channel matches Some(oc) && oc == (Channel {
                                user_info: Some(fu@[uid@]),
                                ..ch
                            }),
                            None => out.channel == Some(ch),
                        },
                        None => out.channel == Some(ch),
                    },
                }
            },
            r matches Err(e) ==> match e {
                Error::CouldNotFinalizeUsers { .. } => components.users matches Some(u)
                    && components.teams matches Some(t) && !users_finalizable(u, t),
                Error::CouldNotFinalizeMessages { .. } => components.users matches Some(u) && !(
                messages_resolvable(components.message_and_thread.message.0@, u@)
                    && messages_resolvable(components.message_and_thread.thread.0@, u@)),
                Error::CouldNotFinalizeChannel { .. } => components.users matches Some(u)
                    && components.channel matches Some(ch) && ch.user matches Some(uid)
                    && !u@.contains_key(uid@),
                _ => false,
            },
    {
        let ghost orig = components;
        let users_final: Option<Users> = match components.users {
            Some(users) => match &components.teams {
                Some(teams) => match Users::finalize_users(users, teams) {
                    Ok(fu) => Some(fu),
                    Err(e) => {
                        return Err(Error::CouldNotFinalizeUsers { source: e });
                    },
                },
                None => Some(users),
            },
            None => None,
        };
        proof {
            if orig.users is Some {
                let u = orig.users->0;
                let fu = users_final->0;
                assert(users_final is Some);
                if orig.teams is Some {
                    assert(fu.0@.len() == u.0@.len());
                    assert forall|i: int, j: int| 0 <= i < j < fu.0@.len() implies fu.0@[i].0@
                        != fu.0@[j].0@ by {
                        assert(fu.0@[i].0 == u.0@[i].0);
                        assert(fu.0@[j].0 == u.0@[j].0);
                    }
                    lemma_same_keys_same_dom(u, fu);
                } else {
                    assert(fu == u);
                }
                assert(forall|k: Seq<char>| u@.contains_key(k) == fu@.contains_key(k));
                messages::lemma_resolvable_same_dom(orig.message_and_thread.message.0@, u@, fu@);
                messages::lemma_resolvable_same_dom(orig.message_and_thread.thread.0@, u@, fu@);
            }
        }
        let message_and_thread = match MessageAndThread::finalize_message_and_thread(
            components.message_and_thread,
            users_final.as_ref(),
        ) {
            Ok(m) => m,
            Err(e) => {
                return Err(Error::CouldNotFinalizeMessages { source: e });
            },
        };
        let channel = match components.channel {
            Some(ch) => match Channel::finalize_channel(ch, users_final.as_ref()) {
                Ok(c) => Some(c),
                Err(e) => {
                    return Err(Error::CouldNotFinalizeChannel { source: e });
                },
            },
            None => None,
        };
        Ok(
            ObsidianSlackComponents {
                message_and_thread,
                file_name: components.file_name,
                users: users_final,
                channel,
                teams: components.teams,
                file_data: components.file_data,
            },
        )
    }
}

} // verus!

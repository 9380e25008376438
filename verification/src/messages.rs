//! Messages and threads: the entities, the derivation of a
//! message-and-thread pair from a replies response, user-id collection,
//! and the finalization step that populates sender and reaction users.

use vstd::prelude::*;
use vstd::string::StringExecFns;

use crate::response::{validate_response, SlackResponseValidator};
use crate::users::{CollectUsers, User, UserIds, Users};
use crate::utils::{clone_opt_string, clone_string_vec, dedup_by_view};

verus! {

use crate::response;

/// Why messages could not be derived, enriched, or scanned for ids.
#[derive(Debug, PartialEq, Eq)]
pub enum Error {
    /// A referenced user id has no entry in the fetched user map.
    UserIdNotFoundInUserMap { user_id: String },
    /// The replies response's `ok` field was `false`.
    InvalidMessageResponse { source: response::Error },
    /// A message carries no sender id.
    UserIdWasNoneInMessage,
    /// User-id collection failed in the message or thread list.
    NoUsersFoundInMessageResponseOrThreadResponse { previous_err: Box<Error> },
    /// The replies response was ok but carried no message list.
    MessagesNotFoundInMessageResponse,
    /// No message in the fetched thread has the permalinked timestamp.
    MessageNotFoundInThread,
}

/// One reaction on a message.
#[derive(Debug, PartialEq, Eq)]
pub struct Reaction {
    pub name: String,
    pub users: Vec<String>,
    pub users_info: Option<Vec<User>>,
    pub count: u16,
}

/// The mathematical content of a `Reaction`: the same fields with the
/// vectors as sequences.
pub struct ReactionV {
    pub name: String,
    pub users: Seq<String>,
    pub users_info: Option<Seq<User>>,
    pub count: u16,
}

/// The model of a reaction.
pub open spec fn reaction_model(r: Reaction) -> ReactionV {
    ReactionV {
        name: r.name,
        users: r.users@,
        users_info: match r.users_info {
            Some(v) => Some(v@),
            None => None,
        },
        count: r.count,
    }
}

/// The models of a list of reactions.
pub open spec fn reaction_models(s: Seq<Reaction>) -> Seq<ReactionV> {
    s.map_values(|r: Reaction| reaction_model(r))
}

/// A list of reactions.
#[derive(Debug, PartialEq, Eq)]
pub struct Reactions(pub Vec<Reaction>);

/// One file attached to a message.
#[derive(Debug, PartialEq, Eq)]
pub struct File {
    pub id: String,
    pub name: String,
    pub user_team: String,
    pub title: String,
    pub mimetype: String,
    pub filetype: String,
    pub size: i64,
    pub url_private: String,
    pub url_private_download: String,
    pub permalink: String,
    pub permalink_public: String,
}

impl Clone for File {
    fn clone(&self) -> (res: Self)
        ensures
            res == *self,
    {
        File {
            id: self.id.clone(),
            name: self.name.clone(),
            user_team: self.user_team.clone(),
            title: self.title.clone(),
            mimetype: self.mimetype.clone(),
            filetype: self.filetype.clone(),
            size: self.size,
            url_private: self.url_private.clone(),
            url_private_download: self.url_private_download.clone(),
            permalink: self.permalink.clone(),
            permalink_public: self.permalink_public.clone(),
        }
    }
}

/// The files attached to a message.
#[derive(Debug, PartialEq, Eq)]
pub struct Files(pub Vec<File>);

/// Download links collected from a thread, keyed by
/// `{file.user_team}-{file.id}`.
#[derive(Debug, Clone, PartialEq, Eq)]
pub struct FileLinks(pub Vec<(String, String)>);

/// File contents fetched by the host, keyed like `FileLinks`.
#[derive(Debug, Clone, PartialEq, Eq)]
pub struct FilesData(pub Vec<(String, String)>);

/// One Slack message; `user_info` and the reactions' `users_info` are
/// populated during finalization.
#[derive(Debug, PartialEq, Eq)]
pub struct Message {
    pub message_type: Option<String>,
    pub user: Option<String>,
    pub user_info: Option<User>,
    pub text: Option<String>,
    pub thread_ts: Option<String>,
    pub reply_count: Option<u16>,
    pub ts: Option<String>,
    pub reactions: Option<Reactions>,
    pub files: Option<Files>,
}

/// The mathematical content of a `Message`: the same fields with nested
/// vectors as sequences.
pub struct MessageV {
    pub message_type: Option<String>,
    pub user: Option<String>,
    pub user_info: Option<User>,
    pub text: Option<String>,
    pub thread_ts: Option<String>,
    pub reply_count: Option<u16>,
    pub ts: Option<String>,
    pub reactions: Option<Seq<ReactionV>>,
    pub files: Option<Seq<File>>,
}

/// The model of a message.
pub open spec fn message_model(m: Message) -> MessageV {
    MessageV {
        message_type: m.message_type,
        user: m.user,
        user_info: m.user_info,
        text: m.text,
        thread_ts: m.thread_ts,
        reply_count: m.reply_count,
        ts: m.ts,
        reactions: match m.reactions {
            Some(rs) => Some(reaction_models(rs.0@)),
            None => None,
        },
        files: match m.files {
            Some(fs) => Some(fs.0@),
            None => None,
        },
    }
}

/// The models of a list of messages.
pub open spec fn message_models(s: Seq<Message>) -> Seq<MessageV> {
    s.map_values(|m: Message| message_model(m))
}

/// A list of messages.
#[derive(Debug, PartialEq, Eq)]
pub struct Messages(pub Vec<Message>);

/// The permalinked message (as a one-element list) together with the
/// full thread it lives in.
#[derive(Debug, PartialEq, Eq)]
pub struct MessageAndThread {
    pub message: Messages,
    pub thread: Messages,
}

/// Clones a vector of files, preserving each element exactly.
fn clone_file_vec(v: &Vec<File>) -> (r: Vec<File>)
    ensures
        r@ == v@,
{
    let mut r: Vec<File> = Vec::new();
    let mut i: usize = 0;
    while i < v.len()
        invariant
            i <= v@.len(),
            r@ == v@.take(i as int),
        decreases v@.len() - i,
    {
        r.push(v[i].clone());
        proof {
            assert(r@ =~= v@.take(i as int + 1));
        }
        i = i + 1;
    }
    proof {
        assert(v@.take(v@.len() as int) =~= v@);
    }
    r
}

/// Clones a vector of users, preserving each element exactly.
fn clone_user_vec(v: &Vec<User>) -> (r: Vec<User>)
    ensures
        r@ == v@,
{
    let mut r: Vec<User> = Vec::new();
    let mut i: usize = 0;
    while i < v.len()
        invariant
            i <= v@.len(),
            r@ == v@.take(i as int),
        decreases v@.len() - i,
    {
        r.push(v[i].clone());
        proof {
            assert(r@ =~= v@.take(i as int + 1));
        }
        i = i + 1;
    }
    proof {
        assert(v@.take(v@.len() as int) =~= v@);
    }
    r
}

impl Clone for Reaction {
    fn clone(&self) -> (res: Self)
        ensures
            reaction_model(res) == reaction_model(*self),
    {
        Reaction {
            name: self.name.clone(),
            users: clone_string_vec(&self.users),
            users_info: match &self.users_info {
                Some(v) => Some(clone_user_vec(v)),
                None => None,
            },
            count: self.count,
        }
    }
}

/// Clones a vector of reactions, preserving the models.
fn clone_reaction_vec(v: &Vec<Reaction>) -> (r: Vec<Reaction>)
    ensures
        reaction_models(r@) == reaction_models(v@),
{
    let mut r: Vec<Reaction> = Vec::new();
    let mut i: usize = 0;
    while i < v.len()
        invariant
            i <= v@.len(),
            reaction_models(r@) == reaction_models(v@.take(i as int)),
        decreases v@.len() - i,
    {
        let ghost prev = r@;
        r.push(v[i].clone());
        proof {
            let post = v@.take(i as int + 1);
            assert(reaction_models(prev).len() == prev.len());
            assert(prev.len() == i as int);
            assert(post.len() == i as int + 1);
            assert(r@ == prev.push(r@[i as int]));
            assert forall|k: int| 0 <= k < r@.len() implies reaction_models(r@)[k]
                == reaction_models(post)[k] by {
                assert(reaction_models(r@)[k] == reaction_model(r@[k]));
                assert(reaction_models(post)[k] == reaction_model(post[k]));
                if k < i as int {
                    assert(r@[k] == prev[k]);
                    assert(reaction_models(prev)[k] == reaction_models(v@.take(i as int))[k]);
                    assert(post[k] == v@[k]);
                    assert(v@.take(i as int)[k] == v@[k]);
                }
            }
            assert(reaction_models(r@) =~= reaction_models(post));
        }
        i = i + 1;
    }
    proof {
        assert(reaction_models(v@.take(v@.len() as int)) =~= reaction_models(v@));
    }
    r
}

impl Clone for Message {
    fn clone(&self) -> (res: Self)
        ensures
            message_model(res) == message_model(*self),
    {
        Message {
            message_type: clone_opt_string(&self.message_type),
            user: clone_opt_string(&self.user),
            user_info: match &self.user_info {
                Some(u) => Some(u.clone()),
                None => None,
            },
            text: clone_opt_string(&self.text),
            thread_ts: clone_opt_string(&self.thread_ts),
            reply_count: self.reply_count,
            ts: clone_opt_string(&self.ts),
            reactions: match &self.reactions {
                Some(rs) => Some(Reactions(clone_reaction_vec(&rs.0))),
                None => None,
            },
            files: match &self.files {
                Some(fs) => Some(Files(clone_file_vec(&fs.0))),
                None => None,
            },
        }
    }
}

/// Appending one message to a list appends its model to the models.
proof fn lemma_message_models_push(s: Seq<Message>, m: Message)
    ensures
        message_models(s.push(m)) == message_models(s).push(message_model(m)),
{
    assert forall|k: int| 0 <= k < s.push(m).len() implies message_models(s.push(m))[k]
        == message_models(s).push(message_model(m))[k] by {
        assert(message_models(s.push(m))[k] == message_model(s.push(m)[k]));
        if k < s.len() {
            assert(s.push(m)[k] == s[k]);
            assert(message_models(s)[k] == message_model(s[k]));
        } else {
            assert(s.push(m)[k] == m);
        }
    }
    assert(message_models(s.push(m)) =~= message_models(s).push(message_model(m)));
}

/// Clones a vector of messages, preserving the models.
fn clone_message_vec(v: &Vec<Message>) -> (r: Vec<Message>)
    ensures
        message_models(r@) == message_models(v@),
{
    let mut r: Vec<Message> = Vec::new();
    let mut i: usize = 0;
    while i < v.len()
        invariant
            i <= v@.len(),
            message_models(r@) == message_models(v@.take(i as int)),
        decreases v@.len() - i,
    {
        let ghost prev = r@;
        r.push(v[i].clone());
        proof {
            let post = v@.take(i as int + 1);
            assert(message_models(prev).len() == prev.len());
            assert(prev.len() == i as int);
            assert(post.len() == i as int + 1);
            assert(r@ == prev.push(r@[i as int]));
            assert forall|k: int| 0 <= k < r@.len() implies message_models(r@)[k]
                == message_models(post)[k] by {
                assert(message_models(r@)[k] == message_model(r@[k]));
                assert(message_models(post)[k] == message_model(post[k]));
                if k < i as int {
                    assert(r@[k] == prev[k]);
                    assert(message_models(prev)[k] == message_models(v@.take(i as int))[k]);
                    assert(post[k] == v@[k]);
                    assert(v@.take(i as int)[k] == v@[k]);
                }
            }
            assert(message_models(r@) =~= message_models(post));
        }
        i = i + 1;
    }
    proof {
        assert(message_models(v@.take(v@.len() as int)) =~= message_models(v@));
    }
    r
}

/// Whether every message in the list carries a sender id.
pub open spec fn all_senders_present(ms: Seq<Message>) -> bool {
    forall|i: int| 0 <= i < ms.len() ==> (#[trigger] ms[i].user) is Some
}

/// The user ids referenced by a list of reactions, in order.
pub open spec fn spec_reactions_user_ids(rs: Seq<Reaction>) -> Seq<String>
    decreases rs.len(),
{
    if rs.len() == 0 {
        Seq::empty()
    } else {
        spec_reactions_user_ids(rs.drop_last()) + rs.last().users@
    }
}

/// The user ids one message references: its reaction users in order,
/// then its sender.
pub open spec fn spec_message_user_ids(m: Message) -> Seq<String> {
    (match m.reactions {
        Some(rs) => spec_reactions_user_ids(rs.0@),
        None => Seq::empty(),
    }).push(m.user->0)
}

/// The user ids a list of messages references, in order.
pub open spec fn spec_messages_user_ids(ms: Seq<Message>) -> Seq<String>
    decreases ms.len(),
{
    if ms.len() == 0 {
        Seq::empty()
    } else {
        spec_messages_user_ids(ms.drop_last()) + spec_message_user_ids(ms.last())
    }
}

impl CollectUsers<Error> for Messages {
    open spec fn collect_users_enabled(&self) -> bool {
        true
    }

    /// Every user id these messages reference, in order of appearance;
    /// fails on a message without a sender id.
    fn collect_users(&self) -> (r: Result<UserIds, Error>)
        ensures
            r is Ok <==> all_senders_present(self.0@),
            r matches Ok(ids) ==> ids.0@ == spec_messages_user_ids(self.0@),
            r matches Err(e) ==> e == Error::UserIdWasNoneInMessage,
    {
        let mut ids: Vec<String> = Vec::new();
        let mut i: usize = 0;
        while i < self.0.len()
            invariant
                i <= self.0@.len(),
                ids@ == spec_messages_user_ids(self.0@.take(i as int)),
                forall|k: int| 0 <= k < i ==> (#[trigger] self.0@[k].user) is Some,
            decreases self.0@.len() - i,
        {
            let message = &self.0[i];
            let ghost base = ids@;
            if let Some(rs) = &message.reactions {
                let mut j: usize = 0;
                while j < rs.0.len()
                    invariant
                        j <= rs.0@.len(),
                        ids@ == base + spec_reactions_user_ids(rs.0@.take(j as int)),
                    decreases rs.0@.len() - j,
                {
                    let users = &rs.0[j].users;
                    let mut l: usize = 0;
                    while l < users.len()
                        invariant
                            l <= users@.len(),
                            users@ == rs.0@[j as int].users@,
                            j < rs.0@.len(),
                            ids@ == base + spec_reactions_user_ids(rs.0@.take(j as int))
                                + users@.take(l as int),
                        decreases users@.len() - l,
                    {
                        ids.push(users[l].clone());
                        proof {
                            assert(users@.take(l as int).push(users@[l as int]) =~= users@.take(
                                l as int + 1,
                            ));
                            assert(ids@ =~= base + spec_reactions_user_ids(rs.0@.take(j as int))
                                + users@.take(l as int + 1));
                        }
                        l = l + 1;
                    }
                    proof {
                        assert(users@.take(users@.len() as int) =~= users@);
                        assert(rs.0@.take(j as int + 1).drop_last() =~= rs.0@.take(j as int));
                        assert(rs.0@.take(j as int + 1).last() == rs.0@[j as int]);
                        assert(ids@ =~= base + spec_reactions_user_ids(rs.0@.take(j as int + 1)));
                    }
                    j = j + 1;
                }
                proof {
                    assert(rs.0@.take(rs.0@.len() as int) =~= rs.0@);
                }
            }
            match &message.user {
                None => {
                    return Err(Error::UserIdWasNoneInMessage);
                },
                Some(uid) => {
                    ids.push(uid.clone());
                },
            }
            proof {
                assert(self.0@.take(i as int + 1).drop_last() =~= self.0@.take(i as int));
                assert(self.0@.take(i as int + 1).last() == self.0@[i as int]);
                assert(ids@ =~= spec_messages_user_ids(self.0@.take(i as int))
                    + spec_message_user_ids(self.0@[i as int]));
            }
            i = i + 1;
        }
        proof {
            assert(self.0@.take(self.0@.len() as int) =~= self.0@);
        }
        Ok(UserIds(ids))
    }
}

impl CollectUsers<Error> for MessageAndThread {
    open spec fn collect_users_enabled(&self) -> bool {
        true
    }

    /// The deduplicated user ids that the permalinked message list and
    /// the thread reference, first occurrences first.
    fn collect_users(&self) -> (r: Result<UserIds, Error>)
        ensures
            r is Ok <==> all_senders_present(self.message.0@) && all_senders_present(
                self.thread.0@,
            ),
            r matches Ok(ids) ==> {
                &&& ids.0@ == dedup_by_view(
                    spec_messages_user_ids(self.message.0@) + spec_messages_user_ids(
                        self.thread.0@,
                    ),
                )
                &&& crate::utils::unique_string_views(ids.0@)
                &&& forall|v: Seq<char>|
                    crate::utils::contains_view(ids.0@, v) == crate::utils::contains_view(
                        spec_messages_user_ids(self.message.0@) + spec_messages_user_ids(
                            self.thread.0@,
                        ),
                        v,
                    )
            },
            r matches Err(e) ==> e matches Error::NoUsersFoundInMessageResponseOrThreadResponse {
                previous_err,
            } && *previous_err == Error::UserIdWasNoneInMessage,
    {
        let message_ids = match self.message.collect_users() {
            Ok(ids) => ids,
            Err(e) => {
                return Err(
                    Error::NoUsersFoundInMessageResponseOrThreadResponse {
                        previous_err: Box::new(e),
                    },
                );
            },
        };
        let thread_ids = match self.thread.collect_users() {
            Ok(ids) => ids,
            Err(e) => {
                return Err(
                    Error::NoUsersFoundInMessageResponseOrThreadResponse {
                        previous_err: Box::new(e),
                    },
                );
            },
        };
        let mut all = message_ids.0;
        let mut rest = thread_ids.0;
        all.append(&mut rest);
        let deduped = crate::utils::dedup_strings(&all);
        proof {
            crate::utils::lemma_dedup_no_dups(all@);
            crate::utils::lemma_dedup_same_views(all@);
        }
        Ok(UserIds(deduped))
    }
}

/// The envelope of a "replies in thread" response.
#[derive(Debug, PartialEq, Eq)]
pub struct MessageResponse {
    pub messages: Option<Vec<Message>>,
    pub ok: Option<bool>,
    pub error: Option<String>,
}

impl SlackResponseValidator for MessageResponse {
    open spec fn ok_spec(&self) -> Option<bool> {
        self.ok
    }

    fn ok(&self) -> (r: Option<bool>) {
        self.ok
    }
}

/// Whether a message's own timestamp is `t`.
pub open spec fn has_ts(m: MessageV, t: Seq<char>) -> bool {
    m.ts matches Some(s) && s@ == t
}

/// The models of the messages whose own timestamp is `t`, in order.
pub open spec fn matching_models(ms: Seq<Message>, t: Seq<char>) -> Seq<MessageV>
    decreases ms.len(),
{
    if ms.len() == 0 {
        Seq::empty()
    } else {
        let prefix = matching_models(ms.drop_last(), t);
        if has_ts(message_model(ms.last()), t) {
            prefix.push(message_model(ms.last()))
        } else {
            prefix
        }
    }
}

/// The permalinked message list is a sublist of the thread: every element
/// carries the requested timestamp and is the model of some thread
/// message.
pub proof fn lemma_matching_models_subset(ms: Seq<Message>, t: Seq<char>)
    ensures
        forall|k: int|
            0 <= k < matching_models(ms, t).len() ==> has_ts(#[trigger] matching_models(ms, t)[k], t),
        forall|k: int|
            0 <= k < matching_models(ms, t).len() ==> exists|i: int|
                0 <= i < ms.len() && message_model(ms[i]) == #[trigger] matching_models(ms, t)[k],
    decreases ms.len(),
{
    if ms.len() > 0 {
        lemma_matching_models_subset(ms.drop_last(), t);
        let prefix = matching_models(ms.drop_last(), t);
        let whole = matching_models(ms, t);
        assert forall|k: int| 0 <= k < whole.len() implies has_ts(#[trigger] whole[k], t)
            && exists|i: int| 0 <= i < ms.len() && message_model(ms[i]) == whole[k] by {
            if k < prefix.len() {
                assert(whole[k] == prefix[k]);
                let i = choose|i: int|
                    0 <= i < ms.drop_last().len() && message_model(ms.drop_last()[i]) == prefix[k];
                assert(message_model(ms[i]) == whole[k]);
            } else {
                assert(whole[k] == message_model(ms.last()));
                assert(message_model(ms[ms.len() - 1]) == whole[k]);
            }
        }
    }
}

/// Copies the messages whose own timestamp is `seed_ts`.
fn matching_messages(v: &Vec<Message>, seed_ts: &String) -> (r: Vec<Message>)
    ensures
        message_models(r@) == matching_models(v@, seed_ts@),
{
    let mut r: Vec<Message> = Vec::new();
    let mut i: usize = 0;
    while i < v.len()
        invariant
            i <= v@.len(),
            message_models(r@) == matching_models(v@.take(i as int), seed_ts@),
        decreases v@.len() - i,
    {
        proof {
            assert(v@.take(i as int + 1).drop_last() =~= v@.take(i as int));
            assert(v@.take(i as int + 1).last() == v@[i as int]);
        }
        let matched = match &v[i].ts {
            Some(t) => t.eq(seed_ts),
            None => false,
        };
        if matched {
            let ghost prev = r@;
            r.push(v[i].clone());
            proof {
                assert(r@ == prev.push(r@[prev.len() as int]));
                lemma_message_models_push(prev, r@[prev.len() as int]);
            }
        }
        i = i + 1;
    }
    proof {
        assert(v@.take(v@.len() as int) =~= v@);
    }
    r
}

impl MessageResponse {
    /// A copy of the response whose message list keeps only the messages
    /// with timestamp `seed_ts`.
    pub fn copy_from_existing_given_seed_ts(&self, seed_ts: &String) -> (r: MessageResponse)
        requires
            self.messages is Some,
        ensures
            r.ok == self.ok,
            r.error == self.error,
            r.messages matches Some(v) && message_models(v@) == matching_models(
                self.messages->0@,
                seed_ts@,
            ),
    {
        let messages = match &self.messages {
            Some(v) => v,
            None => vstd::pervasive::unreached(),
        };
        MessageResponse {
            messages: Some(matching_messages(messages, seed_ts)),
            ok: self.ok,
            error: clone_opt_string(&self.error),
        }
    }
}

/// Derives the thread (all messages, in response order) and the
/// permalinked message (the non-empty sublist with timestamp `ts`) from a
/// validated replies response.
pub fn message_and_thread_from_response(response: &MessageResponse, ts: &String) -> (r: Result<
    MessageAndThread,
    Error,
>)
    requires
        response.ok is Some,
    ensures
        response.ok == Some(false) ==> r == Err::<MessageAndThread, Error>(
            Error::InvalidMessageResponse { source: response::Error::SlackResponseNotOk },
        ),
        response.ok == Some(true) && response.messages is None ==> r == Err::<
            MessageAndThread,
            Error,
        >(Error::MessagesNotFoundInMessageResponse),
        response.ok == Some(true) ==> (response.messages matches Some(msgs) ==> {
            if matching_models(msgs@, ts@).len() == 0 {
                r == Err::<MessageAndThread, Error>(Error::MessageNotFoundInThread)
            } else {
                r matches Ok(mat) && message_models(mat.thread.0@) == message_models(msgs@)
                    && message_models(mat.message.0@) == matching_models(msgs@, ts@)
                    && mat.message.0@.len() > 0
            }
        }),
{
    match validate_response(response) {
        Err(source) => {
            return Err(Error::InvalidMessageResponse { source });
        },
        Ok(()) => {},
    }
    let messages = match &response.messages {
        None => {
            return Err(Error::MessagesNotFoundInMessageResponse);
        },
        Some(v) => v,
    };
    let copy = response.copy_from_existing_given_seed_ts(ts);
    let matched = match copy.messages {
        Some(v) => v,
        None => vstd::pervasive::unreached(),
    };
    if matched.len() == 0 {
        proof {
            assert(message_models(matched@).len() == matched@.len());
        }
        return Err(Error::MessageNotFoundInThread);
    }
    proof {
        assert(message_models(matched@).len() == matched@.len());
    }
    Ok(
        MessageAndThread {
            message: Messages(matched),
            thread: Messages(clone_message_vec(messages)),
        },
    )
}

/// Whether every id in `ids` has an entry in the user map.
pub open spec fn ids_resolvable(ids: Seq<String>, users: Map<Seq<char>, User>) -> bool {
    forall|k: int| 0 <= k < ids.len() ==> users.contains_key((#[trigger] ids[k])@)
}

/// A reaction after finalization: the same reaction with `users_info`
/// populated positionally from the user map.
pub open spec fn reaction_resolved(
    old: ReactionV,
    users: Map<Seq<char>, User>,
    new: ReactionV,
) -> bool {
    &&& ids_resolvable(old.users, users)
    &&& new.name == old.name
    &&& new.users == old.users
    &&& new.count == old.count
    &&& new.users_info is Some
    &&& new.users_info->0.len() == old.users.len()
    &&& forall|k: int|
        0 <= k < old.users.len() ==> #[trigger] new.users_info->0[k] == users[old.users[k]@]
}

/// Whether a message's sender and all its reaction users can be resolved
/// in the user map.
pub open spec fn message_resolvable(m: MessageV, users: Map<Seq<char>, User>) -> bool {
    &&& m.user is Some
    &&& users.contains_key(m.user->0@)
    &&& match m.reactions {
        Some(rs) => forall|j: int| 0 <= j < rs.len() ==> ids_resolvable(#[trigger] rs[j].users, users),
        None => true,
    }
}

/// A message after finalization: the same message with `user_info`
/// populated from the user map and every reaction resolved.
pub open spec fn message_resolved(
    old: MessageV,
    users: Map<Seq<char>, User>,
    new: MessageV,
) -> bool {
    &&& message_resolvable(old, users)
    &&& new.message_type == old.message_type
    &&& new.user == old.user
    &&& new.user_info == Some(users[old.user->0@])
    &&& new.text == old.text
    &&& new.thread_ts == old.thread_ts
    &&& new.reply_count == old.reply_count
    &&& new.ts == old.ts
    &&& new.files == old.files
    &&& match (old.reactions, new.reactions) {
        (None, None) => true,
        (Some(o), Some(n)) => n.len() == o.len() && forall|j: int|
            0 <= j < o.len() ==> reaction_resolved(#[trigger] o[j], users, n[j]),
        _ => false,
    }
}

/// Whether a message references user `id` as sender or reaction user.
pub open spec fn message_refs_user(m: MessageV, id: String) -> bool {
    ||| m.user == Some(id)
    ||| match m.reactions {
        Some(rs) => exists|j: int, l: int|
            0 <= j < rs.len() && 0 <= l < rs[j].users.len() && #[trigger] rs[j].users[l] == id,
        None => false,
    }
}

/// Whether every message in the list can be resolved in the user map.
pub open spec fn messages_resolvable(ms: Seq<Message>, users: Map<Seq<char>, User>) -> bool {
    forall|i: int| 0 <= i < ms.len() ==> message_resolvable(message_model(#[trigger] ms[i]), users)
}

/// A message list after finalization, element by element.
pub open spec fn messages_resolved(
    old: Seq<Message>,
    users: Map<Seq<char>, User>,
    new: Seq<Message>,
) -> bool {
    &&& new.len() == old.len()
    &&& forall|i: int|
        0 <= i < old.len() ==> message_resolved(
            message_model(#[trigger] old[i]),
            users,
            message_model(new[i]),
        )
}

/// What a finalization error says about the message list it came from.
pub open spec fn finalize_error_matches(
    ms: Seq<Message>,
    users: Map<Seq<char>, User>,
    e: Error,
) -> bool {
    match e {
        Error::UserIdWasNoneInMessage => exists|i: int|
            0 <= i < ms.len() && (#[trigger] ms[i].user) is None,
        Error::UserIdNotFoundInUserMap { user_id } => !users.contains_key(user_id@) && exists|
            i: int,
        |
            0 <= i < ms.len() && message_refs_user(message_model(#[trigger] ms[i]), user_id),
        _ => false,
    }
}

impl Reaction {
    /// Populates `users_info` by looking every reacting user id up in the
    /// fetched user map.
    pub fn finalize_reaction(reaction: &Reaction, users: &Users) -> (r: Result<Reaction, Error>)
        requires
            users.wf(),
        ensures
            r is Ok <==> ids_resolvable(reaction.users@, users@),
            r matches Ok(out) ==> reaction_resolved(
                reaction_model(*reaction),
                users@,
                reaction_model(out),
            ),
            r matches Err(e) ==> e matches Error::UserIdNotFoundInUserMap { user_id }
                && !users@.contains_key(user_id@) && exists|l: int|
                0 <= l < reaction.users@.len() && #[trigger] reaction.users@[l] == user_id,
    {
        let mut infos: Vec<User> = Vec::new();
        let mut k: usize = 0;
        while k < reaction.users.len()
            invariant
                users.wf(),
                k <= reaction.users@.len(),
                infos@.len() == k,
                forall|l: int|
                    0 <= l < k ==> users@.contains_key((#[trigger] reaction.users@[l])@)
                        && infos@[l] == users@[reaction.users@[l]@],
            decreases reaction.users@.len() - k,
        {
            match users.get(&reaction.users[k]) {
                None => {
                    return Err(
                        Error::UserIdNotFoundInUserMap { user_id: reaction.users[k].clone() },
                    );
                },
                Some(u) => {
                    infos.push(u.clone());
                },
            }
            k = k + 1;
        }
        Ok(
            Reaction {
                name: reaction.name.clone(),
                users: clone_string_vec(&reaction.users),
                users_info: Some(infos),
                count: reaction.count,
            },
        )
    }
}

impl Message {
    /// With a fetched user map, populates the sender's `user_info` and
    /// every reaction's `users_info`; without one, returns the message
    /// unchanged.
    #[verifier::loop_isolation(false)]
    pub fn finalize_message(message: &Message, users: Option<&Users>) -> (r: Result<Message, Error>)
        requires
            users matches Some(u) ==> u.wf(),
        ensures
            users is None ==> (r matches Ok(out) && message_model(out) == message_model(
                *message,
            )),
            users matches Some(u) ==> (r is Ok <==> message_resolvable(
                message_model(*message),
                u@,
            )),
            users matches Some(u) ==> (r matches Ok(out) ==> message_resolved(
                message_model(*message),
                u@,
                message_model(out),
            )),
            users matches Some(u) ==> (r matches Err(e) ==> finalize_error_matches(
                seq![*message],
                u@,
                e,
            )),
    {
        let user_map = match users {
            None => {
                return Ok(message.clone());
            },
            Some(u) => u,
        };
        let user_id = match &message.user {
            None => {
                proof {
                    assert(seq![*message][0].user is None);
                }
                return Err(Error::UserIdWasNoneInMessage);
            },
            Some(uid) => uid,
        };
        let user_info = match user_map.get(user_id) {
            None => {
                let uid_clone = user_id.clone();
                proof {
                    assert(seq![*message][0] == *message);
                    assert(message_refs_user(message_model(*message), uid_clone));
                }
                return Err(Error::UserIdNotFoundInUserMap { user_id: uid_clone });
            },
            Some(u) => u.clone(),
        };
        let new_reactions = match &message.reactions {
            None => None,
            Some(rs) => {
                let mut out: Vec<Reaction> = Vec::new();
                let mut j: usize = 0;
                while j < rs.0.len()
                    invariant
                        user_map.wf(),
                        j <= rs.0@.len(),
                        out@.len() == j,
                        forall|k: int|
                            0 <= k < j ==> reaction_resolved(
                                reaction_model(#[trigger] rs.0@[k]),
                                user_map@,
                                reaction_model(out@[k]),
                            ),
                    decreases rs.0@.len() - j,
                {
                    match Reaction::finalize_reaction(&rs.0[j], user_map) {
                        Err(e) => {
                            proof {
                                let user_id = choose|uid: String|
                                    e == (Error::UserIdNotFoundInUserMap { user_id: uid });
                                let l = choose|l: int|
                                    0 <= l < rs.0@[j as int].users@.len() && rs.0@[
                                        j as int
                                    ].users@[l] == user_id;
                                assert(reaction_models(rs.0@)[j as int] == reaction_model(
                                    rs.0@[j as int],
                                ));
                                assert(message_model(*message).reactions
                                    matches Some(mrs) && mrs[j as int].users[l] == user_id);
                                assert(message_refs_user(message_model(*message), user_id));
                                assert(seq![*message][0] == *message);
                            }
                            return Err(e);
                        },
                        Ok(fr) => {
                            out.push(fr);
                        },
                    }
                    j = j + 1;
                }
                Some(Reactions(out))
            },
        };
        let out = Message {
            message_type: clone_opt_string(&message.message_type),
            user: clone_opt_string(&message.user),
            user_info: Some(user_info),
            text: clone_opt_string(&message.text),
            thread_ts: clone_opt_string(&message.thread_ts),
            reply_count: message.reply_count,
            ts: clone_opt_string(&message.ts),
            reactions: new_reactions,
            files: match &message.files {
                Some(fs) => Some(Files(clone_file_vec(&fs.0))),
                None => None,
            },
        };
        proof {
            if message.reactions is Some {
                let o = message_model(*message).reactions->0;
                let n = message_model(out).reactions->0;
                assert(n.len() == o.len());
                assert forall|j: int| 0 <= j < o.len() implies reaction_resolved(
                    #[trigger] o[j],
                    user_map@,
                    n[j],
                ) by {
                    assert(o[j] == reaction_model((message.reactions->0).0@[j]));
                    assert(n[j] == reaction_model((out.reactions->0).0@[j]));
                }
            }
        }
        Ok(out)
    }
}

impl Messages {
    /// Finalizes every message in the list.
    pub fn finalize_messages(messages: &Messages, users: Option<&Users>) -> (r: Result<
        Messages,
        Error,
    >)
        requires
            users matches Some(u) ==> u.wf(),
        ensures
            match users {
                None => r matches Ok(out) && message_models(out.0@) == message_models(
                    messages.0@,
                ),
                Some(u) => {
                    &&& r is Ok <==> messages_resolvable(messages.0@, u@)
                    &&& r matches Ok(out) ==> messages_resolved(messages.0@, u@, out.0@)
                    &&& r matches Err(e) ==> finalize_error_matches(messages.0@, u@, e)
                },
            },
    {
        let mut out: Vec<Message> = Vec::new();
        let mut i: usize = 0;
        while i < messages.0.len()
            invariant
                users matches Some(u) ==> u.wf(),
                i <= messages.0@.len(),
                out@.len() == i,
                match users {
                    None => message_models(out@) == message_models(messages.0@.take(i as int)),
                    Some(u) => forall|k: int|
                        0 <= k < i ==> message_resolved(
                            message_model(#[trigger] messages.0@[k]),
                            u@,
                            message_model(out@[k]),
                        ),
                },
            decreases messages.0@.len() - i,
        {
            match Message::finalize_message(&messages.0[i], users) {
                Err(e) => {
                    proof {
                        if users is Some {
                            let u = users->0;
                            assert(finalize_error_matches(seq![messages.0@[i as int]], u@, e));
                        }
                    }
                    return Err(e);
                },
                Ok(m) => {
                    let ghost prev = out@;
                    out.push(m);
                    proof {
                        if users is None {
                            assert(out@ == prev.push(out@[prev.len() as int]));
                            lemma_message_models_push(prev, out@[prev.len() as int]);
                            assert(messages.0@.take(i as int + 1).drop_last() =~= messages.0@.take(
                                i as int,
                            ));
                            assert(message_models(messages.0@.take(i as int + 1)) =~= message_models(
                                messages.0@.take(i as int),
                            ).push(message_model(messages.0@[i as int])));
                        }
                    }
                },
            }
            i = i + 1;
        }
        proof {
            assert(messages.0@.take(messages.0@.len() as int) =~= messages.0@);
        }
        Ok(Messages(out))
    }
}

/// Resolvability depends only on which ids the user map holds, not on
/// the entities behind them.
pub proof fn lemma_resolvable_same_dom(
    ms: Seq<Message>,
    m1: Map<Seq<char>, User>,
    m2: Map<Seq<char>, User>,
)
    requires
        forall|k: Seq<char>| m1.contains_key(k) == m2.contains_key(k),
    ensures
        messages_resolvable(ms, m1) == messages_resolvable(ms, m2),
{
    assert forall|i: int| 0 <= i < ms.len() implies message_resolvable(
        message_model(#[trigger] ms[i]),
        m1,
    ) == message_resolvable(message_model(ms[i]), m2) by {
        let m = message_model(ms[i]);
        if m.reactions is Some {
            let rs = m.reactions->0;
            assert forall|j: int| 0 <= j < rs.len() implies ids_resolvable(
                #[trigger] rs[j].users,
                m1,
            ) == ids_resolvable(rs[j].users, m2) by {
                let ids = rs[j].users;
                if ids_resolvable(ids, m1) {
                    assert forall|k: int| 0 <= k < ids.len() implies m2.contains_key(
                        (#[trigger] ids[k])@,
                    ) by {
                        assert(m1.contains_key(ids[k]@));
                    }
                }
                if ids_resolvable(ids, m2) {
                    assert forall|k: int| 0 <= k < ids.len() implies m1.contains_key(
                        (#[trigger] ids[k])@,
                    ) by {
                        assert(m2.contains_key(ids[k]@));
                    }
                }
            }
        }
    }
}

/// Whether a finalized message is fully populated: the sender's
/// `user_info` is present and so is every reaction's `users_info`.
pub open spec fn message_populated(m: MessageV) -> bool {
    &&& m.user_info is Some
    &&& match m.reactions {
        Some(rs) => forall|j: int| 0 <= j < rs.len() ==> (#[trigger] rs[j].users_info) is Some,
        None => true,
    }
}

/// Whether every message in the list is fully populated.
pub open spec fn messages_populated(ms: Seq<Message>) -> bool {
    forall|i: int| 0 <= i < ms.len() ==> message_populated(message_model(#[trigger] ms[i]))
}

impl MessageAndThread {
    /// Finalizes the permalinked message list and the thread. With a user
    /// map every entry comes back fully populated; without one both lists
    /// come back unchanged.
    pub fn finalize_message_and_thread(
        message_and_thread: MessageAndThread,
        users: Option<&Users>,
    ) -> (r: Result<MessageAndThread, Error>)
        requires
            users matches Some(u) ==> u.wf(),
        ensures
            match users {
                None => r matches Ok(out) && message_models(out.message.0@) == message_models(
                    message_and_thread.message.0@,
                ) && message_models(out.thread.0@) == message_models(message_and_thread.thread.0@),
                Some(u) => {
                    &&& r is Ok <==> messages_resolvable(message_and_thread.message.0@, u@)
                        && messages_resolvable(message_and_thread.thread.0@, u@)
                    &&& r matches Ok(out) ==> messages_resolved(
                        message_and_thread.message.0@,
                        u@,
                        out.message.0@,
                    ) && messages_resolved(message_and_thread.thread.0@, u@, out.thread.0@)
                        && messages_populated(out.message.0@) && messages_populated(out.thread.0@)
                    &&& r matches Err(e) ==> finalize_error_matches(
                        message_and_thread.message.0@,
                        u@,
                        e,
                    ) || finalize_error_matches(message_and_thread.thread.0@, u@, e)
                },
            },
    {
        let message = match Messages::finalize_messages(&message_and_thread.message, users) {
            Err(e) => {
                return Err(e);
            },
            Ok(m) => m,
        };
        let thread = match Messages::finalize_messages(&message_and_thread.thread, users) {
            Err(e) => {
                return Err(e);
            },
            Ok(m) => m,
        };
        proof {
            if users is Some {
                let u = users->0;
                lemma_resolved_implies_populated(message_and_thread.message.0@, u@, message.0@);
                lemma_resolved_implies_populated(message_and_thread.thread.0@, u@, thread.0@);
            }
        }
        Ok(MessageAndThread { message, thread })
    }
}

/// A finalized message list is fully populated.
proof fn lemma_resolved_implies_populated(
    old_ms: Seq<Message>,
    users: Map<Seq<char>, User>,
    new_ms: Seq<Message>,
)
    requires
        messages_resolved(old_ms, users, new_ms),
    ensures
        messages_populated(new_ms),
{
    assert forall|i: int| 0 <= i < new_ms.len() implies message_populated(
        message_model(#[trigger] new_ms[i]),
    ) by {
        let old_m = message_model(old_ms[i]);
        let new_m = message_model(new_ms[i]);
        assert(message_resolved(old_m, users, new_m));
        if new_m.reactions is Some {
            assert forall|j: int| 0 <= j < new_m.reactions->0.len() implies (#[trigger] new_m.reactions->0[j].users_info) is Some by {
                assert(reaction_resolved(old_m.reactions->0[j], users, new_m.reactions->0[j]));
            }
        }
    }
}

/// The key under which a file's download link is collected:
/// `{user_team}-{id}`, and the link itself.
pub open spec fn file_link_of(f: File) -> (Seq<char>, Seq<char>) {
    (f.user_team@ + seq!['-'] + f.id@, f.url_private@)
}

/// The download links of a list of files, in order.
pub open spec fn links_of_files(fs: Seq<File>) -> Seq<(Seq<char>, Seq<char>)>
    decreases fs.len(),
{
    if fs.len() == 0 {
        Seq::empty()
    } else {
        links_of_files(fs.drop_last()).push(file_link_of(fs.last()))
    }
}

/// The download links of every file attached to a list of messages.
pub open spec fn links_of_messages(ms: Seq<Message>) -> Seq<(Seq<char>, Seq<char>)>
    decreases ms.len(),
{
    if ms.len() == 0 {
        Seq::empty()
    } else {
        links_of_messages(ms.drop_last()) + (match ms.last().files {
            Some(fs) => links_of_files(fs.0@),
            None => Seq::empty(),
        })
    }
}

impl MessageAndThread {
    /// Collects the private download link of every file attached to a
    /// thread message, keyed by `{file.user_team}-{file.id}`.
    pub fn collect_file_links(&self) -> (r: FileLinks)
        ensures
            r.0.deep_view() == links_of_messages(self.thread.0@),
    {
        let mut links: Vec<(String, String)> = Vec::new();
        let mut i: usize = 0;
        while i < self.thread.0.len()
            invariant
                i <= self.thread.0@.len(),
                links.deep_view() == links_of_messages(self.thread.0@.take(i as int)),
            decreases self.thread.0@.len() - i,
        {
            let ghost base = links.deep_view();
            if let Some(fs) = &self.thread.0[i].files {
                let mut j: usize = 0;
                while j < fs.0.len()
                    invariant
                        j <= fs.0@.len(),
                        fs.0@ == (self.thread.0@[i as int].files->0).0@,
                        links.deep_view() == base + links_of_files(fs.0@.take(j as int)),
                    decreases fs.0@.len() - j,
                {
                    let file = &fs.0[j];
                    let mut key = file.user_team.clone();
                    key.append("-");
                    key.append(file.id.as_str());
                    proof {
                        reveal_strlit("-");
                        assert("-"@ =~= seq!['-']);
                        assert(key@ == file_link_of(fs.0@[j as int]).0);
                    }
                    let ghost prev = links.deep_view();
                    links.push((key, file.url_private.clone()));
                    proof {
                        assert(links.deep_view() =~= prev.push(file_link_of(fs.0@[j as int])));
                        assert(fs.0@.take(j as int + 1).drop_last() =~= fs.0@.take(j as int));
                        assert(fs.0@.take(j as int + 1).last() == fs.0@[j as int]);
                        assert(links.deep_view() =~= base + links_of_files(fs.0@.take(j as int + 1)));
                    }
                    j = j + 1;
                }
                proof {
                    assert(fs.0@.take(fs.0@.len() as int) =~= fs.0@);
                }
            }
            proof {
                assert(self.thread.0@.take(i as int + 1).drop_last() =~= self.thread.0@.take(
                    i as int,
                ));
                assert(self.thread.0@.take(i as int + 1).last() == self.thread.0@[i as int]);
                assert(links.deep_view() =~= links_of_messages(self.thread.0@.take(i as int + 1)));
            }
            i = i + 1;
        }
        proof {
            assert(self.thread.0@.take(self.thread.0@.len() as int) =~= self.thread.0@);
        }
        FileLinks(links)
    }
}

} // verus!

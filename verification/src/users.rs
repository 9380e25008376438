//! User metadata: the entity, the id-keyed collection of fetched users,
//! identifier collection, and the finalization step that populates each
//! user's team from the fetched team map.

use vstd::prelude::*;

use crate::response::{validate_response, SlackResponseValidator};
use crate::team::{CollectTeams, Team, TeamIds, Teams};
use crate::utils::{keyed_map, lemma_keyed_map_entry, unique_keys, unique_string_views};

verus! {

use crate::response;

/// Why a batch of user responses could not be aggregated, or a user could
/// not be finalized.
#[derive(Debug, Clone, PartialEq, Eq)]
pub enum Error {
    /// A user response's `ok` field was `false`.
    InvalidUserResponse { source: response::Error },
    /// A fetched user carries no team id, so its team cannot be resolved.
    TeamIdWasNoneInUser { container: User },
    /// A user's team id has no entry in the fetched team map.
    TeamIdNotFoundInTeamMap { team_id: String },
}

/// A type whose values reference users by id and can list those ids.
pub trait CollectUsers<E> {
    /// Whether `self` is in a state in which its ids can be listed.
    spec fn collect_users_enabled(&self) -> bool;

    /// The user ids referenced by `self`, in order of appearance.
    fn collect_users(&self) -> Result<UserIds, E>
        requires
            self.collect_users_enabled(),
    ;
}

/// The user ids to fetch, in the order they were collected.
#[derive(Debug, Clone, PartialEq, Eq)]
pub struct UserIds(pub Vec<String>);

/// One Slack user; `team_info` is populated during finalization.
#[derive(Debug, PartialEq, Eq)]
pub struct User {
    pub id: String,
    pub team_id: Option<String>,
    pub team_info: Option<Team>,
    pub name: Option<String>,
    pub real_name: Option<String>,
}

impl Clone for User {
    fn clone(&self) -> (res: Self)
        ensures
            res == *self,
    {
        User {
            id: self.id.clone(),
            team_id: crate::utils::clone_opt_string(&self.team_id),
            team_info: match &self.team_info {
                Some(t) => Some(t.clone()),
                None => None,
            },
            name: crate::utils::clone_opt_string(&self.name),
            real_name: crate::utils::clone_opt_string(&self.real_name),
        }
    }
}

/// The fetched users, keyed by user id.
#[derive(Debug, Clone, PartialEq, Eq)]
pub struct Users(pub Vec<(String, User)>);

impl View for Users {
    type V = Map<Seq<char>, User>;

    open spec fn view(&self) -> Map<Seq<char>, User> {
        keyed_map(self.0@)
    }
}

/// A user after team finalization: the same record with `team_info`
/// populated from the team map under its team id.
pub open spec fn user_team_resolved(old: User, teams: Map<Seq<char>, Team>, new: User) -> bool {
    &&& old.team_id matches Some(tid)
    &&& teams.contains_key(old.team_id->0@)
    &&& new.id == old.id
    &&& new.team_id == old.team_id
    &&& new.team_info == Some(teams[old.team_id->0@])
    &&& new.name == old.name
    &&& new.real_name == old.real_name
}

impl Users {
    /// The collection holds each user id once.
    pub open spec fn wf(&self) -> bool {
        unique_keys(self.0@)
    }

    /// Looks a user up by its id.
    pub fn get(&self, id: &String) -> (r: Option<&User>)
        requires
            self.wf(),
        ensures
            match r {
                Some(u) => self@.contains_key(id@) && *u == self@[id@],
                None => !self@.contains_key(id@),
            },
    {
        let mut i: usize = 0;
        while i < self.0.len()
            invariant
                self.wf(),
                i <= self.0@.len(),
                forall|k: int| 0 <= k < i ==> self.0@[k].0@ != id@,
            decreases self.0@.len() - i,
        {
            if self.0[i].0.eq(id) {
                proof {
                    lemma_keyed_map_entry(self.0@, i as int);
                }
                return Some(&self.0[i].1);
            }
            i = i + 1;
        }
        None
    }

    /// Rewrites every user's `team_info` by looking its `team_id` up in
    /// the fetched team map; fails on a user without a team id or with a
    /// team id the map does not hold.
    pub fn finalize_users(users: Users, teams: &Teams) -> (r: Result<Users, Error>)
        requires
            teams.wf(),
        ensures
            r is Ok <==> forall|i: int|
                0 <= i < users.0@.len() ==> (#[trigger] users.0@[i].1.team_id) is Some
                    && teams@.contains_key(users.0@[i].1.team_id->0@),
            r matches Ok(out) ==> {
                &&& out.0@.len() == users.0@.len()
                &&& forall|i: int|
                    0 <= i < out.0@.len() ==> (#[trigger] out.0@[i]).0 == users.0@[i].0
                        && user_team_resolved(users.0@[i].1, teams@, out.0@[i].1)
            },
            r matches Err(e) ==> match e {
                Error::TeamIdWasNoneInUser { container } => container.team_id is None && exists|
                    i: int,
                |
                    0 <= i < users.0@.len() && #[trigger] users.0@[i].1 == container,
                Error::TeamIdNotFoundInTeamMap { team_id } => !teams@.contains_key(team_id@)
                    && exists|i: int|
                    0 <= i < users.0@.len() && ((#[trigger] users.0@[i].1.team_id) matches Some(t)
                        && t@ == team_id@),
                _ => false,
            },
    {
        let mut entries: Vec<(String, User)> = Vec::new();
        let mut i: usize = 0;
        while i < users.0.len()
            invariant
                teams.wf(),
                i <= users.0@.len(),
                entries@.len() == i,
                forall|k: int|
                    0 <= k < i ==> (#[trigger] entries@[k]).0 == users.0@[k].0
                        && user_team_resolved(users.0@[k].1, teams@, entries@[k].1),
            decreases users.0@.len() - i,
        {
            let user = &users.0[i].1;
            match &user.team_id {
                None => {
                    return Err(Error::TeamIdWasNoneInUser { container: user.clone() });
                },
                Some(team_id) => match teams.get(team_id) {
                    None => {
                        return Err(Error::TeamIdNotFoundInTeamMap { team_id: team_id.clone() });
                    },
                    Some(team) => {
                        let updated = User {
                            id: user.id.clone(),
                            team_id: crate::utils::clone_opt_string(&user.team_id),
                            team_info: Some(team.clone()),
                            name: crate::utils::clone_opt_string(&user.name),
                            real_name: crate::utils::clone_opt_string(&user.real_name),
                        };
                        entries.push((users.0[i].0.clone(), updated));
                    },
                },
            }
            i = i + 1;
        }
        proof {
            assert forall|k: int| 0 <= k < users.0@.len() implies (#[trigger] users.0@[
                k
            ].1.team_id) is Some && teams@.contains_key(users.0@[k].1.team_id->0@) by {
                assert(user_team_resolved(users.0@[k].1, teams@, entries@[k].1));
            }
        }
        Ok(Users(entries))
    }
}

/// The team id of every entry, in entry order.
pub open spec fn spec_team_ids(entries: Seq<(String, User)>) -> Seq<String> {
    entries.map_values(|e: (String, User)| e.1.team_id->0)
}

impl CollectTeams<Error> for Users {
    open spec fn collect_teams_enabled(&self) -> bool {
        true
    }

    /// Every fetched user's team id, in entry order; fails on a user
    /// without one.
    fn collect_teams(&self) -> (r: Result<TeamIds, Error>)
        ensures
            r is Ok <==> forall|i: int|
                0 <= i < self.0@.len() ==> (#[trigger] self.0@[i].1.team_id) is Some,
            r matches Ok(tids) ==> tids.0@ == spec_team_ids(self.0@) && tids.0@.len()
                == self.0@.len() && forall|i: int|
                0 <= i < tids.0@.len() ==> #[trigger] tids.0@[i] == self.0@[i].1.team_id->0,
            r matches Err(e) ==> e matches Error::TeamIdWasNoneInUser { container }
                && container.team_id is None && exists|i: int|
                0 <= i < self.0@.len() && #[trigger] self.0@[i].1 == container,
    {
        let mut tids: Vec<String> = Vec::new();
        let mut i: usize = 0;
        while i < self.0.len()
            invariant
                i <= self.0@.len(),
                tids@.len() == i,
                forall|k: int| 0 <= k < i ==> #[trigger] tids@[k] == self.0@[k].1.team_id->0,
                forall|k: int| 0 <= k < i ==> (#[trigger] self.0@[k].1.team_id) is Some,
            decreases self.0@.len() - i,
        {
            match &self.0[i].1.team_id {
                None => {
                    return Err(Error::TeamIdWasNoneInUser { container: self.0[i].1.clone() });
                },
                Some(team_id) => {
                    tids.push(team_id.clone());
                },
            }
            i = i + 1;
        }
        proof {
            assert(tids@ =~= spec_team_ids(self.0@));
        }
        Ok(TeamIds(tids))
    }
}

/// The envelope of a "fetch one user" response.
#[derive(Debug, PartialEq, Eq)]
pub struct UserResponse {
    pub ok: Option<bool>,
    pub error: Option<String>,
    pub user: Option<User>,
}

impl SlackResponseValidator for UserResponse {
    open spec fn ok_spec(&self) -> Option<bool> {
        self.ok
    }

    fn ok(&self) -> (r: Option<bool>) {
        self.ok
    }
}

/// Zips the fetched user ids positionally with the users carried by their
/// responses, failing the whole batch on any response that is not ok.
pub fn users_from_responses(user_ids: &UserIds, responses: &Vec<UserResponse>) -> (r: Result<
    Users,
    Error,
>)
    requires
        user_ids.0@.len() == responses@.len(),
        unique_string_views(user_ids.0@),
        forall|i: int| 0 <= i < responses@.len() ==> (#[trigger] responses@[i].ok) is Some,
        forall|i: int|
            0 <= i < responses@.len() ==> (#[trigger] responses@[i].ok == Some(true)
                ==> responses@[i].user is Some),
    ensures
        r is Ok <==> forall|i: int| 0 <= i < responses@.len() ==> #[trigger] responses@[i].ok
            == Some(true),
        r matches Err(e) ==> e == (Error::InvalidUserResponse {
            source: response::Error::SlackResponseNotOk,
        }) && exists|i: int| 0 <= i < responses@.len() && #[trigger] responses@[i].ok == Some(
            false,
        ),
        r matches Ok(users) ==> {
            &&& users.wf()
            &&& users.0@.len() == user_ids.0@.len()
            &&& forall|i: int|
                0 <= i < users.0@.len() ==> (#[trigger] users.0@[i]).0 == user_ids.0@[i]
                    && users.0@[i].1 == responses@[i].user->0
        },
{
    let mut entries: Vec<(String, User)> = Vec::new();
    let mut i: usize = 0;
    while i < responses.len()
        invariant
            user_ids.0@.len() == responses@.len(),
            unique_string_views(user_ids.0@),
            forall|k: int| 0 <= k < responses@.len() ==> (#[trigger] responses@[k].ok) is Some,
            forall|k: int|
                0 <= k < responses@.len() ==> (#[trigger] responses@[k].ok == Some(true)
                    ==> responses@[k].user is Some),
            i <= responses@.len(),
            entries@.len() == i,
            forall|k: int|
                0 <= k < i ==> (#[trigger] entries@[k]).0 == user_ids.0@[k] && entries@[k].1
                    == responses@[k].user->0,
            forall|k: int| 0 <= k < i ==> #[trigger] responses@[k].ok == Some(true),
        decreases responses@.len() - i,
    {
        match validate_response(&responses[i]) {
            Err(source) => {
                return Err(Error::InvalidUserResponse { source });
            },
            Ok(()) => {},
        }
        let user = match &responses[i].user {
            Some(u) => u.clone(),
            None => vstd::pervasive::unreached(),
        };
        entries.push((user_ids.0[i].clone(), user));
        i = i + 1;
    }
    proof {
        assert(unique_keys(entries@));
    }
    Ok(Users(entries))
}

} // verus!

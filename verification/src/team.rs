//! Team metadata: the entity, the id-keyed collection of fetched teams,
//! and the step that turns a batch of team responses into that collection.

use vstd::prelude::*;

use crate::response::{validate_response, SlackResponseValidator};
use crate::utils::{keyed_map, lemma_keyed_map_entry, unique_keys, unique_string_views};

verus! {

use crate::response;

/// Why a batch of team responses could not be aggregated.
#[derive(Debug, Clone, PartialEq, Eq)]
pub enum Error {
    /// A team response's `ok` field was `false`.
    InvalidTeamResponse { source: response::Error },
}

/// One Slack team.
#[derive(Debug, PartialEq, Eq)]
pub struct Team {
    pub id: String,
    pub name: String,
    pub domain: Option<String>,
    pub email_domain: Option<String>,
    pub enterprise_id: Option<String>,
    pub enterprise_name: Option<String>,
}

impl Clone for Team {
    fn clone(&self) -> (res: Self)
        ensures
            res == *self,
    {
        Team {
            id: self.id.clone(),
            name: self.name.clone(),
            domain: crate::utils::clone_opt_string(&self.domain),
            email_domain: crate::utils::clone_opt_string(&self.email_domain),
            enterprise_id: crate::utils::clone_opt_string(&self.enterprise_id),
            enterprise_name: crate::utils::clone_opt_string(&self.enterprise_name),
        }
    }
}

/// A type whose values reference teams by id and can list those ids.
pub trait CollectTeams<E> {
    /// Whether `self` is in a state in which its ids can be listed.
    spec fn collect_teams_enabled(&self) -> bool;

    /// The team ids referenced by `self`, in order of appearance.
    fn collect_teams(&self) -> Result<TeamIds, E>
        requires
            self.collect_teams_enabled(),
    ;
}

/// The team ids to fetch, in the order they were collected.
#[derive(Debug, Clone, PartialEq, Eq)]
pub struct TeamIds(pub Vec<String>);

/// The fetched teams, keyed by team id.
#[derive(Debug, Clone, PartialEq, Eq)]
pub struct Teams(pub Vec<(String, Team)>);

impl View for Teams {
    type V = Map<Seq<char>, Team>;

    open spec fn view(&self) -> Map<Seq<char>, Team> {
        keyed_map(self.0@)
    }
}

impl Teams {
    /// The collection holds each team id once.
    pub open spec fn wf(&self) -> bool {
        unique_keys(self.0@)
    }

    /// Looks a team up by its id.
    pub fn get(&self, id: &String) -> (r: Option<&Team>)
        requires
            self.wf(),
        ensures
            match r {
                Some(t) => self@.contains_key(id@) && *t == self@[id@],
                None => !self@.contains_key(id@),
            },
    {
        let mut i: usize = 0;
        while i < self.0.len()
            invariant
                self.wf(),
                i <= self.0@.len(),
                forall|k: int| 0 <= k < i ==> self.0@[k].0@ != id@,
            decreases self.0@.len() - i,
        {
            if self.0[i].0.eq(id) {
                proof {
                    lemma_keyed_map_entry(self.0@, i as int);
                }
                return Some(&self.0[i].1);
            }
            i = i + 1;
        }
        None
    }
}

/// The envelope of a "fetch one team" response.
#[derive(Debug, PartialEq, Eq)]
pub struct TeamResponse {
    pub ok: Option<bool>,
    pub error: Option<String>,
    pub team: Option<Team>,
}

impl SlackResponseValidator for TeamResponse {
    open spec fn ok_spec(&self) -> Option<bool> {
        self.ok
    }

    fn ok(&self) -> (r: Option<bool>) {
        self.ok
    }
}

/// Zips the fetched team ids positionally with the teams carried by their
/// responses, failing the whole batch on any response that is not ok.
pub fn teams_from_responses(team_ids: &TeamIds, responses: &Vec<TeamResponse>) -> (r: Result<
    Teams,
    Error,
>)
    requires
        team_ids.0@.len() == responses@.len(),
        unique_string_views(team_ids.0@),
        forall|i: int| 0 <= i < responses@.len() ==> (#[trigger] responses@[i].ok) is Some,
        forall|i: int|
            0 <= i < responses@.len() ==> (#[trigger] responses@[i].ok == Some(true)
                ==> responses@[i].team is Some),
    ensures
        r is Ok <==> forall|i: int| 0 <= i < responses@.len() ==> #[trigger] responses@[i].ok
            == Some(true),
        r matches Err(e) ==> e == (Error::InvalidTeamResponse {
            source: response::Error::SlackResponseNotOk,
        }) && exists|i: int| 0 <= i < responses@.len() && #[trigger] responses@[i].ok == Some(
            false,
        ),
        r matches Ok(teams) ==> {
            &&& teams.wf()
            &&& teams.0@.len() == team_ids.0@.len()
            &&& forall|i: int|
                0 <= i < teams.0@.len() ==> (#[trigger] teams.0@[i]).0 == team_ids.0@[i]
                    && teams.0@[i].1 == responses@[i].team->0
        },
{
    let mut entries: Vec<(String, Team)> = Vec::new();
    let mut i: usize = 0;
    while i < responses.len()
        invariant
            team_ids.0@.len() == responses@.len(),
            unique_string_views(team_ids.0@),
            forall|k: int| 0 <= k < responses@.len() ==> (#[trigger] responses@[k].ok) is Some,
            forall|k: int|
                0 <= k < responses@.len() ==> (#[trigger] responses@[k].ok == Some(true)
                    ==> responses@[k].team is Some),
            i <= responses@.len(),
            entries@.len() == i,
            forall|k: int|
                0 <= k < i ==> (#[trigger] entries@[k]).0 == team_ids.0@[k] && entries@[k].1
                    == responses@[k].team->0,
            forall|k: int| 0 <= k < i ==> #[trigger] responses@[k].ok == Some(true),
        decreases responses@.len() - i,
    {
        match validate_response(&responses[i]) {
            Err(source) => {
                return Err(Error::InvalidTeamResponse { source });
            },
            Ok(()) => {},
        }
        let team = match &responses[i].team {
            Some(t) => t.clone(),
            None => vstd::pervasive::unreached(),
        };
        entries.push((team_ids.0[i].clone(), team));
        i = i + 1;
    }
    proof {
        assert(unique_keys(entries@));
    }
    Ok(Teams(entries))
}

} // verus!

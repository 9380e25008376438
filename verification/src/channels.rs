//! Channel metadata: the entity, the step that turns a channel response
//! into the entity, and the finalization step that populates a direct
//! message channel's counterpart user.

use vstd::prelude::*;

use crate::response::{validate_response, SlackResponseValidator};
use crate::users::{User, Users};
use crate::utils::clone_opt_string;

verus! {

use crate::response;

/// Why a channel could not be derived or finalized.
#[derive(Debug, Clone, PartialEq, Eq)]
pub enum Error {
    /// The channel's `user` id has no entry in the fetched user map.
    UserIdNotFoundInUserMap { user_id: String },
    /// The channel response's `ok` field was `false`.
    InvalidChannelResponse { source: response::Error },
}

/// A channel id.
#[derive(Debug, Clone, PartialEq, Eq)]
pub struct ChannelId(pub String);

/// The topic or purpose of a channel.
#[derive(Debug, PartialEq, Eq)]
pub struct ChannelAuxData {
    pub value: Option<String>,
    pub creator: Option<String>,
    pub last_set: Option<i64>,
}

impl Clone for ChannelAuxData {
    fn clone(&self) -> (res: Self)
        ensures
            res == *self,
    {
        ChannelAuxData {
            value: clone_opt_string(&self.value),
            creator: clone_opt_string(&self.creator),
            last_set: self.last_set,
        }
    }
}

/// One Slack conversation's metadata; for a direct-message channel,
/// `user` holds the counterpart's id and `user_info` is populated during
/// finalization.
#[derive(Debug, PartialEq, Eq)]
pub struct Channel {
    pub id: Option<String>,
    pub name: Option<String>,
    pub is_channel: Option<bool>,
    pub is_group: Option<bool>,
    pub is_im: Option<bool>,
    pub created: Option<i64>,
    pub creator: Option<String>,
    pub is_archived: Option<bool>,
    pub is_general: Option<bool>,
    pub name_normalized: Option<String>,
    pub is_shared: Option<bool>,
    pub is_member: Option<bool>,
    pub is_private: Option<bool>,
    pub is_mpim: Option<bool>,
    pub last_read: Option<String>,
    pub topic: Option<ChannelAuxData>,
    pub purpose: Option<ChannelAuxData>,
    pub locale: Option<String>,
    pub is_org_shared: Option<bool>,
    pub user: Option<String>,
    pub user_info: Option<User>,
    pub unread_count: Option<i64>,
    pub is_open: Option<bool>,
}

impl Clone for Channel {
    fn clone(&self) -> (res: Self)
        ensures
            res == *self,
    {
        Channel {
            id: clone_opt_string(&self.id),
            name: clone_opt_string(&self.name),
            is_channel: self.is_channel,
            is_group: self.is_group,
            is_im: self.is_im,
            created: self.created,
            creator: clone_opt_string(&self.creator),
            is_archived: self.is_archived,
            is_general: self.is_general,
            name_normalized: clone_opt_string(&self.name_normalized),
            is_shared: self.is_shared,
            is_member: self.is_member,
            is_private: self.is_private,
            is_mpim: self.is_mpim,
            last_read: clone_opt_string(&self.last_read),
            topic: match &self.topic {
                Some(t) => Some(t.clone()),
                None => None,
            },
            purpose: match &self.purpose {
                Some(p) => Some(p.clone()),
                None => None,
            },
            locale: clone_opt_string(&self.locale),
            is_org_shared: self.is_org_shared,
            user: clone_opt_string(&self.user),
            user_info: match &self.user_info {
                Some(u) => Some(u.clone()),
                None => None,
            },
            unread_count: self.unread_count,
            is_open: self.is_open,
        }
    }
}

impl Channel {
    /// The user ids this channel references: its direct-message
    /// counterpart, if it has one.
    pub fn collect_users(&self) -> (r: Vec<String>)
        ensures
            match self.user {
                Some(uid) => r@ == seq![uid],
                None => r@ == Seq::<String>::empty(),
            },
    {
        match &self.user {
            Some(uid) => {
                let mut v: Vec<String> = Vec::new();
                v.push(uid.clone());
                proof {
                    assert(v@ =~= seq![self.user->0]);
                }
                v
            },
            None => Vec::new(),
        }
    }

    /// With a fetched user map and a `user` id on the channel, populates
    /// `user_info` from the map; otherwise returns the channel unchanged.
    pub fn finalize_channel(channel: Channel, users: Option<&Users>) -> (r: Result<Channel, Error>)
        requires
            users matches Some(u) ==> u.wf(),
        ensures
            channel.user is None || users is None ==> r == Ok::<Channel, Error>(channel),
            users matches Some(u) ==> (channel.user matches Some(uid) ==> {
                &&& r is Ok <==> u@.contains_key(uid@)
                &&& r matches Ok(out) ==> out == (Channel {
                    user_info: Some(u@[uid@]),
                    ..channel
                })
                &&& r matches Err(e) ==> e == (Error::UserIdNotFoundInUserMap { user_id: uid })
                    && !u@.contains_key(uid@)
            }),
    {
        let user_map = match users {
            Some(u) => u,
            None => {
                return Ok(channel);
            },
        };
        let user_id = match &channel.user {
            Some(uid) => uid,
            None => {
                return Ok(channel);
            },
        };
        match user_map.get(user_id) {
            None => Err(Error::UserIdNotFoundInUserMap { user_id: user_id.clone() }),
            Some(user) => {
                let user_info = Some(user.clone());
                Ok(Channel { user_info, ..channel })
            },
        }
    }
}

/// The envelope of a "fetch one channel" response.
#[derive(Debug, PartialEq, Eq)]
pub struct ChannelResponse {
    pub ok: Option<bool>,
    pub error: Option<String>,
    pub channel: Option<Channel>,
}

impl SlackResponseValidator for ChannelResponse {
    open spec fn ok_spec(&self) -> Option<bool> {
        self.ok
    }

    fn ok(&self) -> (r: Option<bool>) {
        self.ok
    }
}

/// Extracts the channel from a validated channel response, failing when
/// the response is not ok.
pub fn channel_from_response(response: &ChannelResponse) -> (r: Result<Channel, Error>)
    requires
        response.ok is Some,
        response.ok == Some(true) ==> response.channel is Some,
    ensures
        r is Ok <==> response.ok == Some(true),
        r matches Ok(c) ==> c == response.channel->0,
        r matches Err(e) ==> e == (Error::InvalidChannelResponse {
            source: response::Error::SlackResponseNotOk,
        }),
{
    match validate_response(response) {
        Err(source) => Err(Error::InvalidChannelResponse { source }),
        Ok(()) => match &response.channel {
            Some(c) => Ok(c.clone()),
            None => vstd::pervasive::unreached(),
        },
    }
}

} // verus!

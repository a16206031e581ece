//! Slack channels, as the channel listing describes them.
use crate::json::{
    boolean, get_string, json_bool, json_member, json_u64, member, string_member, unsigned,
};
use vstd::prelude::*;

verus! {

/// A Slack channel.
#[derive(Debug)]
pub struct Channel {
    pub id: String,
    pub name: String,
    pub creator: String,
    pub created: u64,
    pub is_member: bool,
    pub is_channel: bool,
    pub is_archived: bool,
}

/// A channel, as the characters of its parts.
pub struct ChannelView {
    pub id: Seq<char>,
    pub name: Seq<char>,
    pub creator: Seq<char>,
    pub created: u64,
    pub is_member: bool,
    pub is_channel: bool,
    pub is_archived: bool,
}

impl View for Channel {
    type V = ChannelView;

    open spec fn view(&self) -> ChannelView {
        ChannelView {
            id: self.id@,
            name: self.name@,
            creator: self.creator@,
            created: self.created,
            is_member: self.is_member,
            is_channel: self.is_channel,
            is_archived: self.is_archived,
        }
    }
}

/// The number under `key`, if `value` is an object whose member `key` is such a number.
pub open spec fn u64_member(value: serde_json::Value, key: Seq<char>) -> Option<u64> {
    match json_member(value, key) {
        Some(inner) => json_u64(inner),
        None => None,
    }
}

/// The truth value under `key`, if `value` is an object whose member `key` is one.
pub open spec fn bool_member(value: serde_json::Value, key: Seq<char>) -> Option<bool> {
    match json_member(value, key) {
        Some(inner) => json_bool(inner),
        None => None,
    }
}

/// Reads the number under `key`.
pub fn get_u64(value: &serde_json::Value, key: &str) -> (number: Option<u64>)
    ensures
        number == u64_member(*value, key@),
{
    match member(value, key) {
        Some(inner) => unsigned(inner),
        None => None,
    }
}

/// Reads the truth value under `key`.
pub fn get_bool(value: &serde_json::Value, key: &str) -> (truth: Option<bool>)
    ensures
        truth == bool_member(*value, key@),
{
    match member(value, key) {
        Some(inner) => boolean(inner),
        None => None,
    }
}

/// The channel that `value` describes: an object with the strings `id`, `name` and `creator`,
/// the number `created` and the truth values `is_member`, `is_channel` and `is_archived`.
/// Other members do not matter.
pub open spec fn channel_record(value: serde_json::Value) -> Option<ChannelView> {
    if string_member(value, "id"@) is Some && string_member(value, "name"@) is Some
        && string_member(value, "creator"@) is Some && u64_member(value, "created"@) is Some
        && bool_member(value, "is_member"@) is Some && bool_member(value, "is_channel"@) is Some
        && bool_member(value, "is_archived"@) is Some {
        Some(
            ChannelView {
                id: string_member(value, "id"@)->Some_0,
                name: string_member(value, "name"@)->Some_0,
                creator: string_member(value, "creator"@)->Some_0,
                created: u64_member(value, "created"@)->Some_0,
                is_member: bool_member(value, "is_member"@)->Some_0,
                is_channel: bool_member(value, "is_channel"@)->Some_0,
                is_archived: bool_member(value, "is_archived"@)->Some_0,
            },
        )
    } else {
        None
    }
}

/// The channels that `values` describe, if each describes one.
pub open spec fn channel_records(values: Seq<serde_json::Value>) -> Option<Seq<ChannelView>> {
    if forall|i: int| 0 <= i < values.len() ==> channel_record(#[trigger] values[i]) is Some {
        Some(Seq::new(values.len(), |i: int| channel_record(values[i])->Some_0))
    } else {
        None
    }
}

impl Channel {
    /// Decodes the channel that `value` describes.
    pub fn from_json(value: &serde_json::Value) -> (channel: Option<Channel>)
        ensures
            match channel {
                Some(channel) => channel_record(*value) == Some(channel@),
                None => channel_record(*value) is None,
            },
    {
        let id = match get_string(value, "id") {
            Some(id) => id,
            None => {
                return None;
            },
        };
        let name = match get_string(value, "name") {
            Some(name) => name,
            None => {
                return None;
            },
        };
        let creator = match get_string(value, "creator") {
            Some(creator) => creator,
            None => {
                return None;
            },
        };
        let created = match get_u64(value, "created") {
            Some(created) => created,
            None => {
                return None;
            },
        };
        let is_member = match get_bool(value, "is_member") {
            Some(is_member) => is_member,
            None => {
                return None;
            },
        };
        let is_channel = match get_bool(value, "is_channel") {
            Some(is_channel) => is_channel,
            None => {
                return None;
            },
        };
        let is_archived = match get_bool(value, "is_archived") {
            Some(is_archived) => is_archived,
            None => {
                return None;
            },
        };
        Some(
            Channel {
                id: id.to_owned(),
                name: name.to_owned(),
                creator: creator.to_owned(),
                created,
                is_member,
                is_channel,
                is_archived,
            },
        )
    }

    /// Decodes the channels that `values` describe. One value that describes none fails the
    /// whole list.
    pub fn list_from_json(values: &Vec<serde_json::Value>) -> (channels: Option<Vec<Channel>>)
        ensures
            match channels {
                Some(channels) => channel_records(values@) == Some(
                    channels@.map_values(|channel: Channel| channel@),
                ),
                None => channel_records(values@) is None,
            },
    {
        let mut channels: Vec<Channel> = Vec::new();
        let mut i: usize = 0;
        while i < values.len()
            invariant
                i <= values@.len(),
                channels@.len() == i,
                forall|j: int| 0 <= j < i ==> channel_record(#[trigger] values@[j]) == Some(channels@[j]@),
            decreases values@.len() - i,
        {
            match Channel::from_json(&values[i]) {
                Some(channel) => {
                    channels.push(channel);
                },
                None => {
                    return None;
                },
            }
            i = i + 1;
        }
        assert(channels@.map_values(|channel: Channel| channel@) =~= Seq::new(
            values@.len(),
            |i: int| channel_record(values@[i])->Some_0,
        ));
        Some(channels)
    }
}

} // verus!

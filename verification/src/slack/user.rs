//! Slack users, as the user listing describes them.
use crate::json::{
    get_string, is_null, json_is_null, json_member, json_string, member, string, string_member,
};
use crate::slack::channel::{bool_member, get_bool};
use vstd::prelude::*;

verus! {

/// A Slack user.
#[derive(Debug)]
pub struct UserInfo {
    pub id: String,
    pub team_id: String,
    pub name: String,
    pub real_name: Option<String>,
    pub is_bot: bool,
    pub is_app_user: bool,
    pub deleted: bool,
}

/// A user, as the characters of its parts.
pub struct UserInfoView {
    pub id: Seq<char>,
    pub team_id: Seq<char>,
    pub name: Seq<char>,
    pub real_name: Option<Seq<char>>,
    pub is_bot: bool,
    pub is_app_user: bool,
    pub deleted: bool,
}

impl View for UserInfo {
    type V = UserInfoView;

    open spec fn view(&self) -> UserInfoView {
        UserInfoView {
            id: self.id@,
            team_id: self.team_id@,
            name: self.name@,
            real_name: match self.real_name {
                Some(real_name) => Some(real_name@),
                None => None,
            },
            is_bot: self.is_bot,
            is_app_user: self.is_app_user,
            deleted: self.deleted,
        }
    }
}

/// The string under `key` where it may be left out: `Some(None)` when `value` has no member
/// `key` or has `null` there, `Some(Some(..))` for a string, `None` for anything else.
pub open spec fn optional_string_member(value: serde_json::Value, key: Seq<char>) -> Option<
    Option<Seq<char>>,
> {
    match json_member(value, key) {
        None => Some(None),
        Some(inner) => if json_is_null(inner) {
            Some(None)
        } else {
            match json_string(inner) {
                Some(text) => Some(Some(text)),
                None => None,
            }
        },
    }
}

/// The user that `value` describes: an object with the strings `id`, `team_id` and `name`, the
/// truth values `is_bot`, `is_app_user` and `deleted`, and `real_name`, a string that may be
/// left out. Other members do not matter.
pub open spec fn user_record(value: serde_json::Value) -> Option<UserInfoView> {
    if string_member(value, "id"@) is Some && string_member(value, "team_id"@) is Some
        && string_member(value, "name"@) is Some && optional_string_member(value, "real_name"@) is Some
        && bool_member(value, "is_bot"@) is Some && bool_member(value, "is_app_user"@) is Some
        && bool_member(value, "deleted"@) is Some {
        Some(
            UserInfoView {
                id: string_member(value, "id"@)->Some_0,
                team_id: string_member(value, "team_id"@)->Some_0,
                name: string_member(value, "name"@)->Some_0,
                real_name: optional_string_member(value, "real_name"@)->Some_0,
                is_bot: bool_member(value, "is_bot"@)->Some_0,
                is_app_user: bool_member(value, "is_app_user"@)->Some_0,
                deleted: bool_member(value, "deleted"@)->Some_0,
            },
        )
    } else {
        None
    }
}

/// The users that `values` describe, if each describes one.
pub open spec fn user_records(values: Seq<serde_json::Value>) -> Option<Seq<UserInfoView>> {
    if forall|i: int| 0 <= i < values.len() ==> user_record(#[trigger] values[i]) is Some {
        Some(Seq::new(values.len(), |i: int| user_record(values[i])->Some_0))
    } else {
        None
    }
}

/// Reads the string under `key` where it may be left out.
fn get_optional_string(value: &serde_json::Value, key: &str) -> (found: Option<Option<String>>)
    ensures
        match found {
            Some(Some(text)) => optional_string_member(*value, key@) == Some(Some(text@)),
            Some(None) => optional_string_member(*value, key@) == Some(None::<Seq<char>>),
            None => optional_string_member(*value, key@) is None,
        },
{
    match member(value, key) {
        None => Some(None),
        Some(inner) => if is_null(inner) {
            Some(None)
        } else {
            match string(inner) {
                Some(text) => Some(Some(text.to_owned())),
                None => None,
            }
        },
    }
}

impl UserInfo {
    /// Decodes the user that `value` describes.
    pub fn from_json(value: &serde_json::Value) -> (user: Option<UserInfo>)
        ensures
            match user {
                Some(user) => user_record(*value) == Some(user@),
                None => user_record(*value) is None,
            },
    {
        let id = match get_string(value, "id") {
            Some(id) => id,
            None => {
                return None;
            },
        };
        let team_id = match get_string(value, "team_id") {
            Some(team_id) => team_id,
            None => {
                return None;
            },
        };
        let name = match get_string(value, "name") {
            Some(name) => name,
            None => {
                return None;
            },
        };
        let real_name = match get_optional_string(value, "real_name") {
            Some(real_name) => real_name,
            None => {
                return None;
            },
        };
        let is_bot = match get_bool(value, "is_bot") {
            Some(is_bot) => is_bot,
            None => {
                return None;
            },
        };
        let is_app_user = match get_bool(value, "is_app_user") {
            Some(is_app_user) => is_app_user,
            None => {
                return None;
            },
        };
        let deleted = match get_bool(value, "deleted") {
            Some(deleted) => deleted,
            None => {
                return None;
            },
        };
        Some(
            UserInfo {
                id: id.to_owned(),
                team_id: team_id.to_owned(),
                name: name.to_owned(),
                real_name,
                is_bot,
                is_app_user,
                deleted,
            },
        )
    }

    /// Decodes the users that `values` describe. One value that describes none fails the whole
    /// list.
    pub fn list_from_json(values: &Vec<serde_json::Value>) -> (users: Option<Vec<UserInfo>>)
        ensures
            match users {
                Some(users) => user_records(values@) == Some(
                    users@.map_values(|user: UserInfo| user@),
                ),
                None => user_records(values@) is None,
            },
    {
        let mut users: Vec<UserInfo> = Vec::new();
        let mut i: usize = 0;
        while i < values.len()
            invariant
                i <= values@.len(),
                users@.len() == i,
                forall|j: int| 0 <= j < i ==> user_record(#[trigger] values@[j]) == Some(users@[j]@),
            decreases values@.len() - i,
        {
            match UserInfo::from_json(&values[i]) {
                Some(user) => {
                    users.push(user);
                },
                None => {
                    return None;
                },
            }
            i = i + 1;
        }
        assert(users@.map_values(|user: UserInfo| user@) =~= Seq::new(
            values@.len(),
            |i: int| user_record(values@[i])->Some_0,
        ));
        Some(users)
    }
}

} // verus!

//! The cache of Slack users' display names.
use vstd::hash_map::StringHashMap;
use vstd::prelude::*;

verus! {

/// The display names of the Slack users seen so far, by Slack user id.
pub struct Usernames {
    names: StringHashMap<String>,
}

impl View for Usernames {
    type V = Map<Seq<char>, Seq<char>>;

    closed spec fn view(&self) -> Map<Seq<char>, Seq<char>> {
        self.names@.map_values(|name: String| name@)
    }
}

impl Usernames {
    /// A cache that knows nobody.
    pub fn new() -> (usernames: Usernames)
        ensures
            usernames@ == Map::<Seq<char>, Seq<char>>::empty(),
    {
        let usernames = Usernames { names: StringHashMap::new() };
        assert(usernames@ =~= Map::<Seq<char>, Seq<char>>::empty());
        usernames
    }
}

/// The name under which `user` is shown: the cached name, or the id itself for a user that the
/// cache does not know.
pub open spec fn shown_name(usernames: Map<Seq<char>, Seq<char>>, user: Seq<char>) -> Seq<char> {
    if usernames.contains_key(user) {
        usernames[user]
    } else {
        user
    }
}

/// Caches `username` as the display name of `slack_user_id`, in place of any earlier name.
pub fn register_username(usernames: &mut Usernames, slack_user_id: String, username: String)
    ensures
        final(usernames)@ == old(usernames)@.insert(slack_user_id@, username@),
{
    usernames.names.insert(slack_user_id, username);
    assert(usernames@ =~= old(usernames)@.insert(slack_user_id@, username@));
}

/// The cached display name of `slack_user_id`.
pub fn get_username(usernames: &Usernames, slack_user_id: &str) -> (found: Option<String>)
    ensures
        match found {
            Some(name) => usernames@.contains_key(slack_user_id@) && usernames@[slack_user_id@]
                == name@,
            None => !usernames@.contains_key(slack_user_id@),
        },
{
    match usernames.names.get(slack_user_id) {
        Some(name) => Some(name.clone()),
        None => None,
    }
}

/// The name under which `slack_user_id` is shown on IRC.
pub fn display_name(usernames: &Usernames, slack_user_id: &str) -> (name: String)
    ensures
        name@ == shown_name(usernames@, slack_user_id@),
{
    match get_username(usernames, slack_user_id) {
        Some(name) => name,
        None => slack_user_id.to_owned(),
    }
}

} // verus!

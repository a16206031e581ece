//! The gateway's configuration.
use crate::text::same_text;
use vstd::prelude::*;

verus! {

/// One IRC user that may use the gateway, and the Slack token that it acts with.
#[derive(Clone, Debug)]
pub struct UserProfile {
    pub name: String,
    pub slack_token: String,
}

/// The configuration: where to listen, the token that Slack's requests carry, and the
/// profiles in the order in which they were written down.
#[derive(Debug)]
pub struct Settings {
    pub irc_listen_addr: String,
    pub slack_app_listen_addr: String,
    pub slack_app_verif_token: String,
    pub user_profiles: Vec<UserProfile>,
}

/// The profile that `nick` goes by: the last of `profiles` with that name, so that a later
/// profile replaces an earlier one of the same name.
pub open spec fn profile_of(profiles: Seq<UserProfile>, nick: Seq<char>) -> Option<UserProfile>
    decreases profiles.len(),
{
    if profiles.len() == 0 {
        None
    } else if profiles.last().name@ == nick {
        Some(profiles.last())
    } else {
        profile_of(profiles.drop_last(), nick)
    }
}

impl Default for Settings {
    /// The configuration of a gateway that nobody has configured: no profiles and no token.
    fn default() -> (settings: Settings)
        ensures
            settings.irc_listen_addr@ == "0.0.0.0:8080"@,
            settings.slack_app_listen_addr@ == "0.0.0.0:8080"@,
            settings.slack_app_verif_token@.len() == 0,
            settings.user_profiles@.len() == 0,
    {
        Settings {
            irc_listen_addr: "0.0.0.0:8080".to_owned(),
            slack_app_listen_addr: "0.0.0.0:8080".to_owned(),
            slack_app_verif_token: String::new(),
            user_profiles: Vec::new(),
        }
    }
}

impl Settings {
    /// The profile that `nick` goes by.
    pub fn profile(&self, nick: &str) -> (found: Option<&UserProfile>)
        ensures
            match found {
                Some(profile) => profile_of(self.user_profiles@, nick@) == Some(*profile),
                None => profile_of(self.user_profiles@, nick@) is None,
            },
    {
        let mut i: usize = self.user_profiles.len();
        assert(self.user_profiles@.take(i as int) =~= self.user_profiles@);
        while i > 0
            invariant
                i <= self.user_profiles@.len(),
                profile_of(self.user_profiles@, nick@) == profile_of(
                    self.user_profiles@.take(i as int),
                    nick@,
                ),
            decreases i,
        {
            i = i - 1;
            let ghost front = self.user_profiles@.take(i + 1);
            assert(front.last() == self.user_profiles@[i as int]);
            assert(front.drop_last() =~= self.user_profiles@.take(i as int));
            if same_text(self.user_profiles[i].name.as_str(), nick) {
                return Some(&self.user_profiles[i]);
            }
        }
        assert(self.user_profiles@.take(0).len() == 0);
        None
    }
}

} // verus!

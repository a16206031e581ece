//! The sessions of the connected IRC clients, and what the gateway does when the IRC server
//! reports that a client registers, has registered, speaks in a channel or leaves.
use crate::channels::{
    after_mark, channel_id_of, get_channel_id, mark_message_from_irc, Binding, Channels,
};
use crate::error::{ErrorKind, GatewayError};
use crate::json::string_member;
use crate::settings::{profile_of, Settings, UserProfile};
use crate::slack::{
    response_json, ApiRequest, Channel, ChannelView, Slack, SlackHttpClient, UserInfo,
    UserInfoView,
};
use crate::text::concat;
use crate::users::{register_username, Usernames};
use vstd::hash_map::StringHashMap;
use vstd::prelude::*;
use vstd::string::StringExecFns;

verus! {

/// The session of one connected IRC client: the address it connected from, and the client of
/// the Slack API that acts for it.
pub struct Client {
    pub addr: String,
    pub slack: Slack,
}

impl Client {
    /// The session of the client at `addr` that goes by `profile`.
    pub fn new(addr: &str, profile: &UserProfile) -> (client: Client)
        ensures
            client.addr@ == addr@,
            client.slack.token() == profile.slack_token@,
            client.slack.authorization() == "Bearer "@ + profile.slack_token@,
    {
        Client { addr: addr.to_owned(), slack: Slack::new(profile.slack_token.as_str()) }
    }
}

/// The sessions, by the address of the connection. A connection has at most one.
pub struct Clients {
    sessions: StringHashMap<Client>,
}

impl View for Clients {
    type V = Map<Seq<char>, Client>;

    closed spec fn view(&self) -> Map<Seq<char>, Client> {
        self.sessions@
    }
}

impl Clients {
    /// No sessions.
    pub fn new() -> (clients: Clients)
        ensures
            clients@ == Map::<Seq<char>, Client>::empty(),
    {
        Clients { sessions: StringHashMap::new() }
    }

    /// The session of the connection at `addr`.
    pub fn get(&self, addr: &str) -> (found: Option<&Client>)
        ensures
            match found {
                Some(client) => self@.contains_key(addr@) && self@[addr@] == *client,
                None => !self@.contains_key(addr@),
            },
    {
        self.sessions.get(addr)
    }
}

/// A channel to join on IRC for a client, and the Slack channel to bind it to.
#[derive(Debug)]
pub struct ChannelJoin {
    pub slack_channel_id: String,
    pub irc_channel_name: String,
}

/// A join, as the characters of its parts.
pub struct ChannelJoinView {
    pub slack_channel_id: Seq<char>,
    pub irc_channel_name: Seq<char>,
}

impl View for ChannelJoin {
    type V = ChannelJoinView;

    open spec fn view(&self) -> ChannelJoinView {
        ChannelJoinView {
            slack_channel_id: self.slack_channel_id@,
            irc_channel_name: self.irc_channel_name@,
        }
    }
}

/// A message to post to Slack for an IRC client: the Slack channel, and the request that
/// posts the message.
#[derive(Debug)]
pub struct OutboundPost {
    pub slack_channel_id: String,
    pub request: ApiRequest,
}

/// The words joined by single spaces.
pub open spec fn spaced(words: Seq<Seq<char>>) -> Seq<char>
    decreases words.len(),
{
    if words.len() == 0 {
        Seq::empty()
    } else if words.len() == 1 {
        words[0]
    } else {
        spaced(words.drop_last()) + " "@ + words.last()
    }
}

/// The text of an IRC channel message with the parameters `params`: all but the first, which
/// is the channel's name, joined by spaces.
pub open spec fn message_text(params: Seq<Seq<char>>) -> Seq<char> {
    if params.len() == 0 {
        Seq::empty()
    } else {
        spaced(params.subrange(1, params.len() as int))
    }
}

/// The joins for the listed `channels`: one for each channel that the user is a member of, in
/// the order of the listing, under the channel's name after `#`.
pub open spec fn joins_of(channels: Seq<ChannelView>) -> Seq<ChannelJoinView>
    decreases channels.len(),
{
    if channels.len() == 0 {
        Seq::empty()
    } else if channels.last().is_member {
        joins_of(channels.drop_last()).push(
            ChannelJoinView {
                slack_channel_id: channels.last().id,
                irc_channel_name: "#"@ + channels.last().name,
            },
        )
    } else {
        joins_of(channels.drop_last())
    }
}

/// The names after those of the listed `users` were cached in turn.
pub open spec fn usernames_after(names: Map<Seq<char>, Seq<char>>, users: Seq<UserInfoView>) -> Map<
    Seq<char>,
    Seq<char>,
>
    decreases users.len(),
{
    if users.len() == 0 {
        names
    } else {
        usernames_after(names, users.drop_last()).insert(users.last().id, users.last().name)
    }
}

/// A client wants to register under `nick` from `addr`. It may when its nick has a profile in
/// `settings`: then it gets a session, which replaces an earlier one of the same address. A
/// client without a nick or without a profile is rejected with a reason, and gets no session.
pub fn on_client_registering(
    clients: &mut Clients,
    settings: &Settings,
    addr: &str,
    nick: Option<&str>,
) -> (result: Result<bool, GatewayError>)
    ensures
        match result {
            Ok(accepted) => accepted && nick is Some && profile_of(
                settings.user_profiles@,
                nick->Some_0@,
            ) is Some && final(clients)@ == old(clients)@.insert(addr@, final(clients)@[addr@])
                && final(clients)@[addr@].addr@ == addr@ && final(clients)@[addr@].slack.token()
                == profile_of(settings.user_profiles@, nick->Some_0@)->Some_0.slack_token@
                && final(clients)@[addr@].slack.authorization() == "Bearer "@ + profile_of(
                settings.user_profiles@,
                nick->Some_0@,
            )->Some_0.slack_token@,
            Err(error) => final(clients)@ == old(clients)@ && error.message@.len() > 0 && (match nick {
                None => error.is(
                    ErrorKind::AuthRejected,
                    "Slack gateway couldn't determine your nick!"@,
                ),
                Some(nick) => profile_of(settings.user_profiles@, nick@) is None && error.is(
                    ErrorKind::AuthRejected,
                    "Your nick is not registered with the Slack gateway!"@,
                ),
            }),
        },
{
    proof {
        reveal_strlit("Slack gateway couldn't determine your nick!");
        reveal_strlit("Your nick is not registered with the Slack gateway!");
    }
    let nick = match nick {
        Some(nick) => nick,
        None => {
            return Err(
                GatewayError::new(
                    ErrorKind::AuthRejected,
                    "Slack gateway couldn't determine your nick!".to_owned(),
                ),
            );
        },
    };
    let profile = match settings.profile(nick) {
        Some(profile) => profile,
        None => {
            return Err(
                GatewayError::new(
                    ErrorKind::AuthRejected,
                    "Your nick is not registered with the Slack gateway!".to_owned(),
                ),
            );
        },
    };
    let client = Client::new(addr, profile);
    clients.sessions.insert(addr.to_owned(), client);
    Ok(true)
}

/// A client at `addr` has registered: gives the client of the Slack API with which to fetch
/// its users and channels. A client without a session is a failure.
pub fn on_client_registered<'a>(clients: &'a Clients, addr: &str) -> (result: Result<
    &'a Slack,
    GatewayError,
>)
    ensures
        match result {
            Ok(slack) => clients@.contains_key(addr@) && clients@[addr@].slack == *slack,
            Err(error) => !clients@.contains_key(addr@) && error.is(
                ErrorKind::MappingNotFound,
                "Client just registered, but isn't in our list!"@,
            ),
        },
{
    match clients.get(addr) {
        Some(client) => Ok(&client.slack),
        None => Err(
            GatewayError::new(
                ErrorKind::MappingNotFound,
                "Client just registered, but isn't in our list!".to_owned(),
            ),
        ),
    }
}

/// Caches the display names of the listed `users`, in the order of the listing.
pub fn register_usernames(usernames: &mut Usernames, users: &Vec<UserInfo>)
    ensures
        final(usernames)@ == usernames_after(
            old(usernames)@,
            users@.map_values(|user: UserInfo| user@),
        ),
{
    let ghost listed = users@.map_values(|user: UserInfo| user@);
    let mut i: usize = 0;
    assert(listed.take(0).len() == 0);
    while i < users.len()
        invariant
            i <= users@.len(),
            listed == users@.map_values(|user: UserInfo| user@),
            usernames@ == usernames_after(old(usernames)@, listed.take(i as int)),
        decreases users@.len() - i,
    {
        proof {
            assert(listed.take(i + 1).drop_last() =~= listed.take(i as int));
            assert(listed.take(i + 1).last() == users@[i as int]@);
        }
        register_username(usernames, users[i].id.clone(), users[i].name.clone());
        i = i + 1;
    }
    assert(listed.take(i as int) =~= listed);
}

/// The channels to join for a client whose Slack identity sees the listed `channels`.
pub fn channels_to_join(channels: &Vec<Channel>) -> (joins: Vec<ChannelJoin>)
    ensures
        joins@.map_values(|join: ChannelJoin| join@) == joins_of(
            channels@.map_values(|channel: Channel| channel@),
        ),
{
    let ghost listed = channels@.map_values(|channel: Channel| channel@);
    let mut joins: Vec<ChannelJoin> = Vec::new();
    let mut i: usize = 0;
    assert(listed.take(0).len() == 0);
    while i < channels.len()
        invariant
            i <= channels@.len(),
            listed == channels@.map_values(|channel: Channel| channel@),
            joins@.map_values(|join: ChannelJoin| join@) == joins_of(listed.take(i as int)),
        decreases channels@.len() - i,
    {
        let ghost before = joins@;
        proof {
            assert(listed.take(i + 1).drop_last() =~= listed.take(i as int));
            assert(listed.take(i + 1).last() == channels@[i as int]@);
        }
        if channels[i].is_member {
            let join = ChannelJoin {
                slack_channel_id: channels[i].id.clone(),
                irc_channel_name: concat("#", channels[i].name.as_str()),
            };
            joins.push(join);
            assert(joins@.map_values(|join: ChannelJoin| join@) =~= before.map_values(
                |join: ChannelJoin| join@,
            ).push(join@));
        }
        i = i + 1;
    }
    assert(listed.take(i as int) =~= listed);
    joins
}

/// The connection at `addr` is gone: its session ends. Bindings of channels stay.
pub fn on_client_disconnect(clients: &mut Clients, addr: &str)
    ensures
        final(clients)@ == old(clients)@.remove(addr@),
{
    clients.sessions.remove(addr);
}

/// Joins the words from the one at `from` on by single spaces.
fn join_words(words: &Vec<String>, from: usize) -> (text: String)
    requires
        from <= words@.len(),
    ensures
        text@ == spaced(
            words@.map_values(|word: String| word@).subrange(from as int, words@.len() as int),
        ),
{
    let ghost all = words@.map_values(|word: String| word@);
    let mut text = String::new();
    let mut i: usize = from;
    assert(all.subrange(from as int, from as int).len() == 0);
    while i < words.len()
        invariant
            from <= i <= words@.len(),
            all == words@.map_values(|word: String| word@),
            text@ == spaced(all.subrange(from as int, i as int)),
        decreases words@.len() - i,
    {
        proof {
            let next = all.subrange(from as int, i + 1);
            assert(next.drop_last() =~= all.subrange(from as int, i as int));
            assert(next.last() == words@[i as int]@);
        }
        if i > from {
            text.append(" ");
        }
        text.append(words[i].as_str());
        assert(text@ =~= spaced(all.subrange(from as int, i + 1)));
        i = i + 1;
    }
    text
}

/// The text of an IRC channel message with the parameters `params`.
pub fn text_of_message(params: &Vec<String>) -> (text: String)
    ensures
        text@ == message_text(params@.map_values(|param: String| param@)),
{
    if params.len() == 0 {
        String::new()
    } else {
        join_words(params, 1)
    }
}

/// What an IRC channel message comes to while `bindings` and `clients` are what the
/// registries hold: the Slack channel and the text to post, or the reason why it cannot be
/// relayed.
pub open spec fn channel_message_target<C>(
    bindings: Map<Seq<char>, Binding<C>>,
    clients: Map<Seq<char>, Client>,
    addr: Seq<char>,
    chan_name: Seq<char>,
) -> Result<Seq<char>, Seq<char>> {
    match channel_id_of(bindings, chan_name) {
        None => Err("Couldn't find matching Slack channel for IRC message"@),
        Some(id) => if clients.contains_key(addr) {
            Ok(id)
        } else {
            Err("Client sent message, but isn't in our list!"@)
        },
    }
}

/// The client at `addr` sent a message with the parameters `params` to the IRC channel
/// `chan_name`. Gives the request that posts its text to the Slack channel that the IRC
/// channel is bound to, for the client's Slack identity. A channel that is not bound and a
/// client without a session are failures; nothing is posted then.
pub fn on_client_channel_message<C>(
    clients: &Clients,
    channels: &Channels<C>,
    addr: &str,
    chan_name: &str,
    params: &Vec<String>,
) -> (result: Result<OutboundPost, GatewayError>)
    ensures
        match result {
            Ok(post) => channel_message_target(channels@, clients@, addr@, chan_name@) == Ok::<
                Seq<char>,
                Seq<char>,
            >(post.slack_channel_id@) && post.request@ == clients@[addr@].slack.call(
                "chat.postMessage"@,
                seq![
                    ("channel"@, post.slack_channel_id@),
                    ("text"@, message_text(params@.map_values(|param: String| param@))),
                    ("as_user"@, "true"@),
                ],
            ),
            Err(error) => channel_message_target(channels@, clients@, addr@, chan_name@) is Err
                && error.is(
                ErrorKind::MappingNotFound,
                channel_message_target(channels@, clients@, addr@, chan_name@)->Err_0,
            ),
        },
{
    let msg_text = text_of_message(params);
    let channel_id = match get_channel_id(channels, chan_name) {
        Some(channel_id) => channel_id,
        None => {
            return Err(
                GatewayError::new(
                    ErrorKind::MappingNotFound,
                    "Couldn't find matching Slack channel for IRC message".to_owned(),
                ),
            );
        },
    };
    let client = match clients.get(addr) {
        Some(client) => client,
        None => {
            return Err(
                GatewayError::new(
                    ErrorKind::MappingNotFound,
                    "Client sent message, but isn't in our list!".to_owned(),
                ),
            );
        },
    };
    let request = client.slack.post_message(channel_id.as_str(), msg_text.as_str());
    Ok(OutboundPost { slack_channel_id: channel_id, request })
}

/// What the answer to a posted message comes to: the timestamp that Slack gave it, or the
/// message of the failure.
pub open spec fn posted_timestamp(status: u16, body: Seq<u8>) -> Result<Seq<char>, Seq<char>> {
    match response_json(status, body) {
        Err(reason) => Err(reason),
        Ok(json) => match string_member(json, "ts"@) {
            Some(ts) => Ok(ts),
            None => Err("Response carries no message timestamp"@),
        },
    }
}

/// Slack answered the post of a message to `slack_channel_id` with the status `status` and
/// the body `body`. When the post succeeded, its timestamp is recorded as a pending echo of
/// the channel, so that the event that brings the message back is not relayed again. When it
/// failed, nothing is recorded.
pub fn on_client_message_posted<C>(
    channels: &mut Channels<C>,
    slack_channel_id: &str,
    status: u16,
    body: &[u8],
) -> (result: Result<bool, GatewayError>)
    ensures
        match result {
            Ok(accepted) => accepted && posted_timestamp(status, body@) is Ok && final(channels)@
                == after_mark(
                old(channels)@,
                slack_channel_id@,
                posted_timestamp(status, body@)->Ok_0,
            ),
            Err(error) => posted_timestamp(status, body@) is Err && final(channels)@
                == old(channels)@ && error.is(
                ErrorKind::Api,
                posted_timestamp(status, body@)->Err_0,
            ),
        },
{
    let json = match SlackHttpClient::api_response(status, body) {
        Ok(json) => json,
        Err(error) => {
            return Err(error);
        },
    };
    let msg_ts = match Slack::post_message_result(&json) {
        Ok(msg_ts) => msg_ts,
        Err(error) => {
            return Err(error);
        },
    };
    mark_message_from_irc(channels, slack_channel_id, msg_ts);
    Ok(true)
}

} // verus!

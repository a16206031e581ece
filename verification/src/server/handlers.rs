//! The handlers of the webhook endpoint, one for each type of request.
use crate::channels::{
    ack_message_from_irc, after_ack, after_mark, get_irc_channel_name, is_pending,
    lemma_ack_keeps_others, lemma_marked_echo_is_pending, Binding, Channels,
};
use crate::json::{
    get_object, get_string, json_member, member, object_member, string_member,
};
use crate::server::{
    accepted, bad_request, only_reply, reply_with, IrcMessage, IrcMessageView, Outcome,
    OutcomeView, Relay, RelayView, Reply, SlackAppServer, SlackAppServerState,
};
use crate::text::same_text;
use crate::users::{display_name, shown_name, Usernames};
use vstd::prelude::*;
use vstd::string::StringExecFns;

verus! {

/// The outcome of a request that asks the endpoint to prove itself: the challenge comes back
/// as the body.
pub open spec fn url_verification_outcome(json: serde_json::Value) -> OutcomeView {
    match string_member(json, "challenge"@) {
        Some(challenge) => only_reply(200, challenge),
        None => bad_request("Missing or invalid challenge field in request"@),
    }
}

/// The message that shows `text`, written by `name` on Slack, in the IRC channel `irc_channel`.
pub open spec fn privmsg(name: Seq<char>, irc_channel: Seq<char>, text: Seq<char>) -> IrcMessageView {
    IrcMessageView {
        source: Some(name + "!~"@ + name + "@slack.com"@),
        command: "PRIVMSG"@,
        params: seq![irc_channel, text],
    }
}

/// What a Slack message comes to: nothing but an empty reply when it is the echo of a message
/// that came from IRC, or when its channel is not bound; else the delivery of the message to
/// the IRC channel that its channel is bound to, under the sender's display name.
pub open spec fn message_outcome<C>(
    bindings: Map<Seq<char>, Binding<C>>,
    usernames: Map<Seq<char>, Seq<char>>,
    channel: Seq<char>,
    user: Seq<char>,
    text: Seq<char>,
    ts: Seq<char>,
) -> OutcomeView {
    if is_pending(bindings, channel, ts) || !bindings.contains_key(channel) {
        accepted()
    } else {
        OutcomeView {
            reply: accepted().reply,
            relay: Some(
                RelayView {
                    slack_channel_id: channel,
                    message: privmsg(
                        shown_name(usernames, user),
                        bindings[channel].irc_channel_name,
                        text,
                    ),
                },
            ),
        }
    }
}

/// What the registry holds after a Slack message: its timestamp is no longer a pending echo
/// of its channel.
pub open spec fn message_bindings<C>(
    bindings: Map<Seq<char>, Binding<C>>,
    channel: Seq<char>,
    ts: Seq<char>,
) -> Map<Seq<char>, Binding<C>> {
    after_ack(bindings, channel, ts)
}

/// Whether a message event is one to relay: it has no subtype, and its channel, user, text and
/// timestamp are strings.
pub open spec fn is_plain_message(event: serde_json::Value) -> bool {
    &&& json_member(event, "subtype"@) is None
    &&& string_member(event, "channel"@) is Some
    &&& string_member(event, "user"@) is Some
    &&& string_member(event, "text"@) is Some
    &&& string_member(event, "ts"@) is Some
}

/// What a message event comes to. One with a subtype is acknowledged and ignored; one that
/// lacks a field is malformed; any other is a Slack message.
pub open spec fn message_event_outcome<C>(
    bindings: Map<Seq<char>, Binding<C>>,
    usernames: Map<Seq<char>, Seq<char>>,
    event: serde_json::Value,
) -> OutcomeView {
    if json_member(event, "subtype"@) is Some {
        accepted()
    } else if string_member(event, "channel"@) is None {
        bad_request("Missing or invalid channel field in message event"@)
    } else if string_member(event, "user"@) is None {
        bad_request("Missing or invalid user field in message event"@)
    } else if string_member(event, "text"@) is None {
        bad_request("Missing or invalid text field in message event"@)
    } else if string_member(event, "ts"@) is None {
        bad_request("Missing or invalid ts field in message event"@)
    } else {
        message_outcome(
            bindings,
            usernames,
            string_member(event, "channel"@)->Some_0,
            string_member(event, "user"@)->Some_0,
            string_member(event, "text"@)->Some_0,
            string_member(event, "ts"@)->Some_0,
        )
    }
}

/// What the registry holds after a message event.
pub open spec fn message_event_bindings<C>(
    bindings: Map<Seq<char>, Binding<C>>,
    event: serde_json::Value,
) -> Map<Seq<char>, Binding<C>> {
    if is_plain_message(event) {
        message_bindings(
            bindings,
            string_member(event, "channel"@)->Some_0,
            string_member(event, "ts"@)->Some_0,
        )
    } else {
        bindings
    }
}

/// Whether an event callback carries a message event.
pub open spec fn carries_message(json: serde_json::Value) -> bool {
    object_member(json, "event"@) matches Some(event) && string_member(event, "type"@) == Some(
        "message"@,
    )
}

/// What an event callback comes to. Without an event object, or with one without a type, it is
/// malformed; a message event is handled; any other event is acknowledged and ignored.
pub open spec fn event_callback_outcome<C>(
    bindings: Map<Seq<char>, Binding<C>>,
    usernames: Map<Seq<char>, Seq<char>>,
    json: serde_json::Value,
) -> OutcomeView {
    match object_member(json, "event"@) {
        None => bad_request("Missing or invalid event field in request"@),
        Some(event) => match string_member(event, "type"@) {
            None => bad_request("Missing or invalid event callback type field in request"@),
            Some(event_type) => if event_type == "message"@ {
                message_event_outcome(bindings, usernames, event)
            } else {
                accepted()
            },
        },
    }
}

/// What the registry holds after an event callback.
pub open spec fn event_callback_bindings<C>(
    bindings: Map<Seq<char>, Binding<C>>,
    json: serde_json::Value,
) -> Map<Seq<char>, Binding<C>> {
    if carries_message(json) {
        message_event_bindings(bindings, object_member(json, "event"@)->Some_0)
    } else {
        bindings
    }
}

/// Echo suppression. After the gateway posted a message to a bound channel and recorded its
/// timestamp, the event that brings that timestamp back is not relayed. An event of the same
/// channel with another timestamp, one that was not pending, is relayed, whether it comes
/// before the echo or after it.
pub proof fn lemma_echo_is_suppressed<C>(
    bindings: Map<Seq<char>, Binding<C>>,
    usernames: Map<Seq<char>, Seq<char>>,
    channel: Seq<char>,
    user: Seq<char>,
    text: Seq<char>,
    ts: Seq<char>,
    other_ts: Seq<char>,
)
    requires
        bindings.contains_key(channel),
        other_ts != ts,
        !is_pending(bindings, channel, other_ts),
    ensures
        message_outcome(after_mark(bindings, channel, ts), usernames, channel, user, text, ts).relay is None,
        message_outcome(
            after_mark(bindings, channel, ts),
            usernames,
            channel,
            user,
            text,
            other_ts,
        ).relay is Some,
        message_outcome(
            message_bindings(after_mark(bindings, channel, ts), channel, ts),
            usernames,
            channel,
            user,
            text,
            other_ts,
        ).relay is Some,
{
    lemma_marked_echo_is_pending(bindings, channel, ts, other_ts);
    let posted = after_mark(bindings, channel, ts);
    lemma_ack_keeps_others(posted[channel].msgs_from_irc, ts);
}

impl SlackAppServer {
    /// Answers a request that asks the endpoint to prove itself.
    pub fn handle_url_verification(_state: &SlackAppServerState, json: &serde_json::Value) -> (outcome:
        Outcome)
        ensures
            outcome@ == url_verification_outcome(*json),
    {
        match get_string(json, "challenge") {
            Some(challenge) => reply_with(200, challenge.to_owned()),
            None => reply_with(400, "Missing or invalid challenge field in request".to_owned()),
        }
    }

    /// Handles an event callback.
    pub fn handle_event_callback<C>(
        state: &SlackAppServerState,
        channels: &mut Channels<C>,
        usernames: &Usernames,
        json: &serde_json::Value,
    ) -> (outcome: Outcome)
        ensures
            outcome@ == event_callback_outcome(old(channels)@, usernames@, *json),
            final(channels)@ == event_callback_bindings(old(channels)@, *json),
    {
        let event_object = match get_object(json, "event") {
            Some(event_object) => event_object,
            None => {
                return reply_with(400, "Missing or invalid event field in request".to_owned());
            },
        };
        let event_type = match get_string(event_object, "type") {
            Some(event_type) => event_type,
            None => {
                return reply_with(
                    400,
                    "Missing or invalid event callback type field in request".to_owned(),
                );
            },
        };
        if same_text(event_type, "message") {
            Self::handle_message_event_callback(state, channels, usernames, event_object)
        } else {
            reply_with(200, String::new())
        }
    }

    /// Handles a message event.
    pub fn handle_message_event_callback<C>(
        _state: &SlackAppServerState,
        channels: &mut Channels<C>,
        usernames: &Usernames,
        event_object: &serde_json::Value,
    ) -> (outcome: Outcome)
        ensures
            outcome@ == message_event_outcome(old(channels)@, usernames@, *event_object),
            final(channels)@ == message_event_bindings(old(channels)@, *event_object),
    {
        if member(event_object, "subtype").is_some() {
            return reply_with(200, String::new());
        }
        let channel = match get_string(event_object, "channel") {
            Some(channel) => channel,
            None => {
                return reply_with(
                    400,
                    "Missing or invalid channel field in message event".to_owned(),
                );
            },
        };
        let user = match get_string(event_object, "user") {
            Some(user) => user,
            None => {
                return reply_with(400, "Missing or invalid user field in message event".to_owned());
            },
        };
        let text = match get_string(event_object, "text") {
            Some(text) => text,
            None => {
                return reply_with(400, "Missing or invalid text field in message event".to_owned());
            },
        };
        let ts = match get_string(event_object, "ts") {
            Some(ts) => ts,
            None => {
                return reply_with(400, "Missing or invalid ts field in message event".to_owned());
            },
        };
        Self::relay_message(channels, usernames, channel, user, text, ts)
    }

    /// Handles the Slack message `text`, which `user` wrote in `channel` and which Slack stamped
    /// `ts`. When `ts` is a pending echo of `channel`, the message came from IRC: the echo is
    /// consumed and nothing is relayed. Else the message is relayed to the IRC channel that
    /// `channel` is bound to, or dropped if there is none. The reply is empty either way.
    pub fn relay_message<C>(
        channels: &mut Channels<C>,
        usernames: &Usernames,
        channel: &str,
        user: &str,
        text: &str,
        ts: &str,
    ) -> (outcome: Outcome)
        ensures
            outcome@ == message_outcome(old(channels)@, usernames@, channel@, user@, text@, ts@),
            final(channels)@ == message_bindings(old(channels)@, channel@, ts@),
            outcome.reply@ == accepted().reply,
            outcome.relay is None <==> is_pending(old(channels)@, channel@, ts@)
                || !old(channels)@.contains_key(channel@),
    {
        if ack_message_from_irc(channels, channel, ts) {
            return reply_with(200, String::new());
        }
        let username = display_name(usernames, user);
        match get_irc_channel_name(channels, channel) {
            Some(irc_channel_name) => {
                let mut source = username.clone();
                source.append("!~");
                source.append(username.as_str());
                source.append("@slack.com");
                let mut params: Vec<String> = Vec::new();
                params.push(irc_channel_name);
                params.push(text.to_owned());
                let message = IrcMessage {
                    source: Some(source),
                    command: "PRIVMSG".to_owned(),
                    params,
                };
                assert(message@.params =~= seq![irc_channel_name@, text@]);
                let outcome = Outcome {
                    reply: Reply { status: 200, body: String::new() },
                    relay: Some(Relay { slack_channel_id: channel.to_owned(), message }),
                };
                outcome
            },
            None => reply_with(200, String::new()),
        }
    }
}

} // verus!

//! The webhook endpoint: what the gateway answers to a request from Slack, and what it relays
//! to IRC. The HTTP transport is the caller's; this module takes the request's body and gives
//! back the reply to send and the message to deliver.
use crate::channels::{Binding, Channels};
use crate::error::{ErrorKind, GatewayError};
use crate::json::{decode, get_string, json_document, json_text, string_member, text};
use crate::text::{concat, same_text};
use crate::users::Usernames;
use vstd::prelude::*;

mod handlers;

pub use handlers::{
    carries_message, event_callback_bindings, event_callback_outcome, is_plain_message,
    lemma_echo_is_suppressed, message_bindings, message_event_bindings, message_event_outcome,
    message_outcome, privmsg, url_verification_outcome,
};

verus! {

/// What the endpoint needs to know: the token that Slack puts into every request.
pub struct SlackAppServerState {
    verif_token: String,
}

impl SlackAppServerState {
    #[verifier::type_invariant]
    spec fn token_not_empty(self) -> bool {
        self.verif_token@.len() > 0
    }

    /// The verification token.
    pub closed spec fn token(self) -> Seq<char> {
        self.verif_token@
    }

    /// Reads the verification token, which is never empty.
    pub fn verif_token(&self) -> (token: &str)
        ensures
            token@ == self.token(),
            token@.len() > 0,
    {
        proof {
            use_type_invariant(self);
        }
        self.verif_token.as_str()
    }

    /// The state of an endpoint that accepts `verif_token`. An empty token is a configuration
    /// error: every request without a usable token would pass.
    pub fn new(verif_token: String) -> (state: Result<SlackAppServerState, GatewayError>)
        ensures
            match state {
                Ok(state) => verif_token@.len() > 0 && state.token() == verif_token@,
                Err(error) => verif_token@.len() == 0 && error.is(
                    ErrorKind::Config,
                    "Slack app verification token must not be empty, check the server config"@,
                ),
            },
    {
        if verif_token.as_str().is_empty() {
            Err(
                GatewayError::new(
                    ErrorKind::Config,
                    "Slack app verification token must not be empty, check the server config".to_owned(),
                ),
            )
        } else {
            Ok(SlackAppServerState { verif_token })
        }
    }
}

/// The webhook endpoint.
pub struct SlackAppServer;

/// An HTTP reply: the status code and the body, which is plain text. Its `Content-Length` is
/// the length of the body.
#[derive(Debug)]
pub struct Reply {
    pub status: u16,
    pub body: String,
}

/// A reply, as its code and the characters of its body.
pub struct ReplyView {
    pub status: u16,
    pub body: Seq<char>,
}

impl View for Reply {
    type V = ReplyView;

    open spec fn view(&self) -> ReplyView {
        ReplyView { status: self.status, body: self.body@ }
    }
}

/// An IRC message for the members of a channel.
#[derive(Debug)]
pub struct IrcMessage {
    pub source: Option<String>,
    pub command: String,
    pub params: Vec<String>,
}

/// An IRC message, as the characters of its parts.
pub struct IrcMessageView {
    pub source: Option<Seq<char>>,
    pub command: Seq<char>,
    pub params: Seq<Seq<char>>,
}

impl View for IrcMessage {
    type V = IrcMessageView;

    open spec fn view(&self) -> IrcMessageView {
        IrcMessageView {
            source: match self.source {
                Some(source) => Some(source@),
                None => None,
            },
            command: self.command@,
            params: self.params@.map_values(|param: String| param@),
        }
    }
}

/// A message to deliver into the IRC channel that a Slack channel is bound to.
#[derive(Debug)]
pub struct Relay {
    pub slack_channel_id: String,
    pub message: IrcMessage,
}

/// A delivery, as the characters of its parts.
pub struct RelayView {
    pub slack_channel_id: Seq<char>,
    pub message: IrcMessageView,
}

impl View for Relay {
    type V = RelayView;

    open spec fn view(&self) -> RelayView {
        RelayView { slack_channel_id: self.slack_channel_id@, message: self.message@ }
    }
}

/// What handling one request comes to: the reply for Slack, and the message to deliver to IRC
/// if there is one. The reply does not wait for the delivery.
#[derive(Debug)]
pub struct Outcome {
    pub reply: Reply,
    pub relay: Option<Relay>,
}

/// An outcome, as the characters of its parts.
pub struct OutcomeView {
    pub reply: ReplyView,
    pub relay: Option<RelayView>,
}

impl View for Outcome {
    type V = OutcomeView;

    open spec fn view(&self) -> OutcomeView {
        OutcomeView {
            reply: self.reply@,
            relay: match self.relay {
                Some(relay) => Some(relay@),
                None => None,
            },
        }
    }
}

/// The outcome that only replies, with `status` and `body`.
pub open spec fn only_reply(status: u16, body: Seq<char>) -> OutcomeView {
    OutcomeView { reply: ReplyView { status, body }, relay: None }
}

/// The outcome of a request that needs nothing more: an empty reply with status 200.
pub open spec fn accepted() -> OutcomeView {
    only_reply(200, Seq::empty())
}

/// The outcome of a request that is malformed: status 400 with the reason as its body.
pub open spec fn bad_request(reason: Seq<char>) -> OutcomeView {
    only_reply(400, reason)
}

/// The outcome of a request without the right token: status 403.
pub open spec fn forbidden() -> OutcomeView {
    only_reply(403, "Invalid or missing verification token"@)
}

/// Whether `json` carries the verification token `token`.
pub open spec fn authentic(token: Seq<char>, json: serde_json::Value) -> bool {
    string_member(json, "token"@) == Some(token)
}

/// What the document `json` of a request comes to, while `bindings` and `usernames` are what
/// the registries hold: an outcome, or the failure for a type of request that is not handled.
pub open spec fn document_outcome<C>(
    token: Seq<char>,
    bindings: Map<Seq<char>, Binding<C>>,
    usernames: Map<Seq<char>, Seq<char>>,
    json: serde_json::Value,
) -> Result<OutcomeView, Seq<char>> {
    if !authentic(token, json) {
        Ok(forbidden())
    } else {
        match string_member(json, "type"@) {
            None => Ok(bad_request("Missing or invalid type field in request"@)),
            Some(event_type) => if event_type == "url_verification"@ {
                Ok(url_verification_outcome(json))
            } else if event_type == "event_callback"@ {
                Ok(event_callback_outcome(bindings, usernames, json))
            } else {
                Err("Received unhandled event: "@ + json_text(json))
            },
        }
    }
}

/// What the registry of channels holds after the document `json` of a request was handled.
pub open spec fn document_bindings<C>(
    token: Seq<char>,
    bindings: Map<Seq<char>, Binding<C>>,
    json: serde_json::Value,
) -> Map<Seq<char>, Binding<C>> {
    if !authentic(token, json) {
        bindings
    } else if string_member(json, "type"@) == Some("url_verification"@) {
        bindings
    } else if string_member(json, "type"@) == Some("event_callback"@) {
        event_callback_bindings(bindings, json)
    } else {
        bindings
    }
}

/// What a request with the body `payload` comes to: status 400 for a body that is not JSON
/// text, else what its document comes to.
pub open spec fn request_outcome<C>(
    token: Seq<char>,
    bindings: Map<Seq<char>, Binding<C>>,
    usernames: Map<Seq<char>, Seq<char>>,
    payload: Seq<u8>,
) -> Result<OutcomeView, Seq<char>> {
    match json_document(payload) {
        None => Ok(bad_request("Invalid JSON in request"@)),
        Some(json) => document_outcome(token, bindings, usernames, json),
    }
}

/// What the registry of channels holds after a request with the body `payload` was handled.
pub open spec fn request_bindings<C>(
    token: Seq<char>,
    bindings: Map<Seq<char>, Binding<C>>,
    payload: Seq<u8>,
) -> Map<Seq<char>, Binding<C>> {
    match json_document(payload) {
        None => bindings,
        Some(json) => document_bindings(token, bindings, json),
    }
}

/// Whether `result` is what the model `expected` says.
pub open spec fn agrees(
    result: Result<Outcome, GatewayError>,
    expected: Result<OutcomeView, Seq<char>>,
) -> bool {
    match result {
        Ok(outcome) => expected == Ok::<OutcomeView, Seq<char>>(outcome@),
        Err(error) => expected is Err && error.is(ErrorKind::UnhandledEvent, expected->Err_0),
    }
}

/// The outcome that only replies, with `status` and `body`.
pub fn reply_with(status: u16, body: String) -> (outcome: Outcome)
    ensures
        outcome@ == only_reply(status, body@),
{
    Outcome { reply: Reply { status, body }, relay: None }
}

impl SlackAppServer {
    /// Handles the document of a request: checks the token, then goes by the type of the
    /// request. A request without the right token changes nothing and relays nothing.
    pub fn process_document<C>(
        state: &SlackAppServerState,
        channels: &mut Channels<C>,
        usernames: &Usernames,
        json: &serde_json::Value,
    ) -> (result: Result<Outcome, GatewayError>)
        ensures
            agrees(result, document_outcome(state.token(), old(channels)@, usernames@, *json)),
            final(channels)@ == document_bindings(state.token(), old(channels)@, *json),
            !authentic(state.token(), *json) ==> final(channels)@ == old(channels)@ && (
            result matches Ok(outcome) && outcome.relay is None && outcome.reply.status == 403),
    {
        let authentic = match get_string(json, "token") {
            Some(token) => same_text(token, state.verif_token.as_str()),
            None => false,
        };
        if !authentic {
            return Ok(reply_with(403, "Invalid or missing verification token".to_owned()));
        }
        let event_type = match get_string(json, "type") {
            Some(event_type) => event_type,
            None => {
                return Ok(reply_with(400, "Missing or invalid type field in request".to_owned()));
            },
        };
        if same_text(event_type, "url_verification") {
            Ok(Self::handle_url_verification(state, json))
        } else if same_text(event_type, "event_callback") {
            Ok(Self::handle_event_callback(state, channels, usernames, json))
        } else {
            let written = text(json);
            Err(
                GatewayError::new(
                    ErrorKind::UnhandledEvent,
                    concat("Received unhandled event: ", written.as_str()),
                ),
            )
        }
    }

    /// Handles a request with the body `payload`. A body that is not JSON text is answered with
    /// status 400, a request without the right token with status 403; neither changes or
    /// relays anything.
    pub fn try_process_request<C>(
        state: &SlackAppServerState,
        channels: &mut Channels<C>,
        usernames: &Usernames,
        payload: &[u8],
    ) -> (result: Result<Outcome, GatewayError>)
        ensures
            agrees(result, request_outcome(state.token(), old(channels)@, usernames@, payload@)),
            final(channels)@ == request_bindings(state.token(), old(channels)@, payload@),
            json_document(payload@) matches Some(json) && !authentic(state.token(), json)
                ==> final(channels)@ == old(channels)@ && (result matches Ok(outcome)
                && outcome.relay is None && outcome.reply.status == 403),
    {
        match decode(payload) {
            Ok(json) => Self::process_document(state, channels, usernames, &json),
            Err(_) => Ok(reply_with(400, "Invalid JSON in request".to_owned())),
        }
    }

    /// Handles a request with the body `payload`, and answers a request of a type that is not
    /// handled with an empty reply. The failure comes back beside the outcome, for the log.
    pub fn slack_service<C>(
        state: &SlackAppServerState,
        channels: &mut Channels<C>,
        usernames: &Usernames,
        payload: &[u8],
    ) -> (served: (Outcome, Option<GatewayError>))
        ensures
            match request_outcome(state.token(), old(channels)@, usernames@, payload@) {
                Ok(expected) => served.0@ == expected && served.1 is None,
                Err(reason) => served.0@ == accepted() && served.1 is Some && served.1->Some_0.is(
                    ErrorKind::UnhandledEvent,
                    reason,
                ),
            },
            final(channels)@ == request_bindings(state.token(), old(channels)@, payload@),
    {
        match Self::try_process_request(state, channels, usernames, payload) {
            Ok(outcome) => (outcome, None),
            Err(error) => (reply_with(200, String::new()), Some(error)),
        }
    }
}

} // verus!

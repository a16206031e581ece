use rirc_slack::channels::{
    ack_message_from_irc, mark_message_from_irc, register_channel, Channels,
};
use rirc_slack::error::ErrorKind;
use rirc_slack::server::{Outcome, SlackAppServer, SlackAppServerState};
use rirc_slack::users::{register_username, Usernames};

const TOKEN: &str = "s3cr3t";

fn state() -> SlackAppServerState {
    SlackAppServerState::new(TOKEN.to_owned()).unwrap()
}

fn registries() -> (Channels<u32>, Usernames) {
    let mut channels: Channels<u32> = Channels::new();
    register_channel(&mut channels, "C01".to_owned(), "#general".to_owned(), 1);
    let mut usernames = Usernames::new();
    register_username(&mut usernames, "U01".to_owned(), "alice".to_owned());
    (channels, usernames)
}

fn post(channels: &mut Channels<u32>, usernames: &Usernames, payload: &str) -> Outcome {
    SlackAppServer::try_process_request(&state(), channels, usernames, payload.as_bytes()).unwrap()
}

fn message_event(channel: &str, user: &str, text: &str, ts: &str) -> String {
    format!(
        "{{\"token\":\"{}\",\"type\":\"event_callback\",\"event\":{{\"type\":\"message\",\"channel\":\"{}\",\"user\":\"{}\",\"text\":\"{}\",\"ts\":\"{}\"}}}}",
        TOKEN, channel, user, text, ts
    )
}

fn assert_reply(outcome: &Outcome, status: u16, body: &str) {
    assert_eq!(outcome.reply.status, status);
    assert_eq!(outcome.reply.body, body);
}

#[test]
fn empty_verification_token_is_a_configuration_error() {
    let error = SlackAppServerState::new(String::new()).err().unwrap();
    assert_eq!(error.kind, ErrorKind::Config);
    assert_eq!(
        error.message,
        "Slack app verification token must not be empty, check the server config"
    );
    assert_eq!(error.to_string(), error.message);
    assert!(SlackAppServerState::new("x".to_owned()).is_ok());
    assert_eq!(state().verif_token(), TOKEN);
}

#[test]
fn malformed_json_is_a_bad_request() {
    let (mut channels, usernames) = registries();
    let outcome = post(&mut channels, &usernames, "{not json");
    assert_reply(&outcome, 400, "Invalid JSON in request");
    assert!(outcome.relay.is_none());
    let outcome = post(&mut channels, &usernames, "");
    assert_reply(&outcome, 400, "Invalid JSON in request");
}

#[test]
fn wrong_token_is_forbidden_whatever_the_payload() {
    let (mut channels, usernames) = registries();
    mark_message_from_irc(&mut channels, "C01", "1.000".to_owned());
    let payloads = [
        "{\"token\":\"wrong\",\"type\":\"url_verification\",\"challenge\":\"abc123\"}".to_owned(),
        "{\"type\":\"url_verification\",\"challenge\":\"abc123\"}".to_owned(),
        "{\"token\":42,\"type\":\"event_callback\"}".to_owned(),
        "{\"token\":null}".to_owned(),
        "{\"token\":\"\"}".to_owned(),
        "{}".to_owned(),
        "[]".to_owned(),
        "\"s3cr3t\"".to_owned(),
        "17".to_owned(),
        message_event("C01", "U01", "hello", "1.000").replace(TOKEN, "S3CR3T"),
        message_event("C01", "U01", "hello", "2.000").replace(TOKEN, "s3cr3t "),
    ];
    for payload in payloads.iter() {
        let outcome = post(&mut channels, &usernames, payload);
        assert_reply(&outcome, 403, "Invalid or missing verification token");
        assert!(outcome.relay.is_none());
    }
    // The pending echo was not consumed by any of them.
    assert!(ack_message_from_irc(&mut channels, "C01", "1.000"));
}

#[test]
fn url_verification_echoes_the_challenge() {
    let (mut channels, usernames) = registries();
    let outcome = post(
        &mut channels,
        &usernames,
        "{\"token\": \"s3cr3t\", \"type\": \"url_verification\", \"challenge\": \"abc123\"}",
    );
    assert_reply(&outcome, 200, "abc123");
    assert!(outcome.relay.is_none());
}

#[test]
fn url_verification_without_a_challenge_is_a_bad_request() {
    let (mut channels, usernames) = registries();
    let outcome =
        post(&mut channels, &usernames, "{\"token\":\"s3cr3t\",\"type\":\"url_verification\"}");
    assert_reply(&outcome, 400, "Missing or invalid challenge field in request");
    let outcome = post(
        &mut channels,
        &usernames,
        "{\"token\":\"s3cr3t\",\"type\":\"url_verification\",\"challenge\":7}",
    );
    assert_reply(&outcome, 400, "Missing or invalid challenge field in request");
}

#[test]
fn missing_type_is_a_bad_request() {
    let (mut channels, usernames) = registries();
    let outcome = post(&mut channels, &usernames, "{\"token\":\"s3cr3t\"}");
    assert_reply(&outcome, 400, "Missing or invalid type field in request");
    let outcome = post(&mut channels, &usernames, "{\"token\":\"s3cr3t\",\"type\":[]}");
    assert_reply(&outcome, 400, "Missing or invalid type field in request");
}

#[test]
fn unhandled_type_is_an_error_and_answered_empty() {
    let (mut channels, usernames) = registries();
    let payload = "{\"token\":\"s3cr3t\",\"type\":\"app_rate_limited\"}";
    let error = SlackAppServer::try_process_request(
        &state(),
        &mut channels,
        &usernames,
        payload.as_bytes(),
    )
    .err()
    .unwrap();
    assert_eq!(error.kind, ErrorKind::UnhandledEvent);
    assert_eq!(
        error.message,
        "Received unhandled event: {\"token\":\"s3cr3t\",\"type\":\"app_rate_limited\"}"
    );
    let (outcome, failure) =
        SlackAppServer::slack_service(&state(), &mut channels, &usernames, payload.as_bytes());
    assert_reply(&outcome, 200, "");
    assert!(outcome.relay.is_none());
    assert_eq!(failure.unwrap().message, error.message);
}

#[test]
fn slack_service_passes_replies_through() {
    let (mut channels, usernames) = registries();
    let (outcome, failure) =
        SlackAppServer::slack_service(&state(), &mut channels, &usernames, b"{\"token\":\"no\"}");
    assert_reply(&outcome, 403, "Invalid or missing verification token");
    assert!(failure.is_none());
    let (outcome, failure) = SlackAppServer::slack_service(
        &state(),
        &mut channels,
        &usernames,
        message_event("C01", "U01", "hi", "5.000").as_bytes(),
    );
    assert_reply(&outcome, 200, "");
    assert!(outcome.relay.is_some());
    assert!(failure.is_none());
}

#[test]
fn event_callback_needs_an_event_object_with_a_type() {
    let (mut channels, usernames) = registries();
    let outcome =
        post(&mut channels, &usernames, "{\"token\":\"s3cr3t\",\"type\":\"event_callback\"}");
    assert_reply(&outcome, 400, "Missing or invalid event field in request");
    let outcome = post(
        &mut channels,
        &usernames,
        "{\"token\":\"s3cr3t\",\"type\":\"event_callback\",\"event\":\"message\"}",
    );
    assert_reply(&outcome, 400, "Missing or invalid event field in request");
    let outcome = post(
        &mut channels,
        &usernames,
        "{\"token\":\"s3cr3t\",\"type\":\"event_callback\",\"event\":{}}",
    );
    assert_reply(&outcome, 400, "Missing or invalid event callback type field in request");
}

#[test]
fn other_events_are_acknowledged_and_ignored() {
    let (mut channels, usernames) = registries();
    let outcome = post(
        &mut channels,
        &usernames,
        "{\"token\":\"s3cr3t\",\"type\":\"event_callback\",\"event\":{\"type\":\"reaction_added\",\"channel\":\"C01\"}}",
    );
    assert_reply(&outcome, 200, "");
    assert!(outcome.relay.is_none());
}

#[test]
fn message_with_a_subtype_is_ignored() {
    let (mut channels, usernames) = registries();
    mark_message_from_irc(&mut channels, "C01", "1.000".to_owned());
    let outcome = post(
        &mut channels,
        &usernames,
        "{\"token\":\"s3cr3t\",\"type\":\"event_callback\",\"event\":{\"type\":\"message\",\"subtype\":\"message_changed\",\"channel\":\"C01\",\"user\":\"U01\",\"text\":\"x\",\"ts\":\"1.000\"}}",
    );
    assert_reply(&outcome, 200, "");
    assert!(outcome.relay.is_none());
    assert!(ack_message_from_irc(&mut channels, "C01", "1.000"));
    // A subtype decides before the fields are looked at.
    let outcome = post(
        &mut channels,
        &usernames,
        "{\"token\":\"s3cr3t\",\"type\":\"event_callback\",\"event\":{\"type\":\"message\",\"subtype\":null}}",
    );
    assert_reply(&outcome, 200, "");
}

#[test]
fn message_fields_are_required_in_order() {
    let (mut channels, usernames) = registries();
    let cases = [
        ("{\"type\":\"message\"}", "Missing or invalid channel field in message event"),
        (
            "{\"type\":\"message\",\"channel\":5,\"user\":\"U01\",\"text\":\"x\",\"ts\":\"1\"}",
            "Missing or invalid channel field in message event",
        ),
        (
            "{\"type\":\"message\",\"channel\":\"C01\"}",
            "Missing or invalid user field in message event",
        ),
        (
            "{\"type\":\"message\",\"channel\":\"C01\",\"user\":\"U01\",\"ts\":\"1\"}",
            "Missing or invalid text field in message event",
        ),
        (
            "{\"type\":\"message\",\"channel\":\"C01\",\"user\":\"U01\",\"text\":\"x\",\"ts\":1.5}",
            "Missing or invalid ts field in message event",
        ),
    ];
    for (event, reason) in cases.iter() {
        let payload =
            format!("{{\"token\":\"s3cr3t\",\"type\":\"event_callback\",\"event\":{}}}", event);
        let outcome = post(&mut channels, &usernames, &payload);
        assert_reply(&outcome, 400, reason);
        assert!(outcome.relay.is_none());
    }
}

#[test]
fn slack_message_is_relayed_under_the_display_name() {
    let (mut channels, usernames) = registries();
    let outcome =
        post(&mut channels, &usernames, &message_event("C01", "U01", "hello there", "3.000"));
    assert_reply(&outcome, 200, "");
    let relay = outcome.relay.unwrap();
    assert_eq!(relay.slack_channel_id, "C01");
    assert_eq!(relay.message.source, Some("alice!~alice@slack.com".to_owned()));
    assert_eq!(relay.message.command, "PRIVMSG");
    assert_eq!(relay.message.params, vec!["#general".to_owned(), "hello there".to_owned()]);
}

#[test]
fn unknown_user_is_relayed_under_the_user_id() {
    let (mut channels, usernames) = registries();
    let outcome = post(&mut channels, &usernames, &message_event("C01", "U42", "hi", "3.000"));
    let relay = outcome.relay.unwrap();
    assert_eq!(relay.message.source, Some("U42!~U42@slack.com".to_owned()));
}

#[test]
fn message_for_an_unbound_channel_is_dropped() {
    let (mut channels, usernames) = registries();
    let outcome = post(&mut channels, &usernames, &message_event("C99", "U01", "hi", "3.000"));
    assert_reply(&outcome, 200, "");
    assert!(outcome.relay.is_none());
}

#[test]
fn echo_of_a_posted_message_is_suppressed_and_the_next_is_delivered() {
    let (mut channels, usernames) = registries();
    mark_message_from_irc(&mut channels, "C01", "1700000000.000200".to_owned());
    let outcome = post(
        &mut channels,
        &usernames,
        &message_event("C01", "U01", "from irc", "1700000000.000200"),
    );
    assert_reply(&outcome, 200, "");
    assert!(outcome.relay.is_none());
    let outcome = post(
        &mut channels,
        &usernames,
        &message_event("C01", "U01", "from slack", "1700000000.000300"),
    );
    assert_reply(&outcome, 200, "");
    assert!(outcome.relay.is_some());
    // The echo was consumed: the same timestamp again is a message like any other.
    let outcome = post(
        &mut channels,
        &usernames,
        &message_event("C01", "U01", "from irc", "1700000000.000200"),
    );
    assert!(outcome.relay.is_some());
}

#[test]
fn evicted_echo_is_not_suppressed() {
    let (mut channels, usernames) = registries();
    for i in 0..65 {
        mark_message_from_irc(&mut channels, "C01", format!("{}.000", i));
    }
    let outcome = post(&mut channels, &usernames, &message_event("C01", "U01", "old", "0.000"));
    assert!(outcome.relay.is_some());
    let outcome = post(&mut channels, &usernames, &message_event("C01", "U01", "new", "64.000"));
    assert!(outcome.relay.is_none());
}

#[test]
fn relay_message_takes_plain_values() {
    let (mut channels, usernames) = registries();
    mark_message_from_irc(&mut channels, "C01", "9.000".to_owned());
    let outcome =
        SlackAppServer::relay_message(&mut channels, &usernames, "C01", "U01", "x", "9.000");
    assert_reply(&outcome, 200, "");
    assert!(outcome.relay.is_none());
    let outcome =
        SlackAppServer::relay_message(&mut channels, &usernames, "C01", "U01", "x", "9.000");
    let relay = outcome.relay.unwrap();
    assert_eq!(relay.message.params, vec!["#general".to_owned(), "x".to_owned()]);
}

#[test]
fn handlers_take_documents() {
    let (mut channels, usernames) = registries();
    let json: serde_json::Value =
        serde_json::from_str("{\"challenge\":\"xyz\",\"event\":{\"type\":\"message\"}}").unwrap();
    let outcome = SlackAppServer::handle_url_verification(&state(), &json);
    assert_reply(&outcome, 200, "xyz");
    let outcome = SlackAppServer::handle_event_callback(&state(), &mut channels, &usernames, &json);
    assert_reply(&outcome, 400, "Missing or invalid channel field in message event");
    let event = json.get("event").unwrap();
    let outcome =
        SlackAppServer::handle_message_event_callback(&state(), &mut channels, &usernames, event);
    assert_reply(&outcome, 400, "Missing or invalid channel field in message event");
    let outcome =
        SlackAppServer::process_document(&state(), &mut channels, &usernames, &json).unwrap();
    assert_reply(&outcome, 403, "Invalid or missing verification token");
}

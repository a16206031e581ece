use rirc_slack::error::ErrorKind;
use rirc_slack::slack::{
    ApiRequest, Channel, Listing, Page, Slack, SlackHttpClient, UserInfo, API_BASE,
};

fn json(text: &str) -> serde_json::Value {
    serde_json::from_str(text).unwrap()
}

fn form(request: &ApiRequest) -> Vec<(&str, &str)> {
    request.form.iter().map(|(key, value)| (key.as_str(), value.as_str())).collect()
}

fn channel_json(n: usize, member: bool) -> String {
    format!(
        "{{\"id\":\"C{}\",\"name\":\"chan{}\",\"creator\":\"U1\",\"created\":{},\"is_member\":{},\"is_channel\":true,\"is_archived\":false,\"topic\":{{\"value\":\"\"}}}}",
        n,
        n,
        1500000000 + n,
        member
    )
}

fn channels_answer(from: usize, count: usize, cursor: Option<&str>) -> String {
    let items: Vec<String> = (from..from + count).map(|n| channel_json(n, true)).collect();
    let metadata = match cursor {
        Some(cursor) => format!(",\"response_metadata\":{{\"next_cursor\":\"{}\"}}", cursor),
        None => String::new(),
    };
    format!("{{\"ok\":true,\"channels\":[{}]{}}}", items.join(","), metadata)
}

fn user_json(n: usize) -> String {
    format!(
        "{{\"id\":\"U{}\",\"team_id\":\"T1\",\"name\":\"user{}\",\"real_name\":\"User {}\",\"is_bot\":false,\"is_app_user\":false,\"deleted\":false}}",
        n, n, n
    )
}

#[test]
fn requests_go_to_the_api_with_the_bearer_token() {
    assert_eq!(API_BASE, "https://slack.com/api/");
    let client = SlackHttpClient::new("xoxp-1");
    let request = client.api_call("some.method", vec![("a".to_owned(), "b".to_owned())]);
    assert_eq!(request.url, "https://slack.com/api/some.method");
    assert_eq!(request.authorization, "Bearer xoxp-1");
    assert_eq!(form(&request), vec![("a", "b")]);
}

#[test]
fn test_requests_are_built() {
    let slack = Slack::new("xoxp-1");
    let request = slack.test_request();
    assert_eq!(request.url, "https://slack.com/api/api.test");
    assert_eq!(request.authorization, "Bearer xoxp-1");
    assert!(request.form.is_empty());
    let request = slack.test_auth();
    assert_eq!(request.url, "https://slack.com/api/auth.test");
    assert_eq!(form(&request), vec![("token", "xoxp-1")]);
}

#[test]
fn post_message_request_is_built() {
    let slack = Slack::new("xoxp-1");
    let request = slack.post_message("C01", "hello world");
    assert_eq!(request.url, "https://slack.com/api/chat.postMessage");
    assert_eq!(request.authorization, "Bearer xoxp-1");
    assert_eq!(
        form(&request),
        vec![("channel", "C01"), ("text", "hello world"), ("as_user", "true")]
    );
}

#[test]
fn listing_requests_carry_the_fixed_parameters_and_the_cursor() {
    let slack = Slack::new("xoxp-1");
    let request = slack.channels_list("");
    assert_eq!(request.url, "https://slack.com/api/channels.list");
    assert_eq!(
        form(&request),
        vec![
            ("exclude_archived", "true"),
            ("exclude_members", "true"),
            ("limit", "500"),
            ("cursor", "")
        ]
    );
    let request = slack.channels_list("dXNlcjpVMDYxTkZUVDI=");
    assert_eq!(form(&request)[3], ("cursor", "dXNlcjpVMDYxTkZUVDI="));
    let request = slack.users_list("abc");
    assert_eq!(request.url, "https://slack.com/api/users.list");
    assert_eq!(form(&request), vec![("limit", "500"), ("cursor", "abc")]);
}

#[test]
fn successful_answer_gives_its_document() {
    let document = SlackHttpClient::api_response(200, b"{\"ok\":true,\"ts\":\"1.5\"}").unwrap();
    assert_eq!(document, json("{\"ok\":true,\"ts\":\"1.5\"}"));
    assert!(SlackHttpClient::api_response(204, b"{}").is_ok());
    assert!(SlackHttpClient::api_response(299, b"{}").is_ok());
}

#[test]
fn failed_status_is_an_api_error() {
    let error = SlackHttpClient::api_response(404, b"{\"ok\":true}").err().unwrap();
    assert_eq!(error.kind, ErrorKind::Api);
    assert_eq!(error.message, "Request failed with status 404 Not Found");
    let error = SlackHttpClient::api_response(500, b"").err().unwrap();
    assert_eq!(error.message, "Request failed with status 500 Internal Server Error");
    let error = SlackHttpClient::api_response(199, b"{}").err().unwrap();
    assert_eq!(error.message, "Request failed with status 199 <unknown status code>");
    let error = SlackHttpClient::api_response(300, b"{}").err().unwrap();
    assert_eq!(error.message, "Request failed with status 300 Multiple Choices");
    let error = SlackHttpClient::api_response(42, b"{}").err().unwrap();
    assert_eq!(error.kind, ErrorKind::Api);
    assert_eq!(error.message, "Request failed with status invalid status code");
}

#[test]
fn body_that_is_not_json_is_an_api_error() {
    let error = SlackHttpClient::api_response(200, b"<html>").err().unwrap();
    assert_eq!(error.kind, ErrorKind::Api);
    assert_eq!(error.message, "JSON response could not be decoded");
}

#[test]
fn body_that_is_not_an_object_is_an_api_error() {
    for body in ["[1,2]", "\"ok\"", "null", "3"].iter() {
        let error = SlackHttpClient::api_response(200, body.as_bytes()).err().unwrap();
        assert_eq!(error.kind, ErrorKind::Api);
        assert_eq!(error.message, "JSON response is not an object");
    }
}

#[test]
fn error_member_is_an_api_error() {
    let error = SlackHttpClient::api_response(200, b"{\"ok\":false,\"error\":\"invalid_auth\"}")
        .err()
        .unwrap();
    assert_eq!(error.kind, ErrorKind::Api);
    assert_eq!(error.message, "Request failed with error \"invalid_auth\"");
    let error =
        SlackHttpClient::api_response(200, b"{\"error\":{\"code\":7}}").err().unwrap();
    assert_eq!(error.message, "Request failed with error {\"code\":7}");
    let error = SlackHttpClient::api_response(200, b"{\"error\":null}").err().unwrap();
    assert_eq!(error.message, "Request failed with error null");
}

#[test]
fn posted_message_gives_its_timestamp() {
    let ts = Slack::post_message_result(&json("{\"ok\":true,\"ts\":\"1503435956.000247\"}"));
    assert_eq!(ts.unwrap(), "1503435956.000247");
    let error = Slack::post_message_result(&json("{\"ok\":true}")).err().unwrap();
    assert_eq!(error.kind, ErrorKind::Api);
    assert_eq!(error.message, "Response carries no message timestamp");
    assert!(Slack::post_message_result(&json("{\"ts\":1503435956}")).is_err());
}

#[test]
fn channel_is_decoded_from_its_object() {
    let channel = Channel::from_json(&json(&channel_json(7, true))).unwrap();
    assert_eq!(channel.id, "C7");
    assert_eq!(channel.name, "chan7");
    assert_eq!(channel.creator, "U1");
    assert_eq!(channel.created, 1500000007);
    assert!(channel.is_member);
    assert!(channel.is_channel);
    assert!(!channel.is_archived);
}

#[test]
fn channel_with_a_missing_or_mistyped_field_is_refused() {
    let whole = channel_json(7, false);
    assert!(Channel::from_json(&json(&whole)).is_some());
    for field in ["id", "name", "creator", "created", "is_member", "is_channel", "is_archived"].iter()
    {
        let renamed = whole.replace(&format!("\"{}\":", field), "\"other\":");
        assert!(Channel::from_json(&json(&renamed)).is_none());
    }
    assert!(Channel::from_json(&json(&whole.replace("\"C7\"", "7"))).is_none());
    assert!(Channel::from_json(&json(&whole.replace("1500000007", "-1"))).is_none());
    assert!(Channel::from_json(&json(&whole.replace("1500000007", "1.5"))).is_none());
    assert!(Channel::from_json(&json(&whole.replace("false", "\"false\""))).is_none());
    assert!(Channel::from_json(&json("[]")).is_none());
    assert!(Channel::from_json(&json("null")).is_none());
}

#[test]
fn user_is_decoded_from_its_object() {
    let user = UserInfo::from_json(&json(&user_json(3))).unwrap();
    assert_eq!(user.id, "U3");
    assert_eq!(user.team_id, "T1");
    assert_eq!(user.name, "user3");
    assert_eq!(user.real_name, Some("User 3".to_owned()));
    assert!(!user.is_bot);
    assert!(!user.is_app_user);
    assert!(!user.deleted);
}

#[test]
fn real_name_may_be_left_out() {
    let whole = user_json(3);
    let without = whole.replace("\"real_name\":\"User 3\",", "");
    assert_eq!(UserInfo::from_json(&json(&without)).unwrap().real_name, None);
    let null = whole.replace("\"User 3\"", "null");
    assert_eq!(UserInfo::from_json(&json(&null)).unwrap().real_name, None);
    let number = whole.replace("\"User 3\"", "3");
    assert!(UserInfo::from_json(&json(&number)).is_none());
    for field in ["id", "team_id", "name", "is_bot", "is_app_user", "deleted"].iter() {
        let renamed = whole.replace(&format!("\"{}\":", field), "\"other\":");
        assert!(UserInfo::from_json(&json(&renamed)).is_none());
    }
}

#[test]
fn lists_are_decoded_in_order_or_not_at_all() {
    let values = vec![json(&channel_json(1, true)), json(&channel_json(2, false))];
    let channels = Channel::list_from_json(&values).unwrap();
    assert_eq!(channels.len(), 2);
    assert_eq!(channels[0].id, "C1");
    assert_eq!(channels[1].id, "C2");
    assert!(!channels[1].is_member);
    let values = vec![json(&channel_json(1, true)), json("{}")];
    assert!(Channel::list_from_json(&values).is_none());
    assert_eq!(Channel::list_from_json(&Vec::new()).unwrap().len(), 0);
    let values = vec![json(&user_json(1)), json(&user_json(2))];
    let users = UserInfo::list_from_json(&values).unwrap();
    assert_eq!(users[1].name, "user2");
    assert!(UserInfo::list_from_json(&vec![json("7")]).is_none());
}

#[test]
fn next_cursor_is_read_from_the_metadata() {
    let with = json("{\"response_metadata\":{\"next_cursor\":\"abc=\"}}");
    assert_eq!(Slack::next_cursor(&with), Some("abc=".to_owned()));
    for answer in [
        "{\"response_metadata\":{\"next_cursor\":\"\"}}",
        "{\"response_metadata\":{}}",
        "{\"response_metadata\":{\"next_cursor\":null}}",
        "{\"response_metadata\":\"abc\"}",
        "{\"next_cursor\":\"abc\"}",
        "{}",
    ]
    .iter()
    {
        assert_eq!(Slack::next_cursor(&json(answer)), None);
    }
}

#[test]
fn page_of_channels_is_taken_from_an_answer() {
    let page = Slack::channels_page(&json(&channels_answer(0, 3, Some("next")))).unwrap();
    assert_eq!(page.items.len(), 3);
    assert_eq!(page.items[2].name, "chan2");
    assert_eq!(page.next_cursor, Some("next".to_owned()));
    let page = Slack::channels_page(&json(&channels_answer(0, 0, None))).unwrap();
    assert!(page.items.is_empty());
    assert_eq!(page.next_cursor, None);
}

#[test]
fn malformed_page_is_an_api_error() {
    for answer in ["{\"ok\":true}", "{\"channels\":{}}", "{\"channels\":[{\"id\":\"C1\"}]}"].iter() {
        let error = Slack::channels_page(&json(answer)).err().unwrap();
        assert_eq!(error.kind, ErrorKind::Api);
        assert_eq!(error.message, "Malformed channel list in response");
    }
    for answer in ["{\"ok\":true}", "{\"members\":null}", "{\"members\":[[]]}"].iter() {
        let error = Slack::users_page(&json(answer)).err().unwrap();
        assert_eq!(error.kind, ErrorKind::Api);
        assert_eq!(error.message, "Malformed user list in response");
    }
}

#[test]
fn page_of_users_is_taken_from_an_answer() {
    let answer = format!(
        "{{\"ok\":true,\"members\":[{},{}],\"response_metadata\":{{\"next_cursor\":\"\"}}}}",
        user_json(1),
        user_json(2)
    );
    let page = Slack::users_page(&json(&answer)).unwrap();
    assert_eq!(page.items.len(), 2);
    assert_eq!(page.items[0].id, "U1");
    assert_eq!(page.next_cursor, None);
}

#[test]
fn three_pages_are_fetched_with_three_requests() {
    let slack = Slack::new("xoxp-1");
    let answers = [
        channels_answer(0, 500, Some("page2")),
        channels_answer(500, 500, Some("page3")),
        channels_answer(1000, 37, None),
    ];
    let mut listing: Listing<Channel> = Listing::new();
    let mut cursors: Vec<String> = Vec::new();
    loop {
        let cursor = match listing.next_cursor() {
            Some(cursor) => cursor.to_owned(),
            None => break,
        };
        let request = slack.channels_list(&cursor);
        assert_eq!(form(&request)[3].1, cursor);
        let answer = &answers[cursors.len()];
        cursors.push(cursor);
        let document = SlackHttpClient::api_response(200, answer.as_bytes()).unwrap();
        listing.absorb(Slack::channels_page(&document).unwrap());
    }
    assert_eq!(cursors, vec!["".to_owned(), "page2".to_owned(), "page3".to_owned()]);
    let channels = listing.into_items();
    assert_eq!(channels.len(), 1037);
    for (n, channel) in channels.iter().enumerate() {
        assert_eq!(channel.id, format!("C{}", n));
    }
}

#[test]
fn single_page_without_metadata_completes_the_listing() {
    let mut listing: Listing<UserInfo> = Listing::new();
    assert_eq!(listing.next_cursor(), Some(""));
    let answer = format!("{{\"members\":[{}]}}", user_json(1));
    listing.absorb(Slack::users_page(&json(&answer)).unwrap());
    assert_eq!(listing.next_cursor(), None);
    assert_eq!(listing.into_items().len(), 1);
}

#[test]
fn complete_listing_takes_no_more_pages() {
    let mut listing: Listing<UserInfo> = Listing::new();
    listing.absorb(Page { items: vec![], next_cursor: None });
    let late = Slack::users_page(&json(&format!("{{\"members\":[{}]}}", user_json(1)))).unwrap();
    listing.absorb(Page { items: late.items, next_cursor: Some("more".to_owned()) });
    assert_eq!(listing.next_cursor(), None);
    assert!(listing.into_items().is_empty());
}

//! Requests to the Slack API and the normalization of its answers.
use crate::error::{ErrorKind, GatewayError};
use crate::json::{decode, is_object, json_document, json_is_object, json_member, json_text, member, text};
use crate::text::concat;
use vstd::prelude::*;

verus! {

/// Where the Slack API lives. An endpoint's name follows.
pub const API_BASE: &'static str = "https://slack.com/api/";

/// A request to the Slack API: a POST of `form` to `url`, with `authorization` as the value of
/// the `Authorization` header.
#[derive(Debug)]
pub struct ApiRequest {
    pub url: String,
    pub authorization: String,
    pub form: Vec<(String, String)>,
}

/// A request, as the characters of its parts.
pub struct ApiRequestView {
    pub url: Seq<char>,
    pub authorization: Seq<char>,
    pub form: Seq<(Seq<char>, Seq<char>)>,
}

impl View for ApiRequest {
    type V = ApiRequestView;

    open spec fn view(&self) -> ApiRequestView {
        ApiRequestView {
            url: self.url@,
            authorization: self.authorization@,
            form: self.form@.map_values(|pair: (String, String)| (pair.0@, pair.1@)),
        }
    }
}

/// The text that stands for an HTTP status code in messages.
pub uninterp spec fn http_status_text(code: u16) -> Seq<char>;

/// `StatusCode::from_u16` and `to_string` of hyper. Taken on trust: the text depends on the
/// code alone. It is the code with its canonical reason for a code from 100 to 999, and the
/// text of hyper's error for any other.
#[verifier::external_body]
fn status_text(code: u16) -> (written: String)
    ensures
        written@ == http_status_text(code),
{
    match hyper::StatusCode::from_u16(code) {
        Ok(status) => status.to_string(),
        Err(invalid) => invalid.to_string(),
    }
}

/// Whether an HTTP status code reports success.
pub open spec fn is_success(status: u16) -> bool {
    200 <= status < 300
}

/// What an answer of the Slack API comes to: its document, or the message of the failure. An
/// answer fails when its status does not report success, when its body is not JSON text or
/// not an object, and when the object has a member `error`.
pub open spec fn response_json(status: u16, body: Seq<u8>) -> Result<serde_json::Value, Seq<char>> {
    if !is_success(status) {
        Err("Request failed with status "@ + http_status_text(status))
    } else {
        match json_document(body) {
            None => Err("JSON response could not be decoded"@),
            Some(json) => if !json_is_object(json) {
                Err("JSON response is not an object"@)
            } else {
                match json_member(json, "error"@) {
                    Some(error) => Err("Request failed with error "@ + json_text(error)),
                    None => Ok(json),
                }
            },
        }
    }
}

/// The part of the client that knows how to reach the API: it holds the value of the
/// `Authorization` header that goes with every request.
#[derive(Clone)]
pub struct SlackHttpClient {
    authorization: String,
}

impl SlackHttpClient {
    /// The value of the `Authorization` header.
    pub closed spec fn authorization(self) -> Seq<char> {
        self.authorization@
    }

    /// A client that authenticates with `auth_token` as a bearer token.
    pub fn new(auth_token: &str) -> (client: SlackHttpClient)
        ensures
            client.authorization() == "Bearer "@ + auth_token@,
    {
        SlackHttpClient { authorization: concat("Bearer ", auth_token) }
    }

    /// The request that calls `endpoint` with the parameters `params`.
    pub fn api_call(&self, endpoint: &str, params: Vec<(String, String)>) -> (request: ApiRequest)
        ensures
            request@ == (ApiRequestView {
                url: API_BASE@ + endpoint@,
                authorization: self.authorization(),
                form: params@.map_values(|pair: (String, String)| (pair.0@, pair.1@)),
            }),
    {
        ApiRequest {
            url: concat(API_BASE, endpoint),
            authorization: self.authorization.clone(),
            form: params,
        }
    }

    /// Takes the document from an answer with the status `status` and the body `body`, or
    /// fails with the one kind of failure that stands for all the ways a call can fail.
    pub fn api_response(status: u16, body: &[u8]) -> (result: Result<
        serde_json::Value,
        GatewayError,
    >)
        ensures
            match result {
                Ok(json) => response_json(status, body@) == Ok::<serde_json::Value, Seq<char>>(
                    json,
                ),
                Err(error) => response_json(status, body@) is Err && error.is(
                    ErrorKind::Api,
                    response_json(status, body@)->Err_0,
                ),
            },
    {
        if !(200 <= status && status < 300) {
            let written = status_text(status);
            return Err(
                GatewayError::new(
                    ErrorKind::Api,
                    concat("Request failed with status ", written.as_str()),
                ),
            );
        }
        let json = match decode(body) {
            Ok(json) => json,
            Err(_) => {
                return Err(
                    GatewayError::new(
                        ErrorKind::Api,
                        "JSON response could not be decoded".to_owned(),
                    ),
                );
            },
        };
        if !is_object(&json) {
            return Err(
                GatewayError::new(ErrorKind::Api, "JSON response is not an object".to_owned()),
            );
        }
        let failure = match member(&json, "error") {
            Some(error) => Some(text(error)),
            None => None,
        };
        match failure {
            Some(written) => Err(
                GatewayError::new(
                    ErrorKind::Api,
                    concat("Request failed with error ", written.as_str()),
                ),
            ),
            None => Ok(json),
        }
    }
}

} // verus!

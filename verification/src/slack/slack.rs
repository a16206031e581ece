//! The calls that the gateway makes: posting a message, and listing channels and users page
//! by page.
use crate::error::{ErrorKind, GatewayError};
use crate::json::{
    elements, get_string, json_elements, json_member, member, string_member,
};
use crate::slack::channel::{channel_records, Channel, ChannelView};
use crate::slack::http::{ApiRequest, ApiRequestView, SlackHttpClient, API_BASE};
use crate::slack::user::{user_records, UserInfo, UserInfoView};
use vstd::prelude::*;

verus! {

/// One page of a listing: its items, and the cursor of the next page if there is one.
#[derive(Debug)]
pub struct Page<T> {
    pub items: Vec<T>,
    pub next_cursor: Option<String>,
}

/// A page or a listing, as the views of its items and the characters of its cursor.
pub struct PageView<V> {
    pub items: Seq<V>,
    pub next_cursor: Option<Seq<char>>,
}

impl<T: View> View for Page<T> {
    type V = PageView<T::V>;

    open spec fn view(&self) -> PageView<T::V> {
        PageView {
            items: self.items@.map_values(|item: T| item@),
            next_cursor: match self.next_cursor {
                Some(cursor) => Some(cursor@),
                None => None,
            },
        }
    }
}

/// The cursor of the page after the one that `json` answers: the string `next_cursor` of its
/// member `response_metadata`, unless that is missing or empty.
pub open spec fn next_cursor_of(json: serde_json::Value) -> Option<Seq<char>> {
    match json_member(json, "response_metadata"@) {
        Some(metadata) => match string_member(metadata, "next_cursor"@) {
            Some(cursor) => if cursor.len() > 0 {
                Some(cursor)
            } else {
                None
            },
            None => None,
        },
        None => None,
    }
}

/// The values that `json` lists under `key`, if its member `key` is an array.
pub open spec fn listed(json: serde_json::Value, key: Seq<char>) -> Option<Seq<serde_json::Value>> {
    match json_member(json, key) {
        Some(list) => json_elements(list),
        None => None,
    }
}

/// The page of channels that `json` answers with, if its member `channels` is an array of
/// channels.
pub open spec fn channels_page_of(json: serde_json::Value) -> Option<PageView<ChannelView>> {
    match listed(json, "channels"@) {
        Some(values) => match channel_records(values) {
            Some(items) => Some(PageView { items, next_cursor: next_cursor_of(json) }),
            None => None,
        },
        None => None,
    }
}

/// The page of users that `json` answers with, if its member `members` is an array of users.
pub open spec fn users_page_of(json: serde_json::Value) -> Option<PageView<UserInfoView>> {
    match listed(json, "members"@) {
        Some(values) => match user_records(values) {
            Some(items) => Some(PageView { items, next_cursor: next_cursor_of(json) }),
            None => None,
        },
        None => None,
    }
}

/// A listing that is fetched page by page: the items so far, and the cursor with which to ask
/// for the next page. The first page is asked for with the empty cursor; a listing without a
/// cursor is complete.
pub struct Listing<T> {
    items: Vec<T>,
    next_cursor: Option<String>,
}

impl<T: View> View for Listing<T> {
    type V = PageView<T::V>;

    closed spec fn view(&self) -> PageView<T::V> {
        PageView {
            items: self.items@.map_values(|item: T| item@),
            next_cursor: match self.next_cursor {
                Some(cursor) => Some(cursor@),
                None => None,
            },
        }
    }
}

/// The listing before its first page.
pub open spec fn listing_start<V>() -> PageView<V> {
    PageView { items: Seq::empty(), next_cursor: Some(Seq::empty()) }
}

/// The listing after `page` arrived: the page's items follow those so far, and the page's
/// cursor is the next to ask with. A complete listing takes no more pages.
pub open spec fn listing_after<V>(listing: PageView<V>, page: PageView<V>) -> PageView<V> {
    if listing.next_cursor is None {
        listing
    } else {
        PageView { items: listing.items + page.items, next_cursor: page.next_cursor }
    }
}

/// The listing after each of `pages` arrived in turn.
pub open spec fn listing_after_all<V>(listing: PageView<V>, pages: Seq<PageView<V>>) -> PageView<V>
    decreases pages.len(),
{
    if pages.len() == 0 {
        listing
    } else {
        listing_after(listing_after_all(listing, pages.drop_last()), pages.last())
    }
}

/// The items of `pages`, page after page.
pub open spec fn items_of<V>(pages: Seq<PageView<V>>) -> Seq<V>
    decreases pages.len(),
{
    if pages.len() == 0 {
        Seq::empty()
    } else {
        items_of(pages.drop_last()) + pages.last().items
    }
}

/// Pagination is complete. When every page but the last names a next page, a listing that
/// takes the pages in turn is still incomplete after each page but the last, so it asks once
/// for each page; after the last it is complete and holds the items of all the pages in their
/// order.
pub proof fn lemma_listing_complete<V>(pages: Seq<PageView<V>>, taken: int)
    requires
        0 <= taken <= pages.len(),
        forall|i: int| 0 <= i < pages.len() - 1 ==> (#[trigger] pages[i]).next_cursor is Some,
        pages.len() > 0 ==> pages.last().next_cursor is None,
    ensures
        listing_after_all(listing_start(), pages.take(taken)).items == items_of(pages.take(taken)),
        taken < pages.len() ==> listing_after_all(
            listing_start(),
            pages.take(taken),
        ).next_cursor is Some,
        taken == pages.len() && pages.len() > 0 ==> listing_after_all(
            listing_start(),
            pages,
        ).next_cursor is None,
    decreases taken,
{
    if taken > 0 {
        lemma_listing_complete(pages, taken - 1);
        assert(pages.take(taken).drop_last() =~= pages.take(taken - 1));
        assert(pages.take(taken).last() == pages[taken - 1]);
        if taken == pages.len() {
            assert(pages.take(taken) =~= pages);
        }
    }
}

impl<T: View> Listing<T> {
    /// The listing before its first page.
    pub fn new() -> (listing: Listing<T>)
        ensures
            listing@ == listing_start::<T::V>(),
    {
        let listing = Listing { items: Vec::new(), next_cursor: Some(String::new()) };
        assert(listing@.items =~= Seq::<T::V>::empty());
        listing
    }

    /// The cursor with which to ask for the next page, or `None` when the listing is complete.
    pub fn next_cursor(&self) -> (cursor: Option<&str>)
        ensures
            match cursor {
                Some(cursor) => self@.next_cursor == Some(cursor@),
                None => self@.next_cursor is None,
            },
    {
        match &self.next_cursor {
            Some(cursor) => Some(cursor.as_str()),
            None => None,
        }
    }

    /// Takes the next page.
    pub fn absorb(&mut self, page: Page<T>)
        ensures
            final(self)@ == listing_after(old(self)@, page@),
    {
        if self.next_cursor.is_some() {
            let mut page = page;
            let ghost before = self.items@;
            let ghost added = page.items@;
            self.items.append(&mut page.items);
            self.next_cursor = page.next_cursor;
            assert(self.items@.map_values(|item: T| item@) =~= before.map_values(|item: T| item@)
                + added.map_values(|item: T| item@));
        }
    }

    /// The items so far.
    pub fn into_items(self) -> (items: Vec<T>)
        ensures
            items@.map_values(|item: T| item@) == self@.items,
    {
        self.items
    }
}

/// The client of the Slack API for one identity.
#[derive(Clone)]
pub struct Slack {
    token: String,
    http_client: SlackHttpClient,
}

/// The form parameter `key` with the value `value`.
fn param(key: &str, value: &str) -> (pair: (String, String))
    ensures
        pair.0@ == key@,
        pair.1@ == value@,
{
    (key.to_owned(), value.to_owned())
}

impl Slack {
    /// The token of the identity.
    pub closed spec fn token(self) -> Seq<char> {
        self.token@
    }

    /// The value of the `Authorization` header of every request.
    pub closed spec fn authorization(self) -> Seq<char> {
        self.http_client.authorization()
    }

    /// The request to `endpoint` with the form `form`, as this client makes it.
    pub open spec fn call(self, endpoint: Seq<char>, form: Seq<(Seq<char>, Seq<char>)>) -> ApiRequestView {
        ApiRequestView { url: API_BASE@ + endpoint, authorization: self.authorization(), form }
    }

    /// A client that acts for the identity of `token`.
    pub fn new(token: &str) -> (slack: Slack)
        ensures
            slack.token() == token@,
            slack.authorization() == "Bearer "@ + token@,
    {
        Slack { token: token.to_owned(), http_client: SlackHttpClient::new(token) }
    }

    /// The request that tests the API.
    pub fn test_request(&self) -> (request: ApiRequest)
        ensures
            request@ == self.call("api.test"@, Seq::empty()),
    {
        let params: Vec<(String, String)> = Vec::new();
        let request = self.http_client.api_call("api.test", params);
        assert(request@.form =~= Seq::empty());
        request
    }

    /// The request that tests the token.
    pub fn test_auth(&self) -> (request: ApiRequest)
        ensures
            request@ == self.call("auth.test"@, seq![("token"@, self.token())]),
    {
        let mut params: Vec<(String, String)> = Vec::new();
        params.push(param("token", self.token.as_str()));
        let request = self.http_client.api_call("auth.test", params);
        assert(request@.form =~= seq![("token"@, self.token())]);
        request
    }

    /// The request that posts `message` to `channel` as the user.
    pub fn post_message(&self, channel: &str, message: &str) -> (request: ApiRequest)
        ensures
            request@ == self.call(
                "chat.postMessage"@,
                seq![("channel"@, channel@), ("text"@, message@), ("as_user"@, "true"@)],
            ),
    {
        let mut params: Vec<(String, String)> = Vec::new();
        params.push(param("channel", channel));
        params.push(param("text", message));
        params.push(param("as_user", "true"));
        let request = self.http_client.api_call("chat.postMessage", params);
        assert(request@.form =~= seq![
            ("channel"@, channel@),
            ("text"@, message@),
            ("as_user"@, "true"@),
        ]);
        request
    }

    /// The timestamp that Slack gave to a posted message: the string `ts` of the answer. An
    /// answer without it is a failure of the call.
    pub fn post_message_result(json: &serde_json::Value) -> (result: Result<String, GatewayError>)
        ensures
            match result {
                Ok(ts) => string_member(*json, "ts"@) == Some(ts@),
                Err(error) => string_member(*json, "ts"@) is None && error.is(
                    ErrorKind::Api,
                    "Response carries no message timestamp"@,
                ),
            },
    {
        match get_string(json, "ts") {
            Some(ts) => Ok(ts.to_owned()),
            None => Err(
                GatewayError::new(
                    ErrorKind::Api,
                    "Response carries no message timestamp".to_owned(),
                ),
            ),
        }
    }

    /// The request for the page at `cursor` of the channels that are not archived, 500 to a
    /// page and without their members.
    pub fn channels_list(&self, cursor: &str) -> (request: ApiRequest)
        ensures
            request@ == self.call(
                "channels.list"@,
                seq![
                    ("exclude_archived"@, "true"@),
                    ("exclude_members"@, "true"@),
                    ("limit"@, "500"@),
                    ("cursor"@, cursor@),
                ],
            ),
    {
        let mut params: Vec<(String, String)> = Vec::new();
        params.push(param("exclude_archived", "true"));
        params.push(param("exclude_members", "true"));
        params.push(param("limit", "500"));
        params.push(param("cursor", cursor));
        let request = self.http_client.api_call("channels.list", params);
        assert(request@.form =~= seq![
            ("exclude_archived"@, "true"@),
            ("exclude_members"@, "true"@),
            ("limit"@, "500"@),
            ("cursor"@, cursor@),
        ]);
        request
    }

    /// The request for the page at `cursor` of the users, 500 to a page.
    pub fn users_list(&self, cursor: &str) -> (request: ApiRequest)
        ensures
            request@ == self.call("users.list"@, seq![("limit"@, "500"@), ("cursor"@, cursor@)]),
    {
        let mut params: Vec<(String, String)> = Vec::new();
        params.push(param("limit", "500"));
        params.push(param("cursor", cursor));
        let request = self.http_client.api_call("users.list", params);
        assert(request@.form =~= seq![("limit"@, "500"@), ("cursor"@, cursor@)]);
        request
    }

    /// Reads the cursor of the next page from an answer.
    pub fn next_cursor(json: &serde_json::Value) -> (cursor: Option<String>)
        ensures
            match cursor {
                Some(cursor) => next_cursor_of(*json) == Some(cursor@),
                None => next_cursor_of(*json) is None,
            },
    {
        match member(json, "response_metadata") {
            Some(metadata) => match get_string(metadata, "next_cursor") {
                Some(cursor) => if cursor.is_empty() {
                    None
                } else {
                    Some(cursor.to_owned())
                },
                None => None,
            },
            None => None,
        }
    }

    /// Takes the page of channels from an answer. An answer that lists no channels, or
    /// something that is no channel, is a failure of the call.
    pub fn channels_page(json: &serde_json::Value) -> (result: Result<Page<Channel>, GatewayError>)
        ensures
            match result {
                Ok(page) => channels_page_of(*json) == Some(page@),
                Err(error) => channels_page_of(*json) is None && error.is(
                    ErrorKind::Api,
                    "Malformed channel list in response"@,
                ),
            },
    {
        let decoded = match member(json, "channels") {
            Some(list) => match elements(list) {
                Some(values) => Channel::list_from_json(values),
                None => None,
            },
            None => None,
        };
        match decoded {
            Some(items) => Ok(Page { items, next_cursor: Self::next_cursor(json) }),
            None => Err(
                GatewayError::new(ErrorKind::Api, "Malformed channel list in response".to_owned()),
            ),
        }
    }

    /// Takes the page of users from an answer. An answer that lists no users, or something
    /// that is no user, is a failure of the call.
    pub fn users_page(json: &serde_json::Value) -> (result: Result<Page<UserInfo>, GatewayError>)
        ensures
            match result {
                Ok(page) => users_page_of(*json) == Some(page@),
                Err(error) => users_page_of(*json) is None && error.is(
                    ErrorKind::Api,
                    "Malformed user list in response"@,
                ),
            },
    {
        let decoded = match member(json, "members") {
            Some(list) => match elements(list) {
                Some(values) => UserInfo::list_from_json(values),
                None => None,
            },
            None => None,
        };
        match decoded {
            Some(items) => Ok(Page { items, next_cursor: Self::next_cursor(json) }),
            None => Err(
                GatewayError::new(ErrorKind::Api, "Malformed user list in response".to_owned()),
            ),
        }
    }
}

} // verus!

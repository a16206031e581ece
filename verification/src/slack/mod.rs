//! The client of the Slack API: the requests it makes and what it takes from the answers.
//! Sending a request and reading its answer is the caller's part.
mod channel;
mod http;
mod slack;
mod user;

pub use self::channel::{
    bool_member, channel_record, channel_records, u64_member, Channel, ChannelView,
};
pub use self::http::{
    http_status_text, is_success, response_json, ApiRequest, ApiRequestView, SlackHttpClient,
    API_BASE,
};
pub use self::slack::{
    channels_page_of, items_of, lemma_listing_complete, listed, listing_after, listing_after_all,
    listing_start, next_cursor_of, users_page_of, Listing, Page, PageView, Slack,
};
pub use self::user::{
    optional_string_member, user_record, user_records, UserInfo, UserInfoView,
};

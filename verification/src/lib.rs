//! The core of a gateway between an IRC server and a Slack workspace.
//!
//! Messages that IRC clients send to a channel are posted to the Slack channel that it is
//! bound to, and messages that are posted on Slack are delivered to the IRC channel. A message
//! that the gateway itself posted comes back from Slack as an event; the gateway recognises it
//! by its timestamp and does not deliver it a second time.
//!
//! This crate holds the decisions: the registries of bindings, pending echoes, display names
//! and sessions, the handling of Slack's webhook requests, and the requests to the Slack API
//! with what is taken from their answers. It performs no input or output. The program around
//! it listens, sends and delivers, and hands over plain values.
//!
//! - [`channels`]: the registry of channel bindings with their pending echoes
//! - [`users`]: the cache of display names
//! - [`client`]: the sessions of IRC clients and the events of the IRC server
//! - [`server`]: the webhook endpoint
//! - [`slack`]: the client of the Slack API
//! - [`settings`]: the configuration
//! - [`json`]: JSON documents, read through `serde_json`
//! - [`error`]: the failures
pub mod channels;
pub mod client;
pub mod error;
pub mod json;
pub mod server;
pub mod settings;
pub mod slack;
pub mod text;
pub mod users;

//! A bridge between a tick-driven caller and a sequential HTTP worker.
//!
//! The caller submits request envelopes and polls for response envelopes
//! without ever blocking; a single worker takes one request at a time,
//! has the network call performed, and hands back exactly one response
//! carrying the request's correlation token.
//!
//! - [`messages`] and [`headers`]: the envelopes and their header
//!   mappings.
//! - [`mailbox`]: the two bounded channels between caller and worker,
//!   and what is known of them before and after an end is lent.
//! - [`http_client`]: the facade that the caller holds.
//! - [`transport`]: the call that goes out for a request, the reply that
//!   comes back, and which headers the network side accepts.
//! - [`worker`]: the worker's cycle as a state machine. The loop that
//!   drives it does the waiting and the network call.
//! - [`protocol`] and [`laws`]: caller, mailboxes and worker as one
//!   transition system, and what holds of every run of it.

pub mod headers;
pub mod http_client;
pub mod laws;
pub mod mailbox;
pub mod messages;
pub mod protocol;
pub mod transport;
pub mod worker;

pub use headers::Headers;
pub use http_client::{HTTPClient, MailboxClosed, WorkerLink, MAILBOX_CAPACITY};
pub use messages::{GETData, HTTPRequest, HTTPResponse, HTTPResponseData, Method, POSTData};

//! Decisions behind an inbound push request: resolve the subscription token
//! to its local application and classify the request, leaving the transport
//! and the bus delivery to the caller.

use vstd::prelude::*;
use crate::store::{RegistrationStore, find_connection, get_connection};

verus! {

/// How an inbound push request is answered.
pub enum PushResponse {
    /// The token is subscribed: hand `payload` to the application `appid`.
    Deliver { appid: String, payload: String },
    /// No subscription holds the token.
    NotFound,
    /// The token is subscribed but the request body was unreadable.
    BadBody,
}

/// Decide what to do with a push request for `token` whose body, if it could
/// be read, is `body`: an unknown token is refused before the body is looked
/// at.
pub fn handle_push(store: &RegistrationStore, token: &str, body: Option<String>) -> (r:
    PushResponse)
    ensures
        match r {
            PushResponse::Deliver { appid, payload } => {
                &&& find_connection(store.rows(), token@) matches Some(c) && appid@ == c.appid@
                &&& body matches Some(b) && payload@ == b@
            },
            PushResponse::NotFound => find_connection(store.rows(), token@) is None,
            PushResponse::BadBody => find_connection(store.rows(), token@) is Some
                && body is None,
        },
{
    match get_connection(store, token) {
        None => PushResponse::NotFound,
        Some(appid) => match body {
            Some(payload) => PushResponse::Deliver { appid, payload },
            None => PushResponse::BadBody,
        },
    }
}

/// The HTTP status each response is sent with.
pub fn push_status(response: &PushResponse) -> (s: u16)
    ensures
        match response {
            PushResponse::Deliver { .. } => s == 200,
            PushResponse::NotFound => s == 404,
            PushResponse::BadBody => s == 400,
        },
{
    match response {
        PushResponse::Deliver { .. } => 200,
        PushResponse::NotFound => 404,
        PushResponse::BadBody => 400,
    }
}

} // verus!

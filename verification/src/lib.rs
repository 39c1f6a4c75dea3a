//! Relay and reconciliation engine for a UnifiedPush distributor backed by a
//! Gotify server.
//!
//! The library holds the verified core: the registration store with its
//! watermark, message processing with duplicate suppression, the registration
//! service's decisions, the reconciliation diff, and the relay connection
//! state machine. All network and bus I/O stays outside; callers hand the
//! library plain values (fetched message lists, upstream call outcomes) and
//! perform the actions it returns.

use vstd::prelude::*;

pub mod messages;
pub mod reconcile;
pub mod registration;
pub mod relay;
pub mod server;
pub mod store;
pub mod text;

verus! {

/// Credential record produced by the out-of-band login flow: where the
/// upstream server lives and the device token that every upstream call
/// carries.
pub struct LoginFile {
    pub gotify_base_url: String,
    pub gotify_device_token: String,
}

/// An application as the upstream server reports it.
pub struct GotifyApplication {
    pub id: i32,
    pub name: String,
    pub token: String,
}

/// One stored registration: a local subscription `(appid, token)` mapped to
/// the upstream application that was created for it.
pub struct DbUpConnection {
    pub appid: String,
    pub token: String,
    pub gotify_id: i32,
    pub gotify_token: String,
}

/// A push message as the upstream server delivers it, over the stream or the
/// polling endpoint.
pub struct GotifyMessage {
    pub id: i32,
    pub appid: i32,
    pub message: String,
}

impl GotifyMessage {
    /// Field-wise copy; `String` clones are known to preserve the value, so
    /// the copy equals the original.
    pub fn duplicate(&self) -> (r: Self)
        ensures
            r == *self,
    {
        GotifyMessage { id: self.id, appid: self.appid, message: self.message.clone() }
    }
}

impl DbUpConnection {
    /// Field-wise copy; `String` clones are known to preserve the value, so
    /// the copy equals the original.
    pub fn duplicate(&self) -> (r: Self)
        ensures
            r == *self,
    {
        DbUpConnection {
            appid: self.appid.clone(),
            token: self.token.clone(),
            gotify_id: self.gotify_id,
            gotify_token: self.gotify_token.clone(),
        }
    }
}

} // verus!

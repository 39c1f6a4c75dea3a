//! The registration service: the decisions behind the inbound Register and
//! Unregister calls.
//!
//! Registering runs in two verified steps around the one upstream call it may
//! need. `register_start` consults the store: a subscription that is already
//! mapped is answered from the existing row, so the same `(appid, token)`
//! never creates a second upstream application. Otherwise the caller performs
//! the upstream create and hands its outcome, and whether the new row could
//! be persisted, to `register_finish`, which either stores the mapping or
//! names the just-created upstream application that must be deleted again.

use vstd::prelude::*;
use vstd::string::StringExecFns;
use crate::{DbUpConnection, GotifyApplication, LoginFile};
use crate::store::{
    RegistrationStore, connections_with_token, connections_without_token, find_registration,
    find_registration_row, get_connections_with_token,
};

verus! {

/// The callback URL handed to a subscriber: the upstream base URL with the
/// application token as push credential.
pub open spec fn endpoint_of(base: Seq<char>, gotify_token: Seq<char>) -> Seq<char> {
    base + "/UP?token="@ + gotify_token
}

/// Build the callback URL that embeds `gotify_token`.
pub fn make_endpoint(base: &str, gotify_token: &str) -> (r: String)
    ensures
        r@ == endpoint_of(base@, gotify_token@),
{
    let mut s = String::from_str(base);
    s.append("/UP?token=");
    s.append(gotify_token);
    s
}

/// How a registration attempt ended once the store had no existing mapping.
pub enum RegisterOutcome {
    /// The mapping was created upstream and stored; announce `endpoint`.
    NewEndpoint { endpoint: String },
    /// The upstream create failed; nothing changed.
    UpstreamFailed,
    /// The upstream create succeeded but the row could not be persisted; the
    /// caller must best-effort delete the named upstream application so no
    /// orphan remains.
    StoreFailed { orphaned_gotify_id: i32 },
}

/// First step of a register call: answer from the store when the
/// subscription `(appid, token)` is already mapped, returning its endpoint
/// unchanged; otherwise an upstream application has to be created.
pub fn register_start(
    store: &RegistrationStore,
    login: &LoginFile,
    appid: &str,
    token: &str,
) -> (r: Option<String>)
    ensures
        match r {
            Some(endpoint) => find_registration(store.rows(), appid@, token@) matches Some(c)
                && endpoint@ == endpoint_of(login.gotify_base_url@, c.gotify_token@),
            None => find_registration(store.rows(), appid@, token@) is None,
        },
{
    match find_registration_row(store, appid, token) {
        Some(c) => Some(make_endpoint(login.gotify_base_url.as_str(), c.gotify_token.as_str())),
        None => None,
    }
}

/// Second step of a register call, given the outcome of the upstream create
/// (`created`) and whether the persistence layer accepted the new row
/// (`persisted`): store the mapping and return its endpoint, or report which
/// failure ended the attempt.
pub fn register_finish(
    store: &mut RegistrationStore,
    login: &LoginFile,
    appid: &str,
    token: &str,
    created: &Option<GotifyApplication>,
    persisted: bool,
) -> (r: RegisterOutcome)
    ensures
        final(store).watermark() == old(store).watermark(),
        created is None ==> final(store).rows() == old(store).rows() && (r matches
            RegisterOutcome::UpstreamFailed),
        created matches Some(app) ==> ({
            &&& !persisted ==> final(store).rows() == old(store).rows() && (r matches
                RegisterOutcome::StoreFailed { orphaned_gotify_id } && orphaned_gotify_id == app.id)
            &&& persisted ==> ({
                let rows = final(store).rows();
                &&& rows.len() == old(store).rows().len() + 1
                &&& rows.drop_last() == old(store).rows()
                &&& rows.last().appid@ == appid@
                &&& rows.last().token@ == token@
                &&& rows.last().gotify_id == app.id
                &&& rows.last().gotify_token@ == app.token@
                &&& r matches RegisterOutcome::NewEndpoint { endpoint } && endpoint@ == endpoint_of(
                    login.gotify_base_url@,
                    app.token@,
                )
            })
        }),
{
    match created {
        None => RegisterOutcome::UpstreamFailed,
        Some(app) => {
            if persisted {
                let row = DbUpConnection {
                    appid: String::from_str(appid),
                    token: String::from_str(token),
                    gotify_id: app.id,
                    gotify_token: app.token.clone(),
                };
                store.insert_connection(row);
                let endpoint = make_endpoint(login.gotify_base_url.as_str(), app.token.as_str());
                RegisterOutcome::NewEndpoint { endpoint }
            } else {
                RegisterOutcome::StoreFailed { orphaned_gotify_id: app.id }
            }
        },
    }
}

/// The synchronous reply a register call returns over the IPC boundary:
/// a status and a detail string.
pub fn register_reply(outcome: &RegisterOutcome) -> (r: (String, String))
    ensures
        match outcome {
            RegisterOutcome::NewEndpoint { .. } => r.0@ == "NEW_ENDPOINT"@ && r.1@ == ""@,
            RegisterOutcome::UpstreamFailed => r.0@ == "REGISTRATION_FAILED"@ && r.1@
                == "Gotify server error"@,
            RegisterOutcome::StoreFailed { .. } => r.0@ == "REGISTRATION_FAILED"@ && r.1@
                == "Distributor database error"@,
        },
{
    match outcome {
        RegisterOutcome::NewEndpoint { .. } => ("NEW_ENDPOINT".to_owned(), "".to_owned()),
        RegisterOutcome::UpstreamFailed => (
            "REGISTRATION_FAILED".to_owned(),
            "Gotify server error".to_owned(),
        ),
        RegisterOutcome::StoreFailed { .. } => (
            "REGISTRATION_FAILED".to_owned(),
            "Distributor database error".to_owned(),
        ),
    }
}

/// Unregister a subscription token: remove every stored row for it and
/// return the upstream application ids to best-effort delete. The local
/// removal does not depend on any upstream outcome; a failed upstream delete
/// changes nothing here.
pub fn unregister(store: &mut RegistrationStore, token: &str) -> (targets: Vec<i32>)
    ensures
        final(store).rows() == connections_without_token(old(store).rows(), token@),
        final(store).watermark() == old(store).watermark(),
        targets@ == connections_with_token(old(store).rows(), token@).map_values(
            |c: DbUpConnection| c.gotify_id,
        ),
        forall|k: int|
            0 <= k < final(store).rows().len() ==> (#[trigger] final(store).rows()[k]).token@
                != token@,
{
    let rows = get_connections_with_token(store, token);
    let mut targets: Vec<i32> = Vec::new();
    let mut i: usize = 0;
    let n = rows.len();
    while i < n
        invariant
            i <= n,
            n == rows@.len(),
            targets@ == rows@.subrange(0, i as int).map_values(|c: DbUpConnection| c.gotify_id),
        decreases n - i,
    {
        targets.push(rows[i].gotify_id);
        proof {
            assert(rows@.subrange(0, i + 1).map_values(|c: DbUpConnection| c.gotify_id)
                =~= rows@.subrange(0, i as int).map_values(|c: DbUpConnection| c.gotify_id).push(
                rows@[i as int].gotify_id,
            ));
        }
        i += 1;
    }
    proof {
        assert(rows@.subrange(0, n as int) =~= rows@);
    }
    store.delete_connections_with_token(token);
    proof {
        broadcast use vstd::seq_lib::group_filter_ensures;
    }
    targets
}

/// Registering the same subscription twice yields the same endpoint and
/// creates exactly one upstream application: once a fresh registration's row
/// is stored, a repeated register for the same `(appid, token)` finds exactly
/// that row, so it is answered from the store and no second upstream create
/// is requested.
pub proof fn lemma_register_idempotent(
    rows: Seq<DbUpConnection>,
    c: DbUpConnection,
    appid: Seq<char>,
    token: Seq<char>,
)
    requires
        find_registration(rows, appid, token) is None,
        c.appid@ == appid,
        c.token@ == token,
    ensures
        find_registration(rows.push(c), appid, token) == Some(c),
{
    assert(rows.push(c).drop_last() =~= rows);
}

} // verus!

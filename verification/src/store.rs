//! The registration store: the durable mapping from local subscriptions to
//! upstream applications, plus the single watermark value.
//!
//! The store models the persisted registration table and watermark row as
//! plain values; the process keeps one instance as the authoritative state
//! and mirrors every mutation to its persistence layer outside the library.

use vstd::prelude::*;
use crate::DbUpConnection;
use crate::text::str_eq;

verus! {

/// The rows whose subscription token is `token`, in store order.
pub open spec fn connections_with_token(rows: Seq<DbUpConnection>, token: Seq<char>) -> Seq<
    DbUpConnection,
> {
    rows.filter(|c: DbUpConnection| c.token@ == token)
}

/// The rows whose subscription token is not `token`, in store order.
pub open spec fn connections_without_token(rows: Seq<DbUpConnection>, token: Seq<char>) -> Seq<
    DbUpConnection,
> {
    rows.filter(|c: DbUpConnection| c.token@ != token)
}

/// The first row registered for the subscription `(appid, token)`, in store
/// order: a row earlier in the store shadows a later duplicate.
pub open spec fn find_registration(
    rows: Seq<DbUpConnection>,
    appid: Seq<char>,
    token: Seq<char>,
) -> Option<DbUpConnection>
    decreases rows.len(),
{
    if rows.len() == 0 {
        None
    } else {
        let earlier = find_registration(rows.drop_last(), appid, token);
        if earlier is Some {
            earlier
        } else if rows.last().appid@ == appid && rows.last().token@ == token {
            Some(rows.last())
        } else {
            None
        }
    }
}

/// The first row with subscription token `token`, in store order.
pub open spec fn find_connection(rows: Seq<DbUpConnection>, token: Seq<char>) -> Option<
    DbUpConnection,
>
    decreases rows.len(),
{
    if rows.len() == 0 {
        None
    } else {
        let earlier = find_connection(rows.drop_last(), token);
        if earlier is Some {
            earlier
        } else if rows.last().token@ == token {
            Some(rows.last())
        } else {
            None
        }
    }
}

/// The first row owned by the upstream application `gotify_id`, in store
/// order.
pub open spec fn find_by_gotify_id(rows: Seq<DbUpConnection>, gotify_id: i32) -> Option<
    DbUpConnection,
>
    decreases rows.len(),
{
    if rows.len() == 0 {
        None
    } else {
        let earlier = find_by_gotify_id(rows.drop_last(), gotify_id);
        if earlier is Some {
            earlier
        } else if rows.last().gotify_id == gotify_id {
            Some(rows.last())
        } else {
            None
        }
    }
}

/// The watermark after one processed message id: seeded by the first id ever
/// seen, and only ever raised to a larger id after that.
pub open spec fn advanced(watermark: Option<i32>, id: i32) -> Option<i32> {
    match watermark {
        None => Some(id),
        Some(w) => if id > w {
            Some(id)
        } else {
            Some(w)
        },
    }
}

/// Durable relay state: the registration rows and the highest fully
/// processed message id (absent until the first message is processed).
pub struct RegistrationStore {
    connections: Vec<DbUpConnection>,
    last_seen_message: Option<i32>,
}

impl RegistrationStore {
    /// The registration rows, in insertion order.
    pub closed spec fn rows(&self) -> Seq<DbUpConnection> {
        self.connections@
    }

    /// The persisted watermark.
    pub closed spec fn watermark(&self) -> Option<i32> {
        self.last_seen_message
    }

    /// An empty store: no registrations, no watermark yet.
    pub fn new() -> (r: Self)
        ensures
            r.rows() == Seq::<DbUpConnection>::empty(),
            r.watermark() is None,
    {
        RegistrationStore { connections: Vec::new(), last_seen_message: None }
    }

    /// Rebuild the store from rows and a watermark read back from the
    /// persistence layer at startup.
    pub fn from_parts(connections: Vec<DbUpConnection>, watermark: Option<i32>) -> (r: Self)
        ensures
            r.rows() == connections@,
            r.watermark() == watermark,
    {
        RegistrationStore { connections, last_seen_message: watermark }
    }

    /// Append one registration row.
    pub fn insert_connection(&mut self, connection: DbUpConnection)
        ensures
            final(self).rows() == old(self).rows().push(connection),
            final(self).watermark() == old(self).watermark(),
    {
        self.connections.push(connection);
    }

    /// Remove every row whose subscription token is `token`; all other rows
    /// keep their order.
    pub fn delete_connections_with_token(&mut self, token: &str)
        ensures
            final(self).rows() == connections_without_token(old(self).rows(), token@),
            final(self).watermark() == old(self).watermark(),
    {
        let ghost all = self.connections@;
        let mut kept: Vec<DbUpConnection> = Vec::new();
        let mut i: usize = 0;
        let n = self.connections.len();
        while i < n
            invariant
                i <= n,
                n == self.connections@.len(),
                self.connections@ == all,
                kept@ == connections_without_token(all.subrange(0, i as int), token@),
            decreases n - i,
        {
            let c = &self.connections[i];
            if !str_eq(c.token.as_str(), token) {
                kept.push(c.duplicate());
            }
            proof {
                reveal(Seq::filter);
                assert(all.subrange(0, i + 1).drop_last() =~= all.subrange(0, i as int));
                assert(all.subrange(0, i + 1).last() == all[i as int]);
            }
            i += 1;
        }
        proof {
            assert(all.subrange(0, n as int) =~= all);
        }
        self.connections = kept;
    }

    /// Read the watermark.
    pub fn get_last_seen(&self) -> (r: Option<i32>)
        ensures
            r == self.watermark(),
    {
        self.last_seen_message
    }

    /// Record that `message_id` has been fully processed, raising the
    /// watermark to the maximum of its current value and `message_id`.
    pub fn update_last_seen(&mut self, message_id: i32)
        ensures
            final(self).watermark() == advanced(old(self).watermark(), message_id),
            final(self).rows() == old(self).rows(),
    {
        match self.last_seen_message {
            None => {
                self.last_seen_message = Some(message_id);
            },
            Some(w) => {
                if message_id > w {
                    self.last_seen_message = Some(message_id);
                }
            },
        }
    }
}

/// All rows whose subscription token is `token`, as copies, in store order.
pub fn get_connections_with_token(store: &RegistrationStore, token: &str) -> (r: Vec<
    DbUpConnection,
>)
    ensures
        r@ == connections_with_token(store.rows(), token@),
{
    let ghost all = store.rows();
    let mut result: Vec<DbUpConnection> = Vec::new();
    let mut i: usize = 0;
    let n = store.connections.len();
    while i < n
        invariant
            i <= n,
            n == store.connections@.len(),
            store.connections@ == all,
            result@ == connections_with_token(all.subrange(0, i as int), token@),
        decreases n - i,
    {
        let c = &store.connections[i];
        if str_eq(c.token.as_str(), token) {
            result.push(c.duplicate());
        }
        proof {
            reveal(Seq::filter);
            assert(all.subrange(0, i + 1).drop_last() =~= all.subrange(0, i as int));
            assert(all.subrange(0, i + 1).last() == all[i as int]);
        }
        i += 1;
    }
    proof {
        assert(all.subrange(0, n as int) =~= all);
    }
    result
}

/// Every stored row, as copies, in store order.
pub fn get_all_connections(store: &RegistrationStore) -> (r: Vec<DbUpConnection>)
    ensures
        r@ == store.rows(),
{
    let mut result: Vec<DbUpConnection> = Vec::new();
    let mut i: usize = 0;
    let n = store.connections.len();
    while i < n
        invariant
            i <= n,
            n == store.connections@.len(),
            result@ == store.connections@.subrange(0, i as int),
        decreases n - i,
    {
        result.push(store.connections[i].duplicate());
        proof {
            assert(store.connections@.subrange(0, i + 1) =~= store.connections@.subrange(
                0,
                i as int,
            ).push(store.connections@[i as int]));
        }
        i += 1;
    }
    proof {
        assert(store.connections@.subrange(0, n as int) =~= store.connections@);
    }
    result
}

/// The local application mapped to the subscription token `token`: the
/// `appid` of the first matching row.
pub fn get_connection(store: &RegistrationStore, token: &str) -> (r: Option<String>)
    ensures
        match r {
            Some(appid) => find_connection(store.rows(), token@) matches Some(c) && appid@
                == c.appid@,
            None => find_connection(store.rows(), token@) is None,
        },
{
    let ghost all = store.rows();
    let mut i: usize = 0;
    let n = store.connections.len();
    while i < n
        invariant
            i <= n,
            n == store.connections@.len(),
            all == store.connections@,
            find_connection(all.subrange(0, i as int), token@) is None,
        decreases n - i,
    {
        let c = &store.connections[i];
        if str_eq(c.token.as_str(), token) {
            proof {
                assert(all.subrange(0, i + 1).drop_last() =~= all.subrange(0, i as int));
                assert(find_connection(all.subrange(0, i + 1), token@) == Some(all[i as int]));
                lemma_find_connection_extend(all, token@, i + 1);
            }
            return Some(c.appid.clone());
        }
        proof {
            assert(all.subrange(0, i + 1).drop_last() =~= all.subrange(0, i as int));
        }
        i += 1;
    }
    proof {
        assert(all.subrange(0, n as int) =~= all);
    }
    None
}

/// The first row registered for the subscription `(appid, token)`, as a
/// copy.
pub fn find_registration_row(store: &RegistrationStore, appid: &str, token: &str) -> (r: Option<
    DbUpConnection,
>)
    ensures
        match r {
            Some(c) => find_registration(store.rows(), appid@, token@) == Some(c),
            None => find_registration(store.rows(), appid@, token@) is None,
        },
{
    let ghost all = store.rows();
    let mut i: usize = 0;
    let n = store.connections.len();
    while i < n
        invariant
            i <= n,
            n == store.connections@.len(),
            all == store.connections@,
            find_registration(all.subrange(0, i as int), appid@, token@) is None,
        decreases n - i,
    {
        let c = &store.connections[i];
        if str_eq(c.appid.as_str(), appid) && str_eq(c.token.as_str(), token) {
            proof {
                assert(all.subrange(0, i + 1).drop_last() =~= all.subrange(0, i as int));
                assert(find_registration(all.subrange(0, i + 1), appid@, token@) == Some(
                    all[i as int],
                ));
                lemma_find_registration_extend(all, appid@, token@, i + 1);
            }
            return Some(c.duplicate());
        }
        proof {
            assert(all.subrange(0, i + 1).drop_last() =~= all.subrange(0, i as int));
        }
        i += 1;
    }
    proof {
        assert(all.subrange(0, n as int) =~= all);
    }
    None
}

/// Once a prefix of the store holds a match, the rows after it cannot change
/// which row `find_registration` names.
proof fn lemma_find_registration_extend(
    rows: Seq<DbUpConnection>,
    appid: Seq<char>,
    token: Seq<char>,
    i: int,
)
    requires
        0 <= i <= rows.len(),
        find_registration(rows.subrange(0, i), appid, token) is Some,
    ensures
        find_registration(rows, appid, token) == find_registration(
            rows.subrange(0, i),
            appid,
            token,
        ),
    decreases rows.len() - i,
{
    if i < rows.len() {
        assert(rows.subrange(0, i + 1).drop_last() =~= rows.subrange(0, i));
        lemma_find_registration_extend(rows, appid, token, i + 1);
    } else {
        assert(rows.subrange(0, i) =~= rows);
    }
}

/// The registration owning the upstream application `gotify_id`: a copy of
/// the first matching row.
pub fn find_connection_for_app(store: &RegistrationStore, gotify_id: i32) -> (r: Option<
    DbUpConnection,
>)
    ensures
        match r {
            Some(c) => find_by_gotify_id(store.rows(), gotify_id) == Some(c),
            None => find_by_gotify_id(store.rows(), gotify_id) is None,
        },
{
    let ghost all = store.rows();
    let mut i: usize = 0;
    let n = store.connections.len();
    while i < n
        invariant
            i <= n,
            n == store.connections@.len(),
            all == store.connections@,
            find_by_gotify_id(all.subrange(0, i as int), gotify_id) is None,
        decreases n - i,
    {
        let c = &store.connections[i];
        if c.gotify_id == gotify_id {
            proof {
                assert(all.subrange(0, i + 1).drop_last() =~= all.subrange(0, i as int));
                assert(find_by_gotify_id(all.subrange(0, i + 1), gotify_id) == Some(all[i as int]));
                lemma_find_by_gotify_id_extend(all, gotify_id, i + 1);
            }
            return Some(c.duplicate());
        }
        proof {
            assert(all.subrange(0, i + 1).drop_last() =~= all.subrange(0, i as int));
        }
        i += 1;
    }
    proof {
        assert(all.subrange(0, n as int) =~= all);
    }
    None
}

/// Once a prefix of the store holds a match, the rows after it cannot change
/// which row `find_by_gotify_id` names.
proof fn lemma_find_by_gotify_id_extend(rows: Seq<DbUpConnection>, gotify_id: i32, i: int)
    requires
        0 <= i <= rows.len(),
        find_by_gotify_id(rows.subrange(0, i), gotify_id) is Some,
    ensures
        find_by_gotify_id(rows, gotify_id) == find_by_gotify_id(rows.subrange(0, i), gotify_id),
    decreases rows.len() - i,
{
    if i < rows.len() {
        assert(rows.subrange(0, i + 1).drop_last() =~= rows.subrange(0, i));
        lemma_find_by_gotify_id_extend(rows, gotify_id, i + 1);
    } else {
        assert(rows.subrange(0, i) =~= rows);
    }
}

/// Once a prefix of the store holds a match, the rows after it cannot change
/// which row `find_connection` names.
proof fn lemma_find_connection_extend(rows: Seq<DbUpConnection>, token: Seq<char>, i: int)
    requires
        0 <= i <= rows.len(),
        find_connection(rows.subrange(0, i), token) is Some,
    ensures
        find_connection(rows, token) == find_connection(rows.subrange(0, i), token),
    decreases rows.len() - i,
{
    if i < rows.len() {
        assert(rows.subrange(0, i + 1).drop_last() =~= rows.subrange(0, i));
        lemma_find_connection_extend(rows, token, i + 1);
    } else {
        assert(rows.subrange(0, i) =~= rows);
    }
}

} // verus!

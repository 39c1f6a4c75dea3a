//! Reconciliation: diff the live upstream application list against the
//! stored registrations, and drop every registration whose application was
//! removed upstream.

use vstd::prelude::*;
use crate::{DbUpConnection, GotifyApplication};
use crate::store::{RegistrationStore, get_all_connections};

verus! {

/// Whether the live application list names `gotify_id`.
pub open spec fn app_listed(apps: Seq<GotifyApplication>, gotify_id: i32) -> bool {
    exists|i: int| 0 <= i < apps.len() && apps[i].id == gotify_id
}

/// The stored rows whose application the upstream list still names.
pub open spec fn live_connections(
    rows: Seq<DbUpConnection>,
    apps: Seq<GotifyApplication>,
) -> Seq<DbUpConnection> {
    rows.filter(|c: DbUpConnection| app_listed(apps, c.gotify_id))
}

/// The stored rows whose application is gone upstream.
pub open spec fn removed_connections(
    rows: Seq<DbUpConnection>,
    apps: Seq<GotifyApplication>,
) -> Seq<DbUpConnection> {
    rows.filter(|c: DbUpConnection| !app_listed(apps, c.gotify_id))
}

/// Whether the live application list names `gotify_id`.
fn is_app_listed(apps: &Vec<GotifyApplication>, gotify_id: i32) -> (r: bool)
    ensures
        r == app_listed(apps@, gotify_id),
{
    let mut i: usize = 0;
    let n = apps.len();
    while i < n
        invariant
            i <= n,
            n == apps@.len(),
            forall|k: int| 0 <= k < i ==> (#[trigger] apps@[k]).id != gotify_id,
        decreases n - i,
    {
        if apps[i].id == gotify_id {
            return true;
        }
        i += 1;
    }
    false
}

/// One reconciliation tick, given the live upstream application list: delete
/// every stored registration whose application is absent from that list, and
/// return the deleted rows so an unregister notice can be emitted for each.
/// All other rows and the watermark stay untouched.
pub fn check_removed_apps(store: &mut RegistrationStore, apps: &Vec<GotifyApplication>) -> (removed:
    Vec<DbUpConnection>)
    ensures
        final(store).rows() == live_connections(old(store).rows(), apps@),
        final(store).watermark() == old(store).watermark(),
        removed@ == removed_connections(old(store).rows(), apps@),
{
    let ghost all = store.rows();
    let rows = get_all_connections(store);
    let mut kept: Vec<DbUpConnection> = Vec::new();
    let mut removed: Vec<DbUpConnection> = Vec::new();
    let mut i: usize = 0;
    let n = rows.len();
    while i < n
        invariant
            i <= n,
            n == rows@.len(),
            rows@ == all,
            kept@ == live_connections(all.subrange(0, i as int), apps@),
            removed@ == removed_connections(all.subrange(0, i as int), apps@),
        decreases n - i,
    {
        let c = &rows[i];
        if is_app_listed(apps, c.gotify_id) {
            kept.push(c.duplicate());
        } else {
            removed.push(c.duplicate());
        }
        proof {
            reveal(Seq::filter);
            assert(all.subrange(0, i + 1).drop_last() =~= all.subrange(0, i as int));
            assert(all.subrange(0, i + 1).last() == all[i as int]);
        }
        i += 1;
    }
    proof {
        assert(all.subrange(0, n as int) =~= all);
    }
    let watermark = store.get_last_seen();
    *store = RegistrationStore::from_parts(kept, watermark);
    removed
}

/// Upstream application ids identify at most one stored row each.
pub open spec fn unique_gotify_ids(rows: Seq<DbUpConnection>) -> bool {
    forall|i: int, j: int|
        0 <= i < j < rows.len() ==> (#[trigger] rows[i]).gotify_id != (#[trigger] rows[j]).gotify_id
}

/// With the application `gotify_id` gone upstream, the rows it still owns
/// after reconciliation and the notices emitted for it both follow from the
/// two filters.
proof fn lemma_removed_keeps_gid_rows(
    rows: Seq<DbUpConnection>,
    apps: Seq<GotifyApplication>,
    gotify_id: i32,
)
    requires
        !app_listed(apps, gotify_id),
    ensures
        removed_connections(rows, apps).filter(|c: DbUpConnection| c.gotify_id == gotify_id)
            == rows.filter(|c: DbUpConnection| c.gotify_id == gotify_id),
    decreases rows.len(),
{
    reveal(Seq::filter);
    if rows.len() == 0 {
    } else {
        lemma_removed_keeps_gid_rows(rows.drop_last(), apps, gotify_id);
        let last = rows.last();
        let earlier_removed = removed_connections(rows.drop_last(), apps);
        if !app_listed(apps, last.gotify_id) {
            assert(removed_connections(rows, apps) == earlier_removed.push(last));
            assert(earlier_removed.push(last).drop_last() =~= earlier_removed);
        } else {
            assert(removed_connections(rows, apps) == earlier_removed);
            assert(last.gotify_id != gotify_id);
        }
    }
}

/// A sequence of rows none of which owns `gotify_id` filters to nothing.
proof fn lemma_no_gid_filter_empty(rows: Seq<DbUpConnection>, gotify_id: i32)
    requires
        forall|k: int| 0 <= k < rows.len() ==> (#[trigger] rows[k]).gotify_id != gotify_id,
    ensures
        rows.filter(|c: DbUpConnection| c.gotify_id == gotify_id).len() == 0,
    decreases rows.len(),
{
    reveal(Seq::filter);
    if rows.len() > 0 {
        lemma_no_gid_filter_empty(rows.drop_last(), gotify_id);
    }
}

/// With unique upstream ids, a stored row owning `gotify_id` is the only one
/// the gid filter keeps.
proof fn lemma_unique_gid_exactly_one(rows: Seq<DbUpConnection>, gotify_id: i32)
    requires
        unique_gotify_ids(rows),
        exists|i: int| 0 <= i < rows.len() && (#[trigger] rows[i]).gotify_id == gotify_id,
    ensures
        rows.filter(|c: DbUpConnection| c.gotify_id == gotify_id).len() == 1,
    decreases rows.len(),
{
    reveal(Seq::filter);
    let last = rows.last();
    if last.gotify_id == gotify_id {
        assert(forall|k: int|
            0 <= k < rows.drop_last().len() ==> (#[trigger] rows.drop_last()[k]).gotify_id
                != gotify_id);
        lemma_no_gid_filter_empty(rows.drop_last(), gotify_id);
    } else {
        let i = choose|i: int| 0 <= i < rows.len() && (#[trigger] rows[i]).gotify_id == gotify_id;
        assert(rows.drop_last()[i] == rows[i]);
        lemma_unique_gid_exactly_one(rows.drop_last(), gotify_id);
    }
}

/// Reconciliation convergence: when the application `gotify_id` has been
/// deleted upstream and the store maps each upstream application to at most
/// one row, one reconciliation tick removes its registration, leaves no row
/// owning it, and emits exactly one unregister notice for it.
pub proof fn lemma_reconcile_converges(
    rows: Seq<DbUpConnection>,
    apps: Seq<GotifyApplication>,
    gotify_id: i32,
)
    requires
        unique_gotify_ids(rows),
        exists|i: int| 0 <= i < rows.len() && (#[trigger] rows[i]).gotify_id == gotify_id,
        !app_listed(apps, gotify_id),
    ensures
        forall|k: int|
            0 <= k < live_connections(rows, apps).len() ==> (#[trigger] live_connections(
                rows,
                apps,
            )[k]).gotify_id != gotify_id,
        removed_connections(rows, apps).exactly_one(
            |c: DbUpConnection| c.gotify_id == gotify_id,
        ),
{
    broadcast use vstd::seq_lib::group_filter_ensures;

    lemma_removed_keeps_gid_rows(rows, apps, gotify_id);
    lemma_unique_gid_exactly_one(rows, gotify_id);
    assert forall|k: int| 0 <= k < live_connections(rows, apps).len() implies (
    #[trigger] live_connections(rows, apps)[k]).gotify_id != gotify_id by {
        assert(app_listed(apps, live_connections(rows, apps)[k].gotify_id));
    }
}

} // verus!

//! Message processing: duplicate suppression against the watermark,
//! resolution of the owning registration, and the catch-up poll over a
//! fetched message list.

use vstd::prelude::*;
use vstd::multiset::Multiset;
use crate::{DbUpConnection, GotifyMessage};
use crate::store::{RegistrationStore, advanced, find_by_gotify_id};

verus! {

/// A message id at or below the watermark has already been processed.
pub open spec fn is_stale(watermark: Option<i32>, id: i32) -> bool {
    match watermark {
        Some(w) => id <= w,
        None => false,
    }
}

/// Whether processing message `m` delivers it: it is new and a stored
/// registration owns its upstream application.
pub open spec fn delivers(
    rows: Seq<DbUpConnection>,
    watermark: Option<i32>,
    m: GotifyMessage,
) -> bool {
    !is_stale(watermark, m.id) && find_by_gotify_id(rows, m.appid) is Some
}

/// The watermark after the messages of `msgs` are processed in order.
pub open spec fn watermark_after(watermark: Option<i32>, msgs: Seq<GotifyMessage>) -> Option<i32>
    decreases msgs.len(),
{
    if msgs.len() == 0 {
        watermark
    } else {
        let before_last = watermark_after(watermark, msgs.drop_last());
        if is_stale(before_last, msgs.last().id) {
            before_last
        } else {
            advanced(before_last, msgs.last().id)
        }
    }
}

/// The messages of `msgs` that processing in order delivers, in processing
/// order.
pub open spec fn deliveries_after(
    rows: Seq<DbUpConnection>,
    watermark: Option<i32>,
    msgs: Seq<GotifyMessage>,
) -> Seq<GotifyMessage>
    decreases msgs.len(),
{
    if msgs.len() == 0 {
        Seq::empty()
    } else {
        let earlier = deliveries_after(rows, watermark, msgs.drop_last());
        if delivers(rows, watermark_after(watermark, msgs.drop_last()), msgs.last()) {
            earlier.push(msgs.last())
        } else {
            earlier
        }
    }
}

/// `m` placed into the id-sorted sequence `s`: before the first entry with a
/// strictly larger id, so a later message with an equal id keeps its place
/// after the earlier one.
pub open spec fn insert_by_id(m: GotifyMessage, s: Seq<GotifyMessage>) -> Seq<GotifyMessage>
    decreases s.len(),
{
    if s.len() == 0 {
        seq![m]
    } else if m.id < s[0].id {
        seq![m] + s
    } else {
        seq![s[0]] + insert_by_id(m, s.subrange(1, s.len() as int))
    }
}

/// `s` sorted ascending by message id; messages with equal ids keep their
/// arrival order.
pub open spec fn sort_by_id(s: Seq<GotifyMessage>) -> Seq<GotifyMessage>
    decreases s.len(),
{
    if s.len() == 0 {
        Seq::empty()
    } else {
        insert_by_id(s.last(), sort_by_id(s.drop_last()))
    }
}

/// Ascending message ids.
pub open spec fn sorted_by_id(s: Seq<GotifyMessage>) -> bool {
    forall|i: int, j: int| 0 <= i < j < s.len() ==> s[i].id <= s[j].id
}

/// Ordering on watermark values: an absent watermark counts lowest.
pub open spec fn watermark_le(a: Option<i32>, b: Option<i32>) -> bool {
    match a {
        None => true,
        Some(x) => match b {
            Some(y) => x <= y,
            None => false,
        },
    }
}

/// What processing one message decides.
pub enum MessageAction {
    /// The id is at or below the watermark: already processed, do nothing.
    Discard,
    /// A stored registration owns the message: hand `(appid, token, payload)`
    /// to the IPC boundary, then delete the message upstream.
    Deliver { appid: String, token: String, payload: String },
    /// No stored registration owns the message: advance the watermark only
    /// and leave the message upstream.
    Orphan,
}

/// Process one message against the store: suppress duplicates by the
/// watermark, resolve the owning registration, and advance the watermark for
/// every new id, delivered or orphaned.
pub fn handle_message(store: &mut RegistrationStore, m: &GotifyMessage) -> (r: MessageAction)
    ensures
        final(store).rows() == old(store).rows(),
        watermark_le(old(store).watermark(), final(store).watermark()),
        match r {
            MessageAction::Discard => {
                &&& is_stale(old(store).watermark(), m.id)
                &&& final(store).watermark() == old(store).watermark()
            },
            MessageAction::Deliver { appid, token, payload } => {
                &&& !is_stale(old(store).watermark(), m.id)
                &&& find_by_gotify_id(old(store).rows(), m.appid) matches Some(c) && appid@
                    == c.appid@ && token@ == c.token@
                &&& payload@ == m.message@
                &&& final(store).watermark() == advanced(old(store).watermark(), m.id)
            },
            MessageAction::Orphan => {
                &&& !is_stale(old(store).watermark(), m.id)
                &&& find_by_gotify_id(old(store).rows(), m.appid) is None
                &&& final(store).watermark() == advanced(old(store).watermark(), m.id)
            },
        },
{
    let stale = match store.get_last_seen() {
        Some(w) => m.id <= w,
        None => false,
    };
    if stale {
        return MessageAction::Discard;
    }
    let found = crate::store::find_connection_for_app(store, m.appid);
    store.update_last_seen(m.id);
    match found {
        Some(c) => MessageAction::Deliver {
            appid: c.appid,
            token: c.token,
            payload: m.message.clone(),
        },
        None => MessageAction::Orphan,
    }
}

/// Where the insertion point lands, `insert_by_id` is insertion at an index.
proof fn lemma_insert_by_id_at(m: GotifyMessage, s: Seq<GotifyMessage>, j: int)
    requires
        0 <= j <= s.len(),
        forall|k: int| 0 <= k < j ==> s[k].id <= m.id,
        j < s.len() ==> m.id < s[j].id,
    ensures
        insert_by_id(m, s) == s.insert(j, m),
    decreases s.len(),
{
    if s.len() == 0 {
        assert(insert_by_id(m, s) =~= s.insert(0, m));
    } else if m.id < s[0].id {
        assert(j == 0);
        assert(seq![m] + s =~= s.insert(0, m));
    } else {
        let tail = s.subrange(1, s.len() as int);
        lemma_insert_by_id_at(m, tail, j - 1);
        assert(seq![s[0]] + tail.insert(j - 1, m) =~= s.insert(j, m));
    }
}

/// Sort a fetched message list ascending by id, keeping the arrival order of
/// equal ids; the catch-up poll must process messages in this order.
pub fn sort_messages_by_id(msgs: &Vec<GotifyMessage>) -> (r: Vec<GotifyMessage>)
    ensures
        r@ == sort_by_id(msgs@),
{
    let mut sorted: Vec<GotifyMessage> = Vec::new();
    let mut i: usize = 0;
    let n = msgs.len();
    while i < n
        invariant
            i <= n,
            n == msgs@.len(),
            sorted@ == sort_by_id(msgs@.subrange(0, i as int)),
        decreases n - i,
    {
        let m = msgs[i].duplicate();
        let mut j: usize = 0;
        let s_len = sorted.len();
        while j < s_len && sorted[j].id <= m.id
            invariant
                j <= s_len,
                s_len == sorted@.len(),
                forall|k: int| 0 <= k < j ==> sorted@[k].id <= m.id,
            decreases s_len - j,
        {
            j += 1;
        }
        proof {
            lemma_insert_by_id_at(m, sorted@, j as int);
        }
        sorted.insert(j, m);
        proof {
            assert(msgs@.subrange(0, i + 1).drop_last() =~= msgs@.subrange(0, i as int));
            assert(msgs@.subrange(0, i + 1).last() == msgs@[i as int]);
        }
        i += 1;
    }
    proof {
        assert(msgs@.subrange(0, n as int) =~= msgs@);
    }
    sorted
}

/// Inserting into an id-sorted sequence keeps it sorted and adds exactly the
/// inserted message.
proof fn lemma_insert_by_id_sorted(m: GotifyMessage, s: Seq<GotifyMessage>)
    requires
        sorted_by_id(s),
    ensures
        sorted_by_id(insert_by_id(m, s)),
        insert_by_id(m, s).to_multiset() =~= s.to_multiset().insert(m),
        insert_by_id(m, s).len() == s.len() + 1,
    decreases s.len(),
{
    broadcast use vstd::seq_lib::group_seq_properties;
    broadcast use vstd::seq_lib::group_to_multiset_ensures;

    if s.len() == 0 {
        assert(seq![m] =~= Seq::<GotifyMessage>::empty().push(m));
    } else if m.id < s[0].id {
        let out = seq![m] + s;
        assert forall|i: int, j: int| 0 <= i < j < out.len() implies out[i].id <= out[j].id by {
            if i > 0 {
                assert(out[i] == s[i - 1]);
                assert(out[j] == s[j - 1]);
            }
        }
        vstd::seq_lib::lemma_multiset_commutative(seq![m], s);
        assert(seq![m].to_multiset() =~= Multiset::<GotifyMessage>::empty().insert(m));
        assert((seq![m] + s).to_multiset() =~= s.to_multiset().insert(m));
    } else {
        let tail = s.subrange(1, s.len() as int);
        assert(sorted_by_id(tail)) by {
            assert(forall|k: int| 0 <= k < tail.len() ==> tail[k] == s[k + 1]);
        }
        lemma_insert_by_id_sorted(m, tail);
        let inner = insert_by_id(m, tail);
        let out = seq![s[0]] + inner;
        assert forall|i: int, j: int| 0 <= i < j < out.len() implies out[i].id <= out[j].id by {
            if i == 0 {
                assert(out[j] == inner[j - 1]);
                assert(inner.to_multiset().contains(inner[j - 1]));
                if inner[j - 1] == m {
                    assert(s[0].id <= m.id);
                } else {
                    assert(tail.to_multiset().contains(inner[j - 1]));
                    assert(tail.contains(inner[j - 1]));
                }
            } else {
                assert(out[i] == inner[i - 1]);
                assert(out[j] == inner[j - 1]);
            }
        }
        vstd::seq_lib::lemma_multiset_commutative(seq![s[0]], inner);
        vstd::seq_lib::lemma_multiset_commutative(seq![s[0]], tail);
        assert(s =~= seq![s[0]] + tail);
        assert(seq![s[0]].to_multiset() =~= Multiset::<GotifyMessage>::empty().insert(s[0]));
        assert(out.to_multiset() =~= s.to_multiset().insert(m));
    }
}

/// Sorting by id yields an ascending permutation of the input.
pub proof fn lemma_sort_by_id_sorted(s: Seq<GotifyMessage>)
    ensures
        sorted_by_id(sort_by_id(s)),
        sort_by_id(s).to_multiset() =~= s.to_multiset(),
        sort_by_id(s).len() == s.len(),
    decreases s.len(),
{
    broadcast use vstd::seq_lib::group_to_multiset_ensures;

    if s.len() > 0 {
        lemma_sort_by_id_sorted(s.drop_last());
        lemma_insert_by_id_sorted(s.last(), sort_by_id(s.drop_last()));
        assert(s =~= s.drop_last().push(s.last()));
        assert(s.to_multiset() =~= s.drop_last().to_multiset().insert(s.last()));
    }
}

/// One message handed outward by the catch-up poll: the payload addressed by
/// the owning registration, and the message id to delete upstream.
pub struct Delivery {
    pub appid: String,
    pub token: String,
    pub payload: String,
    pub id: i32,
}

/// `d` is how processing hands the message `m` outward: same id and payload,
/// addressed by the registration that owns `m`'s upstream application.
pub open spec fn delivery_matches(
    rows: Seq<DbUpConnection>,
    m: GotifyMessage,
    d: Delivery,
) -> bool {
    &&& d.id == m.id
    &&& d.payload@ == m.message@
    &&& find_by_gotify_id(rows, m.appid) matches Some(c) && d.appid@ == c.appid@ && d.token@
        == c.token@
}

/// Run the catch-up poll over a fetched message list: with no watermark yet
/// there is nothing to catch up on; otherwise sort ascending by id and
/// process every message, returning the deliveries in processing order.
pub fn check_for_missed_messages(store: &mut RegistrationStore, fetched: &Vec<GotifyMessage>) -> (r:
    Vec<Delivery>)
    ensures
        final(store).rows() == old(store).rows(),
        watermark_le(old(store).watermark(), final(store).watermark()),
        old(store).watermark() is None ==> final(store).watermark() == old(store).watermark()
            && r@.len() == 0,
        old(store).watermark() is Some ==> ({
            let sorted = sort_by_id(fetched@);
            let delivered = deliveries_after(old(store).rows(), old(store).watermark(), sorted);
            &&& final(store).watermark() == watermark_after(old(store).watermark(), sorted)
            &&& r@.len() == delivered.len()
            &&& forall|k: int|
                0 <= k < delivered.len() ==> delivery_matches(
                    old(store).rows(),
                    delivered[k],
                    #[trigger] r@[k],
                )
        }),
{
    let mut out: Vec<Delivery> = Vec::new();
    if store.get_last_seen().is_none() {
        return out;
    }
    let sorted = sort_messages_by_id(fetched);
    let ghost w0 = old(store).watermark();
    let ghost rows = old(store).rows();
    let ghost ss = sort_by_id(fetched@);
    let mut i: usize = 0;
    let n = sorted.len();
    while i < n
        invariant
            i <= n,
            n == sorted@.len(),
            sorted@ == ss,
            store.rows() == rows,
            store.watermark() == watermark_after(w0, ss.subrange(0, i as int)),
            out@.len() == deliveries_after(rows, w0, ss.subrange(0, i as int)).len(),
            forall|k: int|
                0 <= k < out@.len() ==> delivery_matches(
                    rows,
                    deliveries_after(rows, w0, ss.subrange(0, i as int))[k],
                    #[trigger] out@[k],
                ),
        decreases n - i,
    {
        let m = &sorted[i];
        let action = handle_message(store, m);
        proof {
            assert(ss.subrange(0, i + 1).drop_last() =~= ss.subrange(0, i as int));
            assert(ss.subrange(0, i + 1).last() == ss[i as int]);
        }
        match action {
            MessageAction::Deliver { appid, token, payload } => {
                out.push(Delivery { appid, token, payload, id: m.id });
            },
            MessageAction::Discard => {},
            MessageAction::Orphan => {},
        }
        i += 1;
    }
    proof {
        assert(ss.subrange(0, n as int) =~= ss);
        lemma_watermark_monotonic(w0, ss);
    }
    out
}

/// The watermark never decreases, whatever sequence of messages is processed
/// and in whatever order the stream and the poll interleave them.
pub proof fn lemma_watermark_monotonic(watermark: Option<i32>, msgs: Seq<GotifyMessage>)
    ensures
        watermark_le(watermark, watermark_after(watermark, msgs)),
    decreases msgs.len(),
{
    if msgs.len() > 0 {
        lemma_watermark_monotonic(watermark, msgs.drop_last());
    }
}

/// A message whose id is at or below the watermark is never delivered,
/// wherever in the processed sequence it arrives.
pub proof fn lemma_stale_never_delivered(
    rows: Seq<DbUpConnection>,
    watermark: Option<i32>,
    msgs: Seq<GotifyMessage>,
)
    ensures
        forall|k: int|
            0 <= k < deliveries_after(rows, watermark, msgs).len() ==> !is_stale(
                watermark,
                #[trigger] deliveries_after(rows, watermark, msgs)[k].id,
            ),
    decreases msgs.len(),
{
    if msgs.len() > 0 {
        lemma_stale_never_delivered(rows, watermark, msgs.drop_last());
        lemma_watermark_monotonic(watermark, msgs.drop_last());
        let earlier = deliveries_after(rows, watermark, msgs.drop_last());
        let all = deliveries_after(rows, watermark, msgs);
        assert forall|k: int| 0 <= k < all.len() implies !is_stale(watermark, all[k].id) by {
            if k < earlier.len() {
                assert(all[k] == earlier[k]);
            } else {
                assert(all[k] == msgs.last());
            }
        }
    }
}

} // verus!

//! The order of the main page: newest entry first.

use vstd::prelude::*;
use crate::listing::{entry_views, BlogEntry, BlogEntryView};

verus! {

/// Whether no entry of `entries` stands before one that was created later.
pub open spec fn is_newest_first(entries: Seq<BlogEntryView>) -> bool {
    forall|i: int, j: int|
        0 <= i < j < entries.len() ==> entries[i].created_at >= entries[j].created_at
}

/// The entries of `entries` that were created at the time `t`, in the order
/// in which they stand there.
pub open spec fn created_at(entries: Seq<BlogEntryView>, t: int) -> Seq<BlogEntryView> {
    entries.filter(|e: BlogEntryView| e.created_at == t)
}

/// Whether `listing` is `entries` put in the order of the main page.
///
/// The listing is newest first. For every time, it holds the entries
/// created at that time exactly as `entries` holds them: the same ones, as
/// often, and in the same order among themselves. So nothing is added,
/// dropped or repeated, and entries of one time keep their order.
pub open spec fn is_listing_of(listing: Seq<BlogEntryView>, entries: Seq<BlogEntryView>) -> bool {
    &&& is_newest_first(listing)
    &&& forall|t: int| #[trigger] created_at(listing, t) == created_at(entries, t)
}

/// What putting `entry` in front of `entries` does to the entries of the time `t`.
pub proof fn lemma_created_at_prepend(entries: Seq<BlogEntryView>, entry: BlogEntryView, t: int)
    ensures
        created_at(seq![entry] + entries, t) == if entry.created_at == t {
            seq![entry] + created_at(entries, t)
        } else {
            created_at(entries, t)
        },
{
    entries.lemma_filter_prepend(entry, |e: BlogEntryView| e.created_at == t);
    if entry.created_at != t {
        assert(Seq::<BlogEntryView>::empty() + created_at(entries, t) =~= created_at(entries, t));
    }
}

/// Entries that were all created at another time than `t` hold none of the time `t`.
pub proof fn lemma_created_at_none(entries: Seq<BlogEntryView>, t: int)
    requires
        forall|i: int| 0 <= i < entries.len() ==> entries[i].created_at != t,
    ensures
        created_at(entries, t) == Seq::<BlogEntryView>::empty(),
    decreases entries.len(),
{
    reveal_with_fuel(Seq::filter, 1);
    if entries.len() > 0 {
        lemma_created_at_none(entries.drop_last(), t);
    }
}

/// What inserting `entry` behind entries that are all newer than it does to
/// the entries of the time `t`: where `entry` is of that time it becomes the
/// first of them, as if it had been put in front of all.
pub proof fn lemma_created_at_insert(
    entries: Seq<BlogEntryView>,
    at: int,
    entry: BlogEntryView,
    t: int,
)
    requires
        0 <= at <= entries.len(),
        forall|i: int| 0 <= i < at ==> entries[i].created_at > entry.created_at,
    ensures
        created_at(entries.insert(at, entry), t) == created_at(seq![entry] + entries, t),
{
    let p = |e: BlogEntryView| e.created_at == t;
    let front = entries.take(at);
    let back = entries.skip(at);
    assert(entries =~= front + back);
    assert(entries.insert(at, entry) =~= front + (seq![entry] + back));
    Seq::filter_distributes_over_add(front, seq![entry] + back, p);
    Seq::filter_distributes_over_add(front, back, p);
    lemma_created_at_prepend(back, entry, t);
    lemma_created_at_prepend(entries, entry, t);
    if entry.created_at == t {
        lemma_created_at_none(front, t);
        assert(created_at(entries.insert(at, entry), t) =~= seq![entry] + created_at(entries, t));
    }
}

/// Puts entries in the order of the main page: newest first, entries of
/// one creation time in the order in which they came.
///
/// Every entry is kept and none is added: the listing is a rearrangement
/// of `entries`.
pub fn newest_first(entries: Vec<BlogEntry>) -> (listing: Vec<BlogEntry>)
    ensures
        is_listing_of(entry_views(listing@), entry_views(entries@)),
        listing@.len() == entries@.len(),
        listing@.to_multiset() == entries@.to_multiset(),
{
    let ghost all = entries@;
    let mut rest = entries;
    let mut listing: Vec<BlogEntry> = Vec::new();
    proof {
        assert(all.skip(all.len() as int) =~= Seq::<BlogEntry>::empty());
        assert(entry_views(listing@) =~= entry_views(all.skip(all.len() as int)));
    }
    while rest.len() > 0
        invariant
            rest@ == all.take(rest@.len() as int),
            rest@.len() <= all.len(),
            listing@.len() + rest@.len() == all.len(),
            is_newest_first(entry_views(listing@)),
            forall|t: int| #[trigger]
                created_at(entry_views(listing@), t) == created_at(
                    entry_views(all.skip(rest@.len() as int)),
                    t,
                ),
            listing@.to_multiset() == all.skip(rest@.len() as int).to_multiset(),
        decreases rest@.len(),
    {
        let ghost k = rest@.len() as int;
        let ghost before = listing@;
        let entry = rest.pop().unwrap();
        let mut at: usize = 0;
        while at < listing.len() && listing[at].created_at > entry.created_at
            invariant
                at <= listing@.len(),
                forall|i: int| 0 <= i < at ==> listing@[i].created_at > entry.created_at,
            decreases listing@.len() - at,
        {
            at += 1;
        }
        listing.insert(at, entry);
        proof {
            let views = entry_views(before);
            assert(entry == all[k - 1]);
            assert(rest@ =~= all.take(k - 1));
            assert(all.skip(k - 1) =~= seq![entry] + all.skip(k));
            assert(all.skip(k - 1) =~= all.skip(k).insert(0, entry));
            assert(entry_views(all.skip(k - 1)) =~= seq![entry@] + entry_views(all.skip(k)));
            assert(entry_views(listing@) =~= views.insert(at as int, entry@));
            assert forall|i: int| 0 <= i < at implies views[i].created_at
                > entry@.created_at by {
                assert(views[i] == before[i]@);
            }
            assert forall|i: int| at <= i < views.len() implies views[i].created_at
                <= entry@.created_at by {
                assert(views[at as int] == before[at as int]@);
            }
            assert forall|t: int| #[trigger]
                created_at(entry_views(listing@), t) == created_at(
                    entry_views(all.skip(k - 1)),
                    t,
                ) by {
                lemma_created_at_insert(views, at as int, entry@, t);
                lemma_created_at_prepend(views, entry@, t);
                lemma_created_at_prepend(entry_views(all.skip(k)), entry@, t);
                assert(created_at(views, t) == created_at(entry_views(all.skip(k)), t));
            }
            vstd::seq_lib::to_multiset_insert(before, at as int, entry);
            vstd::seq_lib::to_multiset_insert(all.skip(k), 0, entry);
        }
    }
    proof {
        assert(all.skip(0) =~= all);
    }
    listing
}

/// In a listing that is newest first, of two entries created at different
/// times the one created later stands before the other, and only then.
pub proof fn lemma_newer_stands_first(listing: Seq<BlogEntryView>, i: int, j: int)
    requires
        is_newest_first(listing),
        0 <= i < listing.len(),
        0 <= j < listing.len(),
        listing[i].created_at != listing[j].created_at,
    ensures
        i < j <==> listing[i].created_at > listing[j].created_at,
{
}

/// An entry stands in `entries` as often as it stands among the entries of
/// its own creation time.
pub proof fn lemma_count_created_at(entries: Seq<BlogEntryView>, entry: BlogEntryView)
    ensures
        entries.to_multiset().count(entry) == created_at(
            entries,
            entry.created_at,
        ).to_multiset().count(entry),
    decreases entries.len(),
{
    broadcast use vstd::multiset::group_multiset_axioms;

    reveal_with_fuel(Seq::filter, 1);
    if entries.len() == 0 {
        assert(created_at(entries, entry.created_at) =~= entries);
    } else {
        let front = entries.drop_last();
        let last = entries.last();
        lemma_count_created_at(front, entry);
        assert(entries =~= front.push(last));
        vstd::seq_lib::to_multiset_build(front, last);
        if last.created_at == entry.created_at {
            vstd::seq_lib::to_multiset_build(created_at(front, entry.created_at), last);
        }
    }
}

/// A listing holds every entry exactly as often as the entries it was made
/// of hold it: none is left out, none is added, none is repeated.
pub proof fn lemma_listing_is_rearrangement(
    listing: Seq<BlogEntryView>,
    entries: Seq<BlogEntryView>,
)
    requires
        is_listing_of(listing, entries),
    ensures
        listing.to_multiset() == entries.to_multiset(),
        listing.len() == entries.len(),
{
    assert forall|entry: BlogEntryView|
        listing.to_multiset().count(entry) == entries.to_multiset().count(entry) by {
        lemma_count_created_at(listing, entry);
        lemma_count_created_at(entries, entry);
        assert(created_at(listing, entry.created_at) == created_at(entries, entry.created_at));
    }
    assert(listing.to_multiset() =~= entries.to_multiset());
    vstd::seq_lib::to_multiset_len(listing);
    vstd::seq_lib::to_multiset_len(entries);
}

/// Where `entries` holds an entry of the time `t`, one stands at the place given.
pub proof fn lemma_created_at_witness(entries: Seq<BlogEntryView>, t: int) -> (i: int)
    requires
        created_at(entries, t).len() > 0,
    ensures
        0 <= i < entries.len(),
        entries[i].created_at == t,
    decreases entries.len(),
{
    reveal_with_fuel(Seq::filter, 1);
    if entries.last().created_at == t {
        entries.len() - 1
    } else {
        lemma_created_at_witness(entries.drop_last(), t)
    }
}

/// What dropping the last entry does to the entries of the time `t`: where
/// the last entry is of that time it is the last of them, and they lose it;
/// else they stay as they are.
pub proof fn lemma_created_at_drop_last(entries: Seq<BlogEntryView>, t: int)
    requires
        entries.len() > 0,
    ensures
        entries.last().created_at == t ==> created_at(entries, t).len() > 0 && created_at(
            entries,
            t,
        ).last() == entries.last() && created_at(entries.drop_last(), t) == created_at(
            entries,
            t,
        ).drop_last(),
        entries.last().created_at != t ==> created_at(entries.drop_last(), t) == created_at(
            entries,
            t,
        ),
{
    reveal_with_fuel(Seq::filter, 1);
    if entries.last().created_at == t {
        assert(created_at(entries.drop_last(), t) =~= created_at(entries, t).drop_last());
    }
}

/// Two sequences that are both newest first and hold, for every time, the
/// same entries of that time in the same order are one and the same.
pub proof fn lemma_same_order(a: Seq<BlogEntryView>, b: Seq<BlogEntryView>)
    requires
        is_newest_first(a),
        is_newest_first(b),
        forall|t: int| #[trigger] created_at(a, t) == created_at(b, t),
    ensures
        a == b,
    decreases a.len(),
{
    lemma_listing_is_rearrangement(a, b);
    if a.len() > 0 {
        let t = a.last().created_at;
        let u = b.last().created_at;
        lemma_created_at_drop_last(a, t);
        lemma_created_at_drop_last(b, u);
        assert(created_at(b, t) == created_at(a, t));
        assert(created_at(a, u) == created_at(b, u));
        let j = lemma_created_at_witness(b, t);
        let i = lemma_created_at_witness(a, u);
        assert(t == u);
        assert(a.last() == b.last());
        let front_a = a.drop_last();
        let front_b = b.drop_last();
        assert forall|w: int| #[trigger] created_at(front_a, w) == created_at(front_b, w) by {
            lemma_created_at_drop_last(a, w);
            lemma_created_at_drop_last(b, w);
            assert(created_at(a, w) == created_at(b, w));
        }
        assert(is_newest_first(front_a)) by {
            assert forall|i: int, j: int| 0 <= i < j < front_a.len() implies front_a[i].created_at
                >= front_a[j].created_at by {
                assert(front_a[i] == a[i] && front_a[j] == a[j]);
            }
        }
        assert(is_newest_first(front_b)) by {
            assert forall|i: int, j: int| 0 <= i < j < front_b.len() implies front_b[i].created_at
                >= front_b[j].created_at by {
                assert(front_b[i] == b[i] && front_b[j] == b[j]);
            }
        }
        lemma_same_order(front_a, front_b);
        assert(a =~= front_a.push(a.last()));
        assert(b =~= front_b.push(b.last()));
    } else {
        assert(a =~= b);
    }
}

/// The entries decide their listing: there is only one way to put them in
/// the order of the main page.
pub proof fn lemma_listing_is_unique(
    first: Seq<BlogEntryView>,
    second: Seq<BlogEntryView>,
    entries: Seq<BlogEntryView>,
)
    requires
        is_listing_of(first, entries),
        is_listing_of(second, entries),
    ensures
        first == second,
{
    assert forall|t: int| #[trigger] created_at(first, t) == created_at(second, t) by {
        assert(created_at(first, t) == created_at(entries, t));
        assert(created_at(second, t) == created_at(entries, t));
    }
    lemma_same_order(first, second);
}

} // verus!

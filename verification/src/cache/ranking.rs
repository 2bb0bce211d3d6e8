use crate::cache::similarity::Similarity;
use vstd::prelude::*;

verus! {

/// What a nearest-neighbour search hands back: one distance and one label per hit, hit
/// by hit. A hit without a vector carries no label.
pub struct SearchResult {
    pub distances: Vec<Similarity>,
    pub labels: Vec<Option<u64>>,
}

/// A hit that has passed the filter: its similarity and the id of its vector.
pub type Scored = (Similarity, u64);

/// A hit counts when its distance is a finite number, it names a vector and its
/// distance reaches the threshold.
pub open spec fn is_match(distance: Similarity, label: Option<u64>, threshold: Similarity) -> bool {
    distance.is_finite() && label.is_some() && distance.at_least(threshold)
}

/// The hits of a search, each distance beside its label, as far as both lists reach.
pub open spec fn hits(distances: Seq<Similarity>, labels: Seq<Option<u64>>) -> Seq<
    (Similarity, Option<u64>),
> {
    Seq::new(
        if distances.len() <= labels.len() {
            distances.len()
        } else {
            labels.len()
        },
        |i: int| (distances[i], labels[i]),
    )
}

/// The hits that count, in the order in which the search returned them.
pub open spec fn candidates(
    distances: Seq<Similarity>,
    labels: Seq<Option<u64>>,
    threshold: Similarity,
) -> Seq<Scored> {
    hits(distances, labels).filter(
        |h: (Similarity, Option<u64>)| is_match(h.0, h.1, threshold),
    ).map_values(|h: (Similarity, Option<u64>)| (h.0, h.1.unwrap()))
}

/// Where `item` goes in `ranked`: behind the leading run of entries that rank at least
/// as high as it does.
pub open spec fn slot(ranked: Seq<Scored>, item: Scored) -> int
    decreases ranked.len(),
{
    if ranked.len() > 0 && ranked[0].0.rank() >= item.0.rank() {
        1 + slot(ranked.drop_first(), item)
    } else {
        0
    }
}

/// `ranked` with `item` put in its slot.
pub open spec fn place(ranked: Seq<Scored>, item: Scored) -> Seq<Scored> {
    ranked.insert(slot(ranked, item), item)
}

/// `items` ordered by falling similarity; items of equal similarity keep their order.
pub open spec fn ranked(items: Seq<Scored>) -> Seq<Scored>
    decreases items.len(),
{
    if items.len() == 0 {
        items
    } else {
        place(ranked(items.drop_last()), items.last())
    }
}

/// The ids of `items`, in their order.
pub open spec fn ids_of_scored(items: Seq<Scored>) -> Seq<u64> {
    items.map_values(|s: Scored| s.1)
}

/// The ids that a search yields under `threshold`: those of the hits that count, the
/// most similar first.
pub open spec fn nearest_ids(
    distances: Seq<Similarity>,
    labels: Seq<Option<u64>>,
    threshold: Similarity,
) -> Seq<u64> {
    ids_of_scored(ranked(candidates(distances, labels, threshold)))
}

/// Similarities never rise along `items`.
pub open spec fn descending(items: Seq<Scored>) -> bool {
    forall|i: int, j: int| 0 <= i < j < items.len() ==> items[i].0.rank() >= items[j].0.rank()
}

/// The items of `items` whose similarity has the given rank, in their order.
pub open spec fn of_rank(items: Seq<Scored>, rank: int) -> Seq<Scored> {
    items.filter(|s: Scored| s.0.rank() == rank)
}

/// The slot lies within the sequence; all before it rank at least as high as the item,
/// and in a descending sequence all from it on rank lower.
pub proof fn lemma_slot(items: Seq<Scored>, item: Scored)
    ensures
        0 <= slot(items, item) <= items.len(),
        forall|i: int| 0 <= i < slot(items, item) ==> items[i].0.rank() >= item.0.rank(),
        slot(items, item) < items.len() ==> items[slot(items, item)].0.rank() < item.0.rank(),
        descending(items) ==> forall|i: int|
            slot(items, item) <= i < items.len() ==> items[i].0.rank() < item.0.rank(),
    decreases items.len(),
{
    if items.len() > 0 && items[0].0.rank() >= item.0.rank() {
        let rest = items.drop_first();
        lemma_slot(rest, item);
        assert forall|i: int| 0 <= i < slot(items, item) implies items[i].0.rank()
            >= item.0.rank() by {
            if i > 0 {
                assert(items[i] == rest[i - 1]);
            }
        }
        if slot(items, item) < items.len() {
            assert(items[slot(items, item)] == rest[slot(rest, item)]);
        }
        if descending(items) {
            assert forall|i: int, j: int| 0 <= i < j < rest.len() implies rest[i].0.rank()
                >= rest[j].0.rank() by {
                assert(rest[i] == items[i + 1]);
                assert(rest[j] == items[j + 1]);
            }
            assert forall|i: int| slot(items, item) <= i < items.len() implies items[i].0.rank()
                < item.0.rank() by {
                assert(items[i] == rest[i - 1]);
            }
        }
    } else {
        if descending(items) && items.len() > 0 {
            assert forall|i: int| 0 <= i < items.len() implies items[i].0.rank()
                < item.0.rank() by {
                if i > 0 {
                    assert(items[0].0.rank() >= items[i].0.rank());
                }
            }
        }
    }
}

/// Putting an item in its slot keeps a descending sequence descending.
pub proof fn lemma_place_descending(items: Seq<Scored>, item: Scored)
    requires
        descending(items),
    ensures
        descending(place(items, item)),
        place(items, item).len() == items.len() + 1,
{
    lemma_slot(items, item);
    let p = slot(items, item);
    let out = place(items, item);
    assert forall|i: int, j: int| 0 <= i < j < out.len() implies out[i].0.rank()
        >= out[j].0.rank() by {
        if i < p {
            assert(out[i] == items[i]);
        } else if i > p {
            assert(out[i] == items[i - 1]);
        }
        if j < p {
            assert(out[j] == items[j]);
        } else if j > p {
            assert(out[j] == items[j - 1]);
        }
    }
}

/// A filter that nothing passes leaves nothing.
proof fn lemma_filter_none(items: Seq<Scored>, pred: spec_fn(Scored) -> bool)
    requires
        forall|i: int| 0 <= i < items.len() ==> !pred(items[i]),
    ensures
        items.filter(pred) == Seq::<Scored>::empty(),
    decreases items.len(),
{
    reveal(Seq::filter);
    if items.len() > 0 {
        let front = items.drop_last();
        assert forall|i: int| 0 <= i < front.len() implies !pred(front[i]) by {
            assert(front[i] == items[i]);
        }
        lemma_filter_none(front, pred);
    }
}

/// Putting an item in its slot appends it to the items of its own rank and leaves the
/// items of every other rank as they were.
pub proof fn lemma_place_of_rank(items: Seq<Scored>, item: Scored, rank: int)
    requires
        descending(items),
    ensures
        of_rank(place(items, item), rank) == if item.0.rank() == rank {
            of_rank(items, rank).push(item)
        } else {
            of_rank(items, rank)
        },
{
    reveal(Seq::filter);
    lemma_slot(items, item);
    let p = slot(items, item);
    let pred = |s: Scored| s.0.rank() == rank;
    let head = items.subrange(0, p);
    let tail = items.subrange(p, items.len() as int);
    let one = Seq::<Scored>::empty().push(item);
    assert(items =~= head + tail);
    assert(place(items, item) =~= head + one + tail);
    Seq::filter_distributes_over_add(head, tail, pred);
    Seq::filter_distributes_over_add(head + one, tail, pred);
    Seq::filter_distributes_over_add(head, one, pred);
    assert(one.drop_last() =~= Seq::<Scored>::empty());
    assert(Seq::<Scored>::empty().filter(pred) =~= Seq::<Scored>::empty());
    if item.0.rank() == rank {
        assert(one.filter(pred) =~= one);
        assert forall|i: int| 0 <= i < tail.len() implies !pred(tail[i]) by {
            assert(tail[i] == items[p + i]);
        }
        lemma_filter_none(tail, pred);
        assert(of_rank(items, rank) =~= head.filter(pred));
        assert(of_rank(place(items, item), rank) =~= head.filter(pred) + one);
        assert(head.filter(pred) + one =~= head.filter(pred).push(item));
    } else {
        assert(one.filter(pred) =~= Seq::<Scored>::empty());
        assert(of_rank(place(items, item), rank) =~= head.filter(pred) + tail.filter(pred));
    }
}

/// Ranking orders: the result never rises in similarity, holds as many items as it was
/// given, and for every similarity holds the items of that similarity in the order in
/// which they were given.
pub proof fn lemma_ranked_is_stable_ordering(items: Seq<Scored>, rank: int)
    ensures
        descending(ranked(items)),
        ranked(items).len() == items.len(),
        of_rank(ranked(items), rank) == of_rank(items, rank),
    decreases items.len(),
{
    reveal(Seq::filter);
    if items.len() > 0 {
        let front = items.drop_last();
        lemma_ranked_is_stable_ordering(front, rank);
        lemma_place_descending(ranked(front), items.last());
        lemma_place_of_rank(ranked(front), items.last(), rank);
    }
}

/// Only hits that count are returned, and no more of them than there were hits.
pub proof fn lemma_nearest_ids_len(
    distances: Seq<Similarity>,
    labels: Seq<Option<u64>>,
    threshold: Similarity,
)
    ensures
        nearest_ids(distances, labels, threshold).len() == candidates(
            distances,
            labels,
            threshold,
        ).len(),
        nearest_ids(distances, labels, threshold).len() <= hits(distances, labels).len(),
        nearest_ids(distances, labels, threshold).len() == 0 <==> forall|i: int|
            0 <= i < hits(distances, labels).len() ==> !is_match(
                distances[i],
                labels[i],
                threshold,
            ),
{
    let all = hits(distances, labels);
    let pred = |h: (Similarity, Option<u64>)| is_match(h.0, h.1, threshold);
    lemma_ranked_is_stable_ordering(candidates(distances, labels, threshold), 0);
    all.lemma_filter_len(pred);
    if all.filter(pred).len() == 0 {
        assert forall|i: int| 0 <= i < all.len() implies !is_match(
            distances[i],
            labels[i],
            threshold,
        ) by {
            if pred(all[i]) {
                all.lemma_filter_contains(pred, i);
            }
        }
    } else {
        all.lemma_filter_pred(pred, 0);
        let h = all.filter(pred)[0];
        all.lemma_filter_contains_rev(pred, h);
    }
}

/// The ids of the hits that count, the most similar first; hits of equal similarity
/// stay in the order in which the search returned them.
pub fn find_nearest_ids(search_result: SearchResult, similarity_threshold: Similarity) -> (ids:
    Vec<u64>)
    ensures
        ids@ == nearest_ids(
            search_result.distances@,
            search_result.labels@,
            similarity_threshold,
        ),
{
    let ghost distances = search_result.distances@;
    let ghost labels = search_result.labels@;
    let ghost all = hits(distances, labels);
    let ghost keep = |h: (Similarity, Option<u64>)| is_match(h.0, h.1, similarity_threshold);
    let ghost pick = |h: (Similarity, Option<u64>)| (h.0, h.1.unwrap());
    let n = if search_result.distances.len() <= search_result.labels.len() {
        search_result.distances.len()
    } else {
        search_result.labels.len()
    };
    let mut order: Vec<Scored> = Vec::new();
    let mut i: usize = 0;
    proof {
        reveal(Seq::filter);
        assert(all.take(0) =~= Seq::empty());
    }
    while i < n
        invariant
            0 <= i <= n,
            n == all.len(),
            distances == search_result.distances@,
            labels == search_result.labels@,
            all == hits(distances, labels),
            keep == |h: (Similarity, Option<u64>)| is_match(h.0, h.1, similarity_threshold),
            pick == |h: (Similarity, Option<u64>)| (h.0, h.1.unwrap()),
            order@ == ranked(all.take(i as int).filter(keep).map_values(pick)),
        decreases n - i,
    {
        let distance = search_result.distances[i];
        let label = search_result.labels[i];
        proof {
            reveal(Seq::filter);
            let before = all.take(i as int);
            let now = all.take(i + 1);
            assert(now.drop_last() =~= before);
            assert(now.last() == (distance, label));
            if keep((distance, label)) {
                assert(now.filter(keep) == before.filter(keep).push((distance, label)));
                assert(now.filter(keep).map_values(pick) =~= before.filter(keep).map_values(
                    pick,
                ).push(pick((distance, label))));
                assert(now.filter(keep).map_values(pick).drop_last() =~= before.filter(
                    keep,
                ).map_values(pick));
            } else {
                assert(now.filter(keep) == before.filter(keep));
            }
        }
        if distance.finite() && distance.ge(similarity_threshold) {
            match label {
                Some(id) => {
                    let item: Scored = (distance, id);
                    let mut p: usize = 0;
                    proof {
                        assert(order@.skip(0) =~= order@);
                    }
                    while p < order.len() && order[p].0.rank_value() >= distance.rank_value()
                        invariant
                            0 <= p <= order.len(),
                            item == (distance, id),
                            slot(order@, item) == p + slot(order@.skip(p as int), item),
                        decreases order.len() - p,
                    {
                        proof {
                            assert(order@.skip(p as int).drop_first() =~= order@.skip(p + 1));
                        }
                        p = p + 1;
                    }
                    order.insert(p, item);
                },
                None => {},
            }
        }
        i = i + 1;
    }
    proof {
        assert(all.take(n as int) =~= all);
    }
    let mut ids: Vec<u64> = Vec::new();
    let mut k: usize = 0;
    while k < order.len()
        invariant
            0 <= k <= order.len(),
            ids@ == ids_of_scored(order@.take(k as int)),
        decreases order.len() - k,
    {
        proof {
            assert(order@.take(k + 1) =~= order@.take(k as int).push(order@[k as int]));
            assert(ids_of_scored(order@.take(k + 1)) =~= ids_of_scored(
                order@.take(k as int),
            ).push(order@[k as int].1));
        }
        ids.push(order[k].1);
        k = k + 1;
    }
    proof {
        assert(order@.take(order.len() as int) =~= order@);
    }
    ids
}

} // verus!

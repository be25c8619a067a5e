use vstd::prelude::*;
use hecs::Entity;
use crate::components::ChunkPos;
use crate::components::Position;
use crate::ecs::Components;
use crate::ecs::same_entity;
use crate::game::chunks::contains_chunk;

verus! {

/// One entry of a listing of the store: an entity and its position, if it
/// has one.
pub type Placed = (Entity, Option<Position>);

/// Whether an entry is in view: it has a position, in one of the chunks
/// `needed`.
pub open spec fn visible(entry: Placed, needed: Seq<ChunkPos>) -> bool {
    entry.1 is Some && needed.contains(entry.1->0.spec_chunk())
}

/// The layer of an entry: 2 for the reference entity, and for any other
/// the layer of its position.
pub open spec fn rank(entry: Placed, reference: Entity) -> int {
    if entry.0 == reference {
        2
    } else {
        entry.1->0.spec_order()
    }
}

/// The diagonal on which an entry lies: the sum of its coordinates.
pub open spec fn diagonal(entry: Placed) -> int {
    entry.1->0.spec_x() + entry.1->0.spec_y()
}

/// Whether entry `i` of the listing `all` comes before entry `j` in the
/// order of drawing: a lower layer comes first; within layer 3 the lower
/// diagonal; and otherwise the entry that stands first in the listing.
pub open spec fn drawn_before(all: Seq<Placed>, reference: Entity, i: int, j: int) -> bool {
    let layer = rank(all[i], reference);
    if layer != rank(all[j], reference) {
        layer < rank(all[j], reference)
    } else if layer == 3 && diagonal(all[i]) != diagonal(all[j]) {
        diagonal(all[i]) < diagonal(all[j])
    } else {
        i < j
    }
}

/// Whether `ids` lists the entities of the entries of `all` that are in
/// view, in the order of drawing; `order` gives the entry of each.
pub open spec fn arranges(
    all: Seq<Placed>,
    reference: Entity,
    needed: Seq<ChunkPos>,
    order: Seq<int>,
    ids: Seq<Entity>,
) -> bool {
    &&& order.len() == ids.len()
    &&& forall|k: int|
        0 <= k < order.len() ==> {
            &&& 0 <= #[trigger] order[k] < all.len()
            &&& visible(all[order[k]], needed)
            &&& ids[k] == all[order[k]].0
        }
    &&& forall|i: int| 0 <= i < all.len() && visible(#[trigger] all[i], needed) ==> order.contains(i)
    &&& forall|a: int, b: int|
        0 <= a < b < order.len() ==> drawn_before(all, reference, #[trigger] order[a], #[trigger] order[b])
}

/// Whether the pair `a` of a diagonal and a place in the listing comes
/// before the pair `b`.
spec fn pair_before(a: (i64, usize), b: (i64, usize)) -> bool {
    a.0 < b.0 || (a.0 == b.0 && a.1 < b.1)
}

/// Whether entry `i` of `all` is in view and in the layer `layer`.
spec fn in_layer(all: Seq<Placed>, reference: Entity, needed: Seq<ChunkPos>, layer: int, i: int) -> bool {
    visible(all[i], needed) && rank(all[i], reference) == layer
}

/// Whether the place `i` is in `bucket`.
spec fn holds(bucket: Seq<usize>, i: int) -> bool {
    exists|k: int| 0 <= k < bucket.len() && #[trigger] bucket[k] as int == i
}

/// Whether `bucket` holds the places of the entries of layer `layer` that
/// are in view among the first `seen` entries of `all`, in rising order.
spec fn gathers(
    all: Seq<Placed>,
    reference: Entity,
    needed: Seq<ChunkPos>,
    layer: int,
    seen: int,
    bucket: Seq<usize>,
) -> bool {
    &&& forall|k: int|
        0 <= k < bucket.len() ==> (#[trigger] bucket[k]) < seen && in_layer(
            all,
            reference,
            needed,
            layer,
            bucket[k] as int,
        )
    &&& forall|i: int|
        0 <= i < seen && #[trigger] in_layer(all, reference, needed, layer, i) ==> holds(bucket, i)
    &&& forall|a: int, b: int|
        0 <= a < b < bucket.len() ==> (#[trigger] bucket[a]) < (#[trigger] bucket[b])
}

/// Whether `bucket` holds the places of the entries of layer `layer` of
/// `all` that are in view, in the order of drawing.
spec fn collects(
    all: Seq<Placed>,
    reference: Entity,
    needed: Seq<ChunkPos>,
    layer: int,
    bucket: Seq<usize>,
) -> bool {
    &&& forall|k: int|
        0 <= k < bucket.len() ==> (#[trigger] bucket[k]) < all.len() && in_layer(
            all,
            reference,
            needed,
            layer,
            bucket[k] as int,
        )
    &&& forall|i: int|
        0 <= i < all.len() && #[trigger] in_layer(all, reference, needed, layer, i) ==> holds(
            bucket,
            i,
        )
    &&& forall|a: int, b: int|
        0 <= a < b < bucket.len() ==> drawn_before(
            all,
            reference,
            #[trigger] bucket[a] as int,
            #[trigger] bucket[b] as int,
        )
}

/// Whether `order` holds the places of the entries of `all` that are in
/// view and in a layer up to `top`, in the order of drawing.
spec fn ordered_up_to(
    all: Seq<Placed>,
    reference: Entity,
    needed: Seq<ChunkPos>,
    top: int,
    order: Seq<int>,
) -> bool {
    &&& forall|k: int|
        0 <= k < order.len() ==> {
            &&& 0 <= #[trigger] order[k] < all.len()
            &&& visible(all[order[k]], needed)
            &&& rank(all[order[k]], reference) <= top
        }
    &&& forall|i: int|
        0 <= i < all.len() && visible(#[trigger] all[i], needed) && rank(all[i], reference) <= top
            ==> order.contains(i)
    &&& forall|a: int, b: int|
        0 <= a < b < order.len() ==> drawn_before(all, reference, #[trigger] order[a], #[trigger] order[b])
}

/// The places of a bucket as integers.
spec fn places(bucket: Seq<usize>) -> Seq<int> {
    Seq::new(bucket.len(), |k: int| bucket[k] as int)
}

/// The entities at the places of a bucket.
spec fn entities_at(all: Seq<Placed>, bucket: Seq<usize>) -> Seq<Entity> {
    Seq::new(bucket.len(), |k: int| all[bucket[k] as int].0)
}

proof fn lemma_gathers_skip(
    all: Seq<Placed>,
    reference: Entity,
    needed: Seq<ChunkPos>,
    layer: int,
    seen: int,
    bucket: Seq<usize>,
)
    requires
        0 <= seen < all.len(),
        gathers(all, reference, needed, layer, seen, bucket),
        !in_layer(all, reference, needed, layer, seen),
    ensures
        gathers(all, reference, needed, layer, seen + 1, bucket),
{
}

proof fn lemma_gathers_push(
    all: Seq<Placed>,
    reference: Entity,
    needed: Seq<ChunkPos>,
    layer: int,
    seen: usize,
    bucket: Seq<usize>,
)
    requires
        seen < all.len(),
        gathers(all, reference, needed, layer, seen as int, bucket),
        in_layer(all, reference, needed, layer, seen as int),
    ensures
        gathers(all, reference, needed, layer, seen + 1, bucket.push(seen)),
{
    let longer = bucket.push(seen);
    assert forall|i: int|
        0 <= i < seen + 1 && #[trigger] in_layer(all, reference, needed, layer, i) implies holds(
        longer,
        i,
    ) by {
        if i < seen {
            assert(holds(bucket, i));
            let k = choose|k: int| 0 <= k < bucket.len() && #[trigger] bucket[k] as int == i;
            assert(longer[k] as int == i);
        } else {
            assert(longer[bucket.len() as int] as int == i);
        }
    }
}

proof fn lemma_extend_order(
    all: Seq<Placed>,
    reference: Entity,
    needed: Seq<ChunkPos>,
    layer: int,
    order: Seq<int>,
    bucket: Seq<usize>,
)
    requires
        ordered_up_to(all, reference, needed, layer - 1, order),
        collects(all, reference, needed, layer, bucket),
    ensures
        ordered_up_to(all, reference, needed, layer, order + places(bucket)),
{
    let longer = order + places(bucket);
    assert forall|i: int|
        0 <= i < all.len() && visible(#[trigger] all[i], needed) && rank(all[i], reference)
            <= layer implies longer.contains(i) by {
        if rank(all[i], reference) < layer {
            assert(order.contains(i));
            let k = choose|k: int| 0 <= k < order.len() && order[k] == i;
            assert(longer[k] == i);
        } else {
            assert(in_layer(all, reference, needed, layer, i));
            assert(holds(bucket, i));
            let k = choose|k: int| 0 <= k < bucket.len() && #[trigger] bucket[k] as int == i;
            assert(longer[order.len() + k] == i);
        }
    }
    assert forall|a: int, b: int| 0 <= a < b < longer.len() implies drawn_before(
        all,
        reference,
        #[trigger] longer[a],
        #[trigger] longer[b],
    ) by {
        if b < order.len() {
            assert(longer[a] == order[a] && longer[b] == order[b]);
        } else if a >= order.len() {
            assert(longer[a] == bucket[a - order.len()] as int);
            assert(longer[b] == bucket[b - order.len()] as int);
        } else {
            assert(longer[a] == order[a]);
            assert(longer[b] == bucket[b - order.len()] as int);
        }
    }
    assert forall|k: int| 0 <= k < longer.len() implies {
        &&& 0 <= #[trigger] longer[k] < all.len()
        &&& visible(all[longer[k]], needed)
        &&& rank(all[longer[k]], reference) <= layer
    } by {
        if k < order.len() {
            assert(longer[k] == order[k]);
        } else {
            assert(longer[k] == bucket[k - order.len()] as int);
        }
    }
}

/// Appends the entities at the places of `bucket` to `ids`.
fn append_layer(ids: &mut Vec<Entity>, all: &Vec<Placed>, bucket: &Vec<usize>)
    requires
        forall|k: int| 0 <= k < bucket@.len() ==> (#[trigger] bucket@[k]) < all@.len(),
    ensures
        final(ids)@ == old(ids)@ + entities_at(all@, bucket@),
{
    let mut n: usize = 0;
    while n < bucket.len()
        invariant
            n <= bucket@.len(),
            forall|k: int| 0 <= k < bucket@.len() ==> (#[trigger] bucket@[k]) < all@.len(),
            ids@ == old(ids)@ + entities_at(all@, bucket@.subrange(0, n as int)),
        decreases bucket@.len() - n,
    {
        ids.push(all[bucket[n]].0);
        n += 1;
        assert(ids@ =~= old(ids)@ + entities_at(all@, bucket@.subrange(0, n as int)));
    }
    assert(bucket@.subrange(0, n as int) =~= bucket@);
}

/// Sorts pairs of a diagonal and a place in the listing, by diagonal and
/// then by place.
fn sort_pairs(pairs: &Vec<(i64, usize)>) -> (sorted: Vec<(i64, usize)>)
    requires
        forall|a: int, b: int| 0 <= a < b < pairs@.len() ==> pairs@[a] != pairs@[b],
    ensures
        sorted@.len() == pairs@.len(),
        forall|k: int| 0 <= k < sorted@.len() ==> pairs@.contains(#[trigger] sorted@[k]),
        forall|k: int| 0 <= k < pairs@.len() ==> sorted@.contains(#[trigger] pairs@[k]),
        forall|a: int, b: int|
            0 <= a < b < sorted@.len() ==> pair_before(#[trigger] sorted@[a], #[trigger] sorted@[b]),
{
    let mut sorted: Vec<(i64, usize)> = Vec::new();
    let mut n: usize = 0;
    while n < pairs.len()
        invariant
            n <= pairs@.len(),
            sorted@.len() == n,
            forall|a: int, b: int| 0 <= a < b < pairs@.len() ==> pairs@[a] != pairs@[b],
            forall|k: int|
                0 <= k < sorted@.len() ==> exists|m: int|
                    0 <= m < n && pairs@[m] == #[trigger] sorted@[k],
            forall|m: int| 0 <= m < n ==> sorted@.contains(#[trigger] pairs@[m]),
            forall|a: int, b: int|
                0 <= a < b < sorted@.len() ==> pair_before(
                    #[trigger] sorted@[a],
                    #[trigger] sorted@[b],
                ),
        decreases pairs@.len() - n,
    {
        let pair = pairs[n];
        let mut at: usize = 0;
        while at < sorted.len() && (sorted[at].0 < pair.0 || (sorted[at].0 == pair.0 && sorted[at].1
            < pair.1))
            invariant
                at <= sorted@.len(),
                forall|k: int| 0 <= k < at ==> pair_before(#[trigger] sorted@[k], pair),
            decreases sorted@.len() - at,
        {
            at += 1;
        }
        let ghost before = sorted@;
        sorted.insert(at, pair);
        proof {
            assert forall|k: int| 0 <= k < sorted@.len() implies exists|m: int|
                0 <= m < n + 1 && pairs@[m] == #[trigger] sorted@[k] by {
                if k < at {
                    assert(sorted@[k] == before[k]);
                    let m = choose|m: int| 0 <= m < n && pairs@[m] == before[k];
                    assert(pairs@[m] == sorted@[k]);
                } else if k == at {
                    assert(pairs@[n as int] == sorted@[k]);
                } else {
                    assert(sorted@[k] == before[k - 1]);
                    let m = choose|m: int| 0 <= m < n && pairs@[m] == before[k - 1];
                    assert(pairs@[m] == sorted@[k]);
                }
            }
            assert forall|m: int| 0 <= m < n + 1 implies sorted@.contains(#[trigger] pairs@[m]) by {
                if m < n {
                    let k = choose|k: int| 0 <= k < before.len() && before[k] == pairs@[m];
                    if k < at {
                        assert(sorted@[k] == pairs@[m]);
                    } else {
                        assert(sorted@[k + 1] == pairs@[m]);
                    }
                } else {
                    assert(sorted@[at as int] == pairs@[m]);
                }
            }
            assert forall|a: int, b: int| 0 <= a < b < sorted@.len() implies pair_before(
                #[trigger] sorted@[a],
                #[trigger] sorted@[b],
            ) by {
                if at < before.len() {
                    let m = choose|m: int| 0 <= m < n && pairs@[m] == before[at as int];
                    assert(before[at as int] != pair);
                    assert(pair_before(pair, before[at as int]));
                }
                if a < at && b > at {
                    assert(sorted@[a] == before[a]);
                    assert(sorted@[b] == before[b - 1]);
                } else if a > at {
                    assert(sorted@[a] == before[a - 1]);
                    assert(sorted@[b] == before[b - 1]);
                } else if a == at {
                    assert(sorted@[b] == before[b - 1]);
                    if b - 1 > at {
                        assert(pair_before(before[at as int], before[b - 1]));
                    }
                } else if b == at {
                    assert(sorted@[a] == before[a]);
                } else {
                    assert(sorted@[a] == before[a]);
                    assert(sorted@[b] == before[b]);
                }
            }
        }
        n += 1;
    }
    proof {
        assert forall|k: int| 0 <= k < sorted@.len() implies pairs@.contains(#[trigger] sorted@[k]) by {
            let m = choose|m: int| 0 <= m < n && pairs@[m] == sorted@[k];
            assert(pairs@[m] == sorted@[k]);
        }
    }
    sorted
}

/// The places of layer 3, by diagonal and then by place.
fn sort_by_diagonal(
    all: &Vec<Placed>,
    bucket: &Vec<usize>,
    Ghost(reference): Ghost<Entity>,
    Ghost(needed): Ghost<Seq<ChunkPos>>,
) -> (sorted: Vec<usize>)
    requires
        gathers(all@, reference, needed, 3, all@.len() as int, bucket@),
    ensures
        collects(all@, reference, needed, 3, sorted@),
{
    let mut pairs: Vec<(i64, usize)> = Vec::new();
    let mut n: usize = 0;
    while n < bucket.len()
        invariant
            n <= bucket@.len(),
            pairs@.len() == n,
            gathers(all@, reference, needed, 3, all@.len() as int, bucket@),
            forall|k: int|
                0 <= k < n ==> (#[trigger] pairs@[k]).1 == bucket@[k] && pairs@[k].0 == diagonal(
                    all@[bucket@[k] as int],
                ),
        decreases bucket@.len() - n,
    {
        let place = bucket[n];
        assert(in_layer(all@, reference, needed, 3, place as int));
        match all[place].1 {
            Some(position) => {
                assert(position is Tile);
                pairs.push((position.x() + position.y(), place));
            },
            None => {},
        }
        n += 1;
    }
    assert forall|a: int, b: int| 0 <= a < b < pairs@.len() implies pairs@[a] != pairs@[b] by {
        assert(bucket@[a] < bucket@[b]);
    }
    let sorted_pairs = sort_pairs(&pairs);
    let mut sorted: Vec<usize> = Vec::new();
    let mut m: usize = 0;
    while m < sorted_pairs.len()
        invariant
            m <= sorted_pairs@.len(),
            sorted@.len() == m,
            forall|k: int| 0 <= k < m ==> #[trigger] sorted@[k] == sorted_pairs@[k].1,
        decreases sorted_pairs@.len() - m,
    {
        sorted.push(sorted_pairs[m].1);
        m += 1;
    }
    proof {
        assert forall|k: int| 0 <= k < sorted@.len() implies (#[trigger] sorted@[k]) < all@.len()
            && in_layer(all@, reference, needed, 3, sorted@[k] as int) && sorted_pairs@[k].0
            == diagonal(all@[sorted@[k] as int]) by {
            assert(pairs@.contains(sorted_pairs@[k]));
            let j = choose|j: int| 0 <= j < pairs@.len() && pairs@[j] == sorted_pairs@[k];
            assert(pairs@[j].1 == bucket@[j]);
        }
        assert forall|i: int|
            0 <= i < all@.len() && #[trigger] in_layer(
                all@,
                reference,
                needed,
                3,
                i,
            ) implies holds(sorted@, i) by {
            assert(holds(bucket@, i));
            let j = choose|j: int| 0 <= j < bucket@.len() && #[trigger] bucket@[j] as int == i;
            assert(sorted_pairs@.contains(pairs@[j]));
            let k = choose|k: int| 0 <= k < sorted_pairs@.len() && sorted_pairs@[k] == pairs@[j];
            assert(sorted@[k] as int == i);
        }
        assert forall|a: int, b: int| 0 <= a < b < sorted@.len() implies drawn_before(
            all@,
            reference,
            #[trigger] sorted@[a] as int,
            #[trigger] sorted@[b] as int,
        ) by {
            assert(pair_before(sorted_pairs@[a], sorted_pairs@[b]));
            assert(sorted_pairs@[a].0 == diagonal(all@[sorted@[a] as int]));
            assert(sorted_pairs@[b].0 == diagonal(all@[sorted@[b] as int]));
        }
    }
    sorted
}

/// The entities of the listing `all` that are in view, in the order of
/// drawing: by layer, the reference entity being layer 2 and every other
/// entity in the layer of its position; within layer 3 by diagonal; and
/// otherwise as they stand in the listing.
pub fn render_order(all: &Vec<Placed>, reference: Entity, needed: &Vec<ChunkPos>) -> (ids: Vec<
    Entity,
>)
    ensures
        exists|order: Seq<int>| arranges(all@, reference, needed@, order, ids@),
{
    let mut tiles: Vec<usize> = Vec::new();
    let mut free: Vec<usize> = Vec::new();
    let mut middle: Vec<usize> = Vec::new();
    let mut top_tiles: Vec<usize> = Vec::new();
    let mut top_free: Vec<usize> = Vec::new();
    let mut k: usize = 0;
    while k < all.len()
        invariant
            k <= all@.len(),
            gathers(all@, reference, needed@, 0, k as int, tiles@),
            gathers(all@, reference, needed@, 1, k as int, free@),
            gathers(all@, reference, needed@, 2, k as int, middle@),
            gathers(all@, reference, needed@, 3, k as int, top_tiles@),
            gathers(all@, reference, needed@, 4, k as int, top_free@),
        decreases all@.len() - k,
    {
        let layer: usize = match all[k].1 {
            Some(position) => if contains_chunk(needed, position.chunk()) {
                if same_entity(all[k].0, reference) {
                    2
                } else {
                    position.order()
                }
            } else {
                5
            },
            None => 5,
        };
        proof {
            assert(layer < 5 ==> in_layer(all@, reference, needed@, layer as int, k as int));
            assert(layer == 5 ==> !visible(all@[k as int], needed@));
            if layer != 0 {
                lemma_gathers_skip(all@, reference, needed@, 0, k as int, tiles@);
            } else {
                lemma_gathers_push(all@, reference, needed@, 0, k, tiles@);
            }
            if layer != 1 {
                lemma_gathers_skip(all@, reference, needed@, 1, k as int, free@);
            } else {
                lemma_gathers_push(all@, reference, needed@, 1, k, free@);
            }
            if layer != 2 {
                lemma_gathers_skip(all@, reference, needed@, 2, k as int, middle@);
            } else {
                lemma_gathers_push(all@, reference, needed@, 2, k, middle@);
            }
            if layer != 3 {
                lemma_gathers_skip(all@, reference, needed@, 3, k as int, top_tiles@);
            } else {
                lemma_gathers_push(all@, reference, needed@, 3, k, top_tiles@);
            }
            if layer != 4 {
                lemma_gathers_skip(all@, reference, needed@, 4, k as int, top_free@);
            } else {
                lemma_gathers_push(all@, reference, needed@, 4, k, top_free@);
            }
        }
        if layer == 0 {
            tiles.push(k);
        } else if layer == 1 {
            free.push(k);
        } else if layer == 2 {
            middle.push(k);
        } else if layer == 3 {
            top_tiles.push(k);
        } else if layer == 4 {
            top_free.push(k);
        }
        k += 1;
    }
    let sorted = sort_by_diagonal(all, &top_tiles, Ghost(reference), Ghost(needed@));
    let mut ids: Vec<Entity> = Vec::new();
    append_layer(&mut ids, all, &tiles);
    append_layer(&mut ids, all, &free);
    append_layer(&mut ids, all, &middle);
    append_layer(&mut ids, all, &sorted);
    append_layer(&mut ids, all, &top_free);
    proof {
        let empty = Seq::<int>::empty();
        assert(ordered_up_to(all@, reference, needed@, -1, empty));
        lemma_extend_order(all@, reference, needed@, 0, empty, tiles@);
        let o0 = empty + places(tiles@);
        lemma_extend_order(all@, reference, needed@, 1, o0, free@);
        let o1 = o0 + places(free@);
        lemma_extend_order(all@, reference, needed@, 2, o1, middle@);
        let o2 = o1 + places(middle@);
        lemma_extend_order(all@, reference, needed@, 3, o2, sorted@);
        let o3 = o2 + places(sorted@);
        lemma_extend_order(all@, reference, needed@, 4, o3, top_free@);
        let order = o3 + places(top_free@);
        assert(order.len() == ids@.len());
        assert forall|n: int| 0 <= n < order.len() implies ids@[n] == all@[#[trigger] order[n]].0 by {
        }
        assert(arranges(all@, reference, needed@, order, ids@));
    }
    ids
}

/// The entry that the world `world` has for the entity `id`.
pub open spec fn placed(world: Map<Entity, Components>, id: Entity) -> Placed {
    (id, world[id].position)
}

/// Whether `ids` lists the entities of `world` that are in view, each
/// once, layer by layer, and layer 3 by rising diagonal.
pub open spec fn draws(
    ids: Seq<Entity>,
    world: Map<Entity, Components>,
    reference: Entity,
    needed: Seq<ChunkPos>,
) -> bool {
    &&& ids.no_duplicates()
    &&& forall|id: Entity|
        #![trigger ids.contains(id)]
        ids.contains(id) <==> world.contains_key(id) && visible(placed(world, id), needed)
    &&& forall|a: int, b: int|
        0 <= a < b < ids.len() ==> rank(placed(world, #[trigger] ids[a]), reference) <= rank(
            placed(world, #[trigger] ids[b]),
            reference,
        )
    &&& forall|a: int, b: int|
        0 <= a < b < ids.len() && rank(placed(world, #[trigger] ids[a]), reference) == 3 && rank(
            placed(world, #[trigger] ids[b]),
            reference,
        ) == 3 ==> diagonal(placed(world, ids[a])) <= diagonal(placed(world, ids[b]))
}

/// Whether `all` lists the entities of `world` with their positions, each
/// once.
pub open spec fn lists(all: Seq<Placed>, world: Map<Entity, Components>) -> bool {
    &&& forall|i: int|
        0 <= i < all.len() ==> world.contains_key(#[trigger] all[i].0) && all[i].1
            == world[all[i].0].position
    &&& forall|id: Entity|
        world.contains_key(id) ==> exists|i: int| 0 <= i < all.len() && #[trigger] all[i].0 == id
    &&& forall|i: int, j: int| 0 <= i < j < all.len() ==> #[trigger] all[i].0 != #[trigger] all[j].0
}

/// An arrangement of a listing of a world draws that world.
pub proof fn lemma_arranged_draws(
    all: Seq<Placed>,
    world: Map<Entity, Components>,
    reference: Entity,
    needed: Seq<ChunkPos>,
    order: Seq<int>,
    ids: Seq<Entity>,
)
    requires
        lists(all, world),
        arranges(all, reference, needed, order, ids),
    ensures
        draws(ids, world, reference, needed),
{
    assert forall|k: int| 0 <= k < ids.len() implies placed(world, #[trigger] ids[k]) == all[order[k]] by {
        assert(0 <= order[k] < all.len());
        assert(world.contains_key(all[order[k]].0));
    }
    assert forall|a: int, b: int| 0 <= a < b < ids.len() implies ids[a] != ids[b] by {
        assert(drawn_before(all, reference, order[a], order[b]));
        if ids[a] == ids[b] {
            assert(all[order[a]].0 == all[order[b]].0);
            if order[a] < order[b] {
                assert(all[order[a]].0 != all[order[b]].0);
            } else if order[b] < order[a] {
                assert(all[order[b]].0 != all[order[a]].0);
            }
        }
    }
    assert forall|id: Entity|
        #![trigger ids.contains(id)]
        ids.contains(id) <==> world.contains_key(id) && visible(placed(world, id), needed) by {
        if ids.contains(id) {
            let k = choose|k: int| 0 <= k < ids.len() && ids[k] == id;
            assert(placed(world, ids[k]) == all[order[k]]);
        }
        if world.contains_key(id) && visible(placed(world, id), needed) {
            let i = choose|i: int| 0 <= i < all.len() && #[trigger] all[i].0 == id;
            assert(all[i] == placed(world, id));
            assert(order.contains(i));
            let k = choose|k: int| 0 <= k < order.len() && order[k] == i;
            assert(ids[k] == id);
        }
    }
    assert forall|a: int, b: int| 0 <= a < b < ids.len() implies rank(
        placed(world, #[trigger] ids[a]),
        reference,
    ) <= rank(placed(world, #[trigger] ids[b]), reference) by {
        assert(drawn_before(all, reference, order[a], order[b]));
    }
    assert forall|a: int, b: int|
        0 <= a < b < ids.len() && rank(placed(world, #[trigger] ids[a]), reference) == 3 && rank(
            placed(world, #[trigger] ids[b]),
            reference,
        ) == 3 implies diagonal(placed(world, ids[a])) <= diagonal(placed(world, ids[b])) by {
        assert(drawn_before(all, reference, order[a], order[b]));
    }
}

/// Of two entities in view, the one in the lower layer is drawn first.
pub proof fn lemma_lower_layer_first(
    ids: Seq<Entity>,
    world: Map<Entity, Components>,
    reference: Entity,
    needed: Seq<ChunkPos>,
    a: int,
    b: int,
)
    requires
        draws(ids, world, reference, needed),
        0 <= a < ids.len(),
        0 <= b < ids.len(),
        rank(placed(world, ids[a]), reference) < rank(placed(world, ids[b]), reference),
    ensures
        a < b,
{
    if b < a {
        assert(rank(placed(world, ids[b]), reference) <= rank(placed(world, ids[a]), reference));
    }
}

/// Of two entities in view in layer 3, the one on the lower diagonal is
/// drawn first.
pub proof fn lemma_lower_diagonal_first(
    ids: Seq<Entity>,
    world: Map<Entity, Components>,
    reference: Entity,
    needed: Seq<ChunkPos>,
    a: int,
    b: int,
)
    requires
        draws(ids, world, reference, needed),
        0 <= a < ids.len(),
        0 <= b < ids.len(),
        rank(placed(world, ids[a]), reference) == 3,
        rank(placed(world, ids[b]), reference) == 3,
        diagonal(placed(world, ids[a])) < diagonal(placed(world, ids[b])),
    ensures
        a < b,
{
    if b < a {
        assert(diagonal(placed(world, ids[b])) <= diagonal(placed(world, ids[a])));
    }
}

/// The reference entity stands between the two lower layers and the two
/// upper ones: what is drawn before it is in layer 0 or 1, and what is
/// drawn after it in layer 3 or 4.
pub proof fn lemma_reference_in_the_middle(
    ids: Seq<Entity>,
    world: Map<Entity, Components>,
    reference: Entity,
    needed: Seq<ChunkPos>,
    at: int,
)
    requires
        draws(ids, world, reference, needed),
        0 <= at < ids.len(),
        ids[at] == reference,
    ensures
        forall|i: int| 0 <= i < at ==> rank(placed(world, #[trigger] ids[i]), reference) <= 1,
        forall|i: int| at < i < ids.len() ==> rank(placed(world, #[trigger] ids[i]), reference) >= 3,
{
    assert forall|i: int| 0 <= i < at implies rank(placed(world, #[trigger] ids[i]), reference) <= 1 by {
        assert(ids[i] != ids[at]);
        assert(rank(placed(world, ids[i]), reference) <= rank(placed(world, ids[at]), reference));
        assert(ids.contains(ids[i]));
        assert(visible(placed(world, ids[i]), needed));
    }
    assert forall|i: int| at < i < ids.len() implies rank(placed(world, #[trigger] ids[i]), reference)
        >= 3 by {
        assert(ids[i] != ids[at]);
        assert(rank(placed(world, ids[at]), reference) <= rank(placed(world, ids[i]), reference));
        assert(ids.contains(ids[i]));
        assert(visible(placed(world, ids[i]), needed));
    }
}

} // verus!

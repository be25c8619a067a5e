use vstd::prelude::*;
use crate::components::ChunkPos;
use crate::components::Position;
use crate::constants::RENDER_DISTANCE;
use crate::game::cells_of;
use crate::game::chunk_cells;

verus! {

/// The keys of the chunks that have to exist around the chunk `center`: a
/// square of `RENDER_DISTANCE` by `RENDER_DISTANCE` chunks, row by row.
pub open spec fn spec_required_chunks(center: ChunkPos) -> Seq<ChunkPos> {
    Seq::new(
        (RENDER_DISTANCE * RENDER_DISTANCE) as nat,
        |i: int|
            ChunkPos {
                x: (center.x + i % (RENDER_DISTANCE as int) - (RENDER_DISTANCE as int) / 2) as i32,
                y: (center.y + i / (RENDER_DISTANCE as int) - (RENDER_DISTANCE as int) / 2) as i32,
            },
    )
}

/// Whether every chunk around `center` has a key: none lies beyond the
/// range of chunk coordinates.
pub open spec fn has_neighbourhood(center: ChunkPos) -> bool {
    &&& i32::MIN <= center.x - (RENDER_DISTANCE as int) / 2
    &&& center.x + (RENDER_DISTANCE as int) - 1 - (RENDER_DISTANCE as int) / 2 <= i32::MAX
    &&& i32::MIN <= center.y - (RENDER_DISTANCE as int) / 2
    &&& center.y + (RENDER_DISTANCE as int) - 1 - (RENDER_DISTANCE as int) / 2 <= i32::MAX
}

/// The neighbourhood of a chunk has `RENDER_DISTANCE` squared keys, all
/// different, none further than half of `RENDER_DISTANCE` from the chunk,
/// and the chunk itself is one of them.
pub proof fn lemma_required_chunks(center: ChunkPos)
    requires
        has_neighbourhood(center),
    ensures
        spec_required_chunks(center).len() == RENDER_DISTANCE * RENDER_DISTANCE,
        spec_required_chunks(center).no_duplicates(),
        spec_required_chunks(center).contains(center),
        forall|i: int|
            0 <= i < spec_required_chunks(center).len() ==> {
                let key = #[trigger] spec_required_chunks(center)[i];
                &&& center.x - RENDER_DISTANCE / 2 <= key.x <= center.x + RENDER_DISTANCE / 2
                &&& center.y - RENDER_DISTANCE / 2 <= key.y <= center.y + RENDER_DISTANCE / 2
            },
{
    let keys = spec_required_chunks(center);
    assert(keys[4] == center);
    assert forall|i: int, j: int| 0 <= i < keys.len() && 0 <= j < keys.len() && i != j implies keys[i]
        != keys[j] by {
        if keys[i] == keys[j] {
            assert(i % 3 == j % 3);
            assert(i / 3 == j / 3);
        }
    }
}

/// The keys of the chunks that have to exist around the chunk `center`.
pub fn required_chunks(center: ChunkPos) -> (keys: Vec<ChunkPos>)
    requires
        has_neighbourhood(center),
    ensures
        keys@ == spec_required_chunks(center),
{
    let mut keys: Vec<ChunkPos> = Vec::new();
    let mut i: usize = 0;
    while i < RENDER_DISTANCE * RENDER_DISTANCE
        invariant
            has_neighbourhood(center),
            i <= RENDER_DISTANCE * RENDER_DISTANCE,
            keys@.len() == i,
            forall|k: int| 0 <= k < i ==> keys@[k] == spec_required_chunks(center)[k],
        decreases RENDER_DISTANCE * RENDER_DISTANCE - i,
    {
        let dx: i64 = (i % RENDER_DISTANCE) as i64 - (RENDER_DISTANCE / 2) as i64;
        let dy: i64 = (i / RENDER_DISTANCE) as i64 - (RENDER_DISTANCE / 2) as i64;
        keys.push(ChunkPos::new((center.x as i64 + dx) as i32, (center.y as i64 + dy) as i32));
        i += 1;
    }
    assert(keys@ =~= spec_required_chunks(center));
    keys
}

/// Whether `key` is one of `keys`.
pub fn contains_chunk(keys: &Vec<ChunkPos>, key: ChunkPos) -> (found: bool)
    ensures
        found == keys@.contains(key),
{
    let mut i: usize = 0;
    while i < keys.len()
        invariant
            i <= keys@.len(),
            forall|k: int| 0 <= k < i ==> keys@[k] != key,
        decreases keys@.len() - i,
    {
        if keys[i] == key {
            return true;
        }
        i += 1;
    }
    false
}

/// The keys of `needed` that are not in `table`, in the order of `needed`.
pub open spec fn missing_chunks(needed: Seq<ChunkPos>, table: Seq<ChunkPos>) -> Seq<ChunkPos>
    decreases needed.len(),
{
    if needed.len() == 0 {
        Seq::empty()
    } else if table.contains(needed.last()) {
        missing_chunks(needed.drop_last(), table)
    } else {
        missing_chunks(needed.drop_last(), table).push(needed.last())
    }
}

/// The keys that are missing from a table are keys that were needed, and
/// with them the table has every key that was needed.
pub proof fn lemma_missing_chunks(needed: Seq<ChunkPos>, table: Seq<ChunkPos>)
    ensures
        forall|k: int|
            0 <= k < missing_chunks(needed, table).len() ==> needed.contains(
                #[trigger] missing_chunks(needed, table)[k],
            ) && !table.contains(missing_chunks(needed, table)[k]),
        forall|k: int|
            0 <= k < needed.len() ==> (table + missing_chunks(needed, table)).contains(
                #[trigger] needed[k],
            ),
        missing_chunks(needed, table).len() <= needed.len(),
        needed.no_duplicates() ==> missing_chunks(needed, table).no_duplicates(),
    decreases needed.len(),
{
    if needed.len() > 0 {
        let shorter = needed.drop_last();
        let rest = missing_chunks(shorter, table);
        let all = missing_chunks(needed, table);
        lemma_missing_chunks(shorter, table);
        assert forall|k: int| 0 <= k < all.len() implies needed.contains(#[trigger] all[k])
            && !table.contains(all[k]) by {
            if k < rest.len() {
                assert(all[k] == rest[k]);
                assert(shorter.contains(rest[k]));
                let i = choose|i: int| 0 <= i < shorter.len() && shorter[i] == rest[k];
                assert(needed[i] == rest[k]);
            } else {
                assert(all[k] == needed[needed.len() - 1]);
            }
        }
        assert forall|k: int| 0 <= k < needed.len() implies (table + all).contains(
            #[trigger] needed[k],
        ) by {
            if k < shorter.len() {
                assert(shorter[k] == needed[k]);
                assert((table + rest).contains(shorter[k]));
                let i = choose|i: int| 0 <= i < (table + rest).len() && (table + rest)[i] == shorter[k];
                assert((table + all)[i] == needed[k]);
            } else if table.contains(needed[k]) {
                let i = choose|i: int| 0 <= i < table.len() && table[i] == needed[k];
                assert((table + all)[i] == needed[k]);
            } else {
                assert((table + all)[table.len() + all.len() - 1] == needed[k]);
            }
        }
        if needed.no_duplicates() {
            assert(shorter.no_duplicates());
            assert forall|a: int, b: int| 0 <= a < b < all.len() implies all[a] != all[b] by {
                if b == rest.len() {
                    assert(shorter.contains(rest[a]));
                    let i = choose|i: int| 0 <= i < shorter.len() && shorter[i] == rest[a];
                    assert(needed[i] == rest[a]);
                }
            }
        }
    }
}

/// The cells of some chunks and of one more are the cells of the former
/// and the cells of the latter, which have no cell in common if the one is
/// none of the others.
pub proof fn lemma_cells_of_push(keys: Seq<ChunkPos>, key: ChunkPos)
    ensures
        cells_of(keys.push(key)) == cells_of(keys).union(chunk_cells(key)),
        !keys.contains(key) ==> cells_of(keys).disjoint(chunk_cells(key)),
{
    let longer = keys.push(key);
    assert forall|p: Position| cells_of(longer).contains(p) <==> cells_of(keys).union(
        chunk_cells(key),
    ).contains(p) by {
        if cells_of(longer).contains(p) {
            let k = choose|k: int| 0 <= k < longer.len() && chunk_cells(#[trigger] longer[k]).contains(p);
            if k < keys.len() {
                assert(chunk_cells(keys[k]).contains(p));
            }
        }
        if cells_of(keys).contains(p) {
            let k = choose|k: int| 0 <= k < keys.len() && chunk_cells(#[trigger] keys[k]).contains(p);
            assert(chunk_cells(longer[k]).contains(p));
        }
        if chunk_cells(key).contains(p) {
            assert(chunk_cells(longer[keys.len() as int]).contains(p));
        }
    }
    assert(cells_of(longer) =~= cells_of(keys).union(chunk_cells(key)));
    if !keys.contains(key) {
        assert forall|p: Position| !(cells_of(keys).contains(p) && chunk_cells(key).contains(p)) by {
            if cells_of(keys).contains(p) && chunk_cells(key).contains(p) {
                let k = choose|k: int| 0 <= k < keys.len() && chunk_cells(#[trigger] keys[k]).contains(p);
                assert(keys[k] == key);
            }
        }
    }
}

/// What is missing among the first keys that are needed is the beginning
/// of what is missing among all of them.
pub proof fn lemma_missing_prefix(needed: Seq<ChunkPos>, table: Seq<ChunkPos>, i: int)
    requires
        0 <= i <= needed.len(),
    ensures
        missing_chunks(needed.take(i), table).is_prefix_of(missing_chunks(needed, table)),
    decreases needed.len() - i,
{
    if i < needed.len() {
        lemma_missing_prefix(needed, table, i + 1);
        assert(needed.take(i + 1).drop_last() =~= needed.take(i));
    } else {
        assert(needed.take(i) =~= needed);
    }
}

/// Nothing is missing of keys that are all in the table.
pub proof fn lemma_nothing_missing(needed: Seq<ChunkPos>, table: Seq<ChunkPos>)
    requires
        forall|k: int| 0 <= k < needed.len() ==> table.contains(#[trigger] needed[k]),
    ensures
        missing_chunks(needed, table) == Seq::<ChunkPos>::empty(),
    decreases needed.len(),
{
    if needed.len() > 0 {
        assert(table.contains(needed[needed.len() - 1]));
        assert forall|k: int| 0 <= k < needed.drop_last().len() implies table.contains(
            #[trigger] needed.drop_last()[k],
        ) by {
            assert(needed.drop_last()[k] == needed[k]);
        }
        lemma_nothing_missing(needed.drop_last(), table);
    }
}

/// What the next of the keys that are needed adds to what is missing among
/// the keys before it: itself, if the table lacks it; and it is none of
/// what is missing among those.
pub proof fn lemma_next_needed(needed: Seq<ChunkPos>, table: Seq<ChunkPos>, i: int)
    requires
        needed.no_duplicates(),
        0 <= i < needed.len(),
    ensures
        ({
            let done = missing_chunks(needed.take(i), table);
            let next = missing_chunks(needed.take(i + 1), table);
            &&& !done.contains(needed[i])
            &&& (table + done).contains(needed[i]) <==> table.contains(needed[i])
            &&& next == if table.contains(needed[i]) {
                done
            } else {
                done.push(needed[i])
            }
            &&& done.is_prefix_of(missing_chunks(needed, table))
            &&& next.is_prefix_of(missing_chunks(needed, table))
        }),
{
    let key = needed[i];
    let done = missing_chunks(needed.take(i), table);
    assert(needed.take(i + 1).drop_last() =~= needed.take(i));
    assert(needed.take(i + 1).last() == key);
    lemma_missing_chunks(needed.take(i), table);
    lemma_missing_prefix(needed, table, i);
    lemma_missing_prefix(needed, table, i + 1);
    if done.contains(key) {
        let k = choose|k: int| 0 <= k < done.len() && done[k] == key;
        assert(needed.take(i).contains(done[k]));
        let m = choose|m: int| 0 <= m < needed.take(i).len() && needed.take(i)[m] == key;
        assert(needed[m] == needed[i]);
    }
    if (table + done).contains(key) {
        let k = choose|k: int| 0 <= k < (table + done).len() && (table + done)[k] == key;
        if k >= table.len() {
            assert(done[k - table.len()] == key);
        } else {
            assert(table[k] == key);
        }
    }
    if table.contains(key) {
        let k = choose|k: int| 0 <= k < table.len() && table[k] == key;
        assert((table + done)[k] == key);
    }
}

} // verus!

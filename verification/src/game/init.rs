use vstd::prelude::*;
use hecs::Entity;
use crate::components::ChunkPos;
use crate::components::Inventory;
use crate::components::InventoryItem;
use crate::components::Position;
use crate::components::inventory::received;
use crate::constants::TILE_UNITS;
use crate::ecs::Components;
use crate::error::GameError;
use crate::game::Game;
use crate::components::Direction;
use crate::components::GameObjectTypeComponent;
use crate::components::TextureTransform;
use crate::game::cells_of;
use crate::game::chunk_cells;
use crate::game::chunks::lemma_cells_of_push;
use crate::game::chunks::lemma_missing_chunks;
use crate::game::grown;
use crate::game::is_new;
use crate::game::lemma_grown_twice;
use crate::game::no_components;
use crate::game::order::draws;
use crate::game::chunks::missing_chunks;
use crate::game::chunks::spec_required_chunks;
use crate::gameobjtype::types::spec_types;

verus! {

/// The chunk at the origin.
pub open spec fn origin() -> ChunkPos {
    ChunkPos { x: 0, y: 0 }
}

/// What the inventory of the first player holds.
pub open spec fn starting_items() -> Seq<Option<InventoryItem>> {
    received(received(Seq::new(10, |i: int| None::<InventoryItem>), "test", 1), "error", 5)
}

/// Whether `components` are those of a player at the origin with nothing
/// selected and no action active, and with the marker of the player type.
pub open spec fn is_player(components: Components) -> bool {
    &&& components.position == Some(Position::Free { x: 0, y: 0, top: false })
    &&& components.player is Some
    &&& components.player->0.selected is None
    &&& components.player->0.action_state.momentary() == Set::<Seq<char>>::empty()
    &&& components.player->0.action_state.prolonged() == Set::<Seq<char>>::empty()
    &&& components.texture is None
    &&& components.object_type == Some(GameObjectTypeComponent { id: 0 })
    &&& components.update_fn is None
}

/// Whether `components` are those of a tree on the cell in column `col`
/// and row 1 of the chunk at the origin.
pub open spec fn is_tree(components: Components, col: u8) -> bool {
    &&& components.position == Some(Position::Tile { chunk: origin(), col, row: 1, top: true })
    &&& components.texture == Some(TextureTransform { direction: Direction::Twelve, scale: 200 })
    &&& components.object_type == Some(GameObjectTypeComponent { id: 3 })
    &&& components.player is None
    &&& components.inventory is None
    &&& components.update_fn is None
}

/// Whether `components` are those of the test entity.
pub open spec fn is_test(components: Components) -> bool {
    &&& components.position == Some(Position::Free { x: TILE_UNITS, y: TILE_UNITS, top: false })
    &&& components.object_type == Some(GameObjectTypeComponent { id: 1 })
    &&& components.texture is None
    &&& components.player is None
    &&& components.inventory is None
    &&& components.update_fn is None
}

/// The world `before` with the five entities `ids` as the world `after`
/// has them.
pub open spec fn settled(
    before: Map<Entity, Components>,
    after: Map<Entity, Components>,
    ids: Seq<Entity>,
) -> Map<Entity, Components> {
    before.insert(ids[0], after[ids[0]]).insert(ids[1], after[ids[1]]).insert(
        ids[2],
        after[ids[2]],
    ).insert(ids[3], after[ids[3]]).insert(ids[4], after[ids[4]])
}

/// A world that has grown, and another entity in the world before and
/// after, is a world that has grown as much.
pub proof fn lemma_grown_beside(
    before: Map<Entity, Components>,
    after: Map<Entity, Components>,
    cells: Set<Position>,
    id: Entity,
    components: Components,
)
    requires
        grown(before, after, cells),
        !after.contains_key(id),
    ensures
        grown(before.insert(id, components), after.insert(id, components), cells),
{
    let a = before.insert(id, components);
    let b = after.insert(id, components);
    assert forall|e: Entity| #[trigger] a.dom().contains(e) implies b.dom().contains(e) && a[e] == b[e] by {
        if e != id {
            assert(before.dom().contains(e));
        }
    }
    assert(a.submap_of(b));
    assert forall|e: Entity| #[trigger] is_new(a, b, e) implies b[e].position is Some && cells.contains(
        b[e].position->0,
    ) && crate::game::is_ground(b[e], b[e].position->0) by {
        assert(is_new(before, after, e));
    }
    assert forall|p: Position| #[trigger] cells.contains(p) implies exists|e: Entity| #[trigger]
        is_new(a, b, e) && b[e].position == Some(p) by {
        let e = choose|e: Entity| #[trigger] is_new(before, after, e) && after[e].position == Some(p);
        assert(is_new(a, b, e));
    }
    assert forall|x: Entity, y: Entity|
        #![trigger is_new(a, b, x), is_new(a, b, y)]
        is_new(a, b, x) && is_new(a, b, y) && b[x].position == b[y].position implies x == y by {
        assert(is_new(before, after, x));
        assert(is_new(before, after, y));
    }
}

/// An entity that is new in a world is new in every world that holds that
/// world, with the same components.
pub proof fn lemma_stays_new(
    before: Map<Entity, Components>,
    middle: Map<Entity, Components>,
    after: Map<Entity, Components>,
    id: Entity,
)
    requires
        middle.submap_of(after),
        is_new(before, middle, id),
    ensures
        is_new(before, after, id),
        after[id] == middle[id],
{
    assert(middle.dom().contains(id));
}

/// A world with one more entity holds every world that it held before.
pub proof fn lemma_holds_more(
    before: Map<Entity, Components>,
    middle: Map<Entity, Components>,
    id: Entity,
    components: Components,
)
    requires
        before.submap_of(middle),
        !middle.contains_key(id),
    ensures
        before.submap_of(middle.insert(id, components)),
        middle.submap_of(middle.insert(id, components)),
        is_new(before, middle.insert(id, components), id),
{
    assert forall|e: Entity| #[trigger] before.dom().contains(e) implies middle.insert(
        id,
        components,
    ).dom().contains(e) && before[e] == middle.insert(id, components)[e] by {
        assert(middle.dom().contains(e));
    }
}

/// A world that holds a world that holds a third holds the third.
pub proof fn lemma_holds_through(
    before: Map<Entity, Components>,
    middle: Map<Entity, Components>,
    after: Map<Entity, Components>,
)
    requires
        before.submap_of(middle),
        middle.submap_of(after),
    ensures
        before.submap_of(after),
{
    assert forall|e: Entity| #[trigger] before.dom().contains(e) implies after.dom().contains(e)
        && before[e] == after[e] by {
        assert(middle.dom().contains(e));
    }
}

/// The number of entities that `init` creates where the table of chunks
/// is `table`: five besides the tiles of the chunk at the origin and of the
/// chunks around it that the table lacks.
pub open spec fn init_count(table: Seq<ChunkPos>) -> nat {
    5 + 256 + 256 * missing_chunks(spec_required_chunks(origin()), table.push(origin())).len()
}

impl Game {
    /// Populates the world: a player at the origin, who becomes the
    /// reference entity and has an inventory; a second player there; the chunk
    /// at the origin, with two trees on it; and a test entity. Then
    /// determines what is in view. Gives up only when the store is full.
    pub fn init(&mut self) -> (r: Result<(), GameError>)
        requires
            old(self).wf(),
        ensures
            final(self).wf(),
            r is Ok <==> old(self).room() >= init_count(old(self).chunk_table()),
            r is Err ==> r == Err::<(), GameError>(GameError::StoreFull),
            r is Err ==> old(self).world().submap_of(final(self).world()),
            r is Ok ==> final(self).populated(old(self)),
    {
        proof {
            self.lemma_registry();
            assert(spec_types()[0] == crate::gameobjtype::types::player::spec_builder());
            assert(spec_types()[1] == crate::gameobjtype::types::test::spec_builder());
            assert(spec_types()[3] == crate::gameobjtype::types::tree::spec_builder());
        }
        let ghost w0 = self.world();
        let ghost count = init_count(self.chunk_table());
        let mut inventory = Inventory::new(10);
        assert(inventory.items@ =~= Seq::new(10, |i: int| None::<InventoryItem>));
        inventory.try_receive("test", 1);
        inventory.try_receive("error", 5);
        let mut first = no_components();
        first.inventory = Some(inventory);
        let player = match self.spawn("player", first) {
            Ok(id) => id,
            Err(e) => {
                return Err(e);
            },
        };
        self.player = player;
        let ghost w1 = self.world();
        proof {
            lemma_holds_more(w0, w0, player, w1[player]);
        }
        let second = match self.spawn("player", no_components()) {
            Ok(id) => id,
            Err(e) => {
                proof {
                    lemma_holds_through(w0, w1, self.world());
                }
                return Err(e);
            },
        };
        let ghost w2 = self.world();
        proof {
            lemma_holds_more(w0, w1, second, w2[second]);
            lemma_stays_new(w0, w1, w2, player);
        }
        let chunk = ChunkPos::new(0, 0);
        match self.generate_chunk(chunk) {
            Ok(_) => {},
            Err(e) => {
                proof {
                    lemma_holds_through(w0, w2, self.world());
                }
                return Err(e);
            },
        }
        let ghost w3 = self.world();
        proof {
            lemma_holds_through(w0, w2, w3);
            lemma_stays_new(w0, w2, w3, player);
        }
        let mut tree = no_components();
        tree.position = Some(Position::tile(chunk, 1, 1));
        let left = match self.spawn("tree", tree) {
            Ok(id) => id,
            Err(e) => {
                return Err(e);
            },
        };
        let ghost w4 = self.world();
        proof {
            lemma_holds_more(w3, w3, left, w4[left]);
            lemma_holds_more(w0, w3, left, w4[left]);
            lemma_stays_new(w0, w3, w4, player);
        }
        let mut tree = no_components();
        tree.position = Some(Position::tile(chunk, 2, 1));
        let right = match self.spawn("tree", tree) {
            Ok(id) => id,
            Err(e) => {
                return Err(e);
            },
        };
        let ghost w5 = self.world();
        proof {
            lemma_holds_more(w4, w4, right, w5[right]);
            lemma_holds_more(w0, w4, right, w5[right]);
            lemma_stays_new(w0, w4, w5, player);
            lemma_stays_new(w0, w4, w5, left);
        }
        let other = match self.spawn("test", no_components()) {
            Ok(id) => id,
            Err(e) => {
                return Err(e);
            },
        };
        let ghost w6 = self.world();
        let ghost before_update = *self;
        proof {
            lemma_holds_more(w5, w5, other, w6[other]);
            lemma_holds_more(w0, w5, other, w6[other]);
            lemma_holds_through(w2, w3, w4);
            lemma_holds_through(w2, w4, w5);
            lemma_holds_through(w2, w5, w6);
            lemma_stays_new(w0, w5, w6, player);
            lemma_stays_new(w0, w5, w6, left);
            lemma_stays_new(w0, w5, w6, right);
            assert(w6[player].position == Some(Position::Free { x: 0, y: 0, top: false }));
            assert(before_update.spec_position(player) == Some(Position::Free { x: 0, y: 0, top: false }));
            assert(crate::components::position::chunk_of_coord(0) == 0);
            assert((Position::Free { x: 0, y: 0, top: false }).spec_chunk() == origin());
            assert(crate::game::chunks::has_neighbourhood(origin()));
        }
        let ghost table = self.chunk_table();
        let r = self.update_loaded(true);
        proof {
            let w7 = self.world();
            assert(w6.submap_of(w7));
            lemma_holds_through(w0, w6, w7);
            if r is Ok {
                lemma_stays_new(w0, w2, w6, second);
                lemma_stays_new(w0, w6, w7, second);
                lemma_stays_new(w0, w6, w7, player);
                lemma_stays_new(w0, w6, w7, left);
                lemma_stays_new(w0, w6, w7, right);
                lemma_stays_new(w0, w6, w7, other);
                let others = seq![second, left, right, other];
                let ids = seq![player] + others;
                let needed = spec_required_chunks(origin());
                let missing = missing_chunks(needed, table);
                let ground = chunk_cells(origin());
                assert(ids[0] == player && ids[1] == second && ids[2] == left && ids[3] == right
                    && ids[4] == other);
                lemma_grown_beside(w2, w3, ground, left, w4[left]);
                lemma_grown_beside(w2.insert(left, w4[left]), w4, ground, right, w5[right]);
                lemma_grown_beside(
                    w2.insert(left, w4[left]).insert(right, w5[right]),
                    w5,
                    ground,
                    other,
                    w6[other],
                );
                let base = w2.insert(left, w4[left]).insert(right, w5[right]).insert(other, w6[other]);
                assert(base =~= settled(w0, w7, ids));
                lemma_missing_chunks(needed, table);
                assert(!missing.contains(origin())) by {
                    if missing.contains(origin()) {
                        let k = choose|k: int| 0 <= k < missing.len() && missing[k] == origin();
                        assert(table[table.len() - 1] == origin());
                        assert(table.contains(missing[k]));
                    }
                }
                lemma_cells_of_push(missing, origin());
                assert(ground.disjoint(cells_of(missing)));
                lemma_grown_twice(base, w6, w7, ground, cells_of(missing));
                assert(self.populated_by(old(self), others));
            }
        }
        r
    }

    /// Whether this game is what `init` makes of the game `before`, with
    /// the reference entity and the four of `others` as the second player,
    /// the two trees and the test entity: besides these five, the world has
    /// gained a tile of the ground for each cell of the chunk at the origin
    /// and of the chunks around it that the table lacked.
    pub open spec fn populated_by(&self, before: &Game, others: Seq<Entity>) -> bool {
        let player = self.reference();
        let ids = seq![player] + others;
        let table = before.chunk_table().push(origin());
        let needed = spec_required_chunks(origin());
        &&& others.len() == 4
        &&& ids.no_duplicates()
        &&& forall|k: int| 0 <= k < 5 ==> !before.world().contains_key(#[trigger] ids[k])
        &&& is_player(self.world()[player])
        &&& self.world()[player].inventory is Some
        &&& self.world()[player].inventory->0.items@ == starting_items()
        &&& is_player(self.world()[others[0]])
        &&& self.world()[others[0]].inventory is None
        &&& is_tree(self.world()[others[1]], 1)
        &&& is_tree(self.world()[others[2]], 2)
        &&& is_test(self.world()[others[3]])
        &&& grown(
            settled(before.world(), self.world(), ids),
            self.world(),
            chunk_cells(origin()).union(cells_of(missing_chunks(needed, table))),
        )
        &&& self.chunk_table() == table + missing_chunks(needed, table)
        &&& self.reference_chunk() == origin()
        &&& draws(self.loaded(), self.world(), player, needed)
        &&& self.room() == before.room() - init_count(before.chunk_table())
    }

    /// Whether this game is what `init` makes of the game `before`.
    pub open spec fn populated(&self, before: &Game) -> bool {
        exists|others: Seq<Entity>| #[trigger] self.populated_by(before, others)
    }
}

} // verus!

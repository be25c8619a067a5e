use vstd::prelude::*;
use hecs::Entity;
use hecs::World;
use crate::components::ChunkPos;
use crate::components::Position;
use crate::constants::CHUNK_SIZE;
use crate::components::GameObjectTypeComponent;
use crate::ecs::Components;
use crate::ecs::entities;
use crate::ecs::slots;
use crate::error::GameError;
use crate::gameobjtype::GameObjectTypes;
use crate::gameobjtype::InitFnType;
use crate::gameobjtype::types::spec_types;
use crate::gameobjtype::types::lemma_provides;
use crate::gameobjtype::types::provides_known_types;
use crate::gameobjtype::types::is_known_key;
use crate::gameobjtype::GameObjectTypeBuilder;
use crate::utils::Counter;

pub mod chunks;
pub mod init;
pub mod order;
pub mod render;
pub mod update;

verus! {

/// The entities in view, in the order in which they are updated and drawn.
pub(crate) struct Loaded {
    ids: Vec<Entity>,
}

impl Loaded {
    fn new() -> (loaded: Self)
        ensures
            loaded.ids@.len() == 0,
    {
        Self { ids: Vec::new() }
    }
}

/// The world and what streams and orders it.
pub struct Game {
    ecs: World,
    types: GameObjectTypes,
    loaded: Loaded,
    loaded_update_counter: Counter,
    player: Entity,
    chunks: Vec<ChunkPos>,
    player_chunk: ChunkPos,
    tile_scale: u32,
    screen_size: (i32, i32),
    spawned: u32,
}

/// The smallest number of pixels that the side of a tile can have.
pub const MIN_TILE_SCALE: u32 = 30;

/// The largest number of pixels that the side of a tile can have.
pub const MAX_TILE_SCALE: u32 = 70;

/// Components of which none is present.
pub open spec fn spec_no_components() -> Components {
    Components {
        position: None,
        player: None,
        inventory: None,
        texture: None,
        object_type: None,
        update_fn: None,
    }
}

/// Components of which none is present.
pub fn no_components() -> (c: Components)
    ensures
        c == spec_no_components(),
{
    Components {
        position: None,
        player: None,
        inventory: None,
        texture: None,
        object_type: None,
        update_fn: None,
    }
}

/// Cell `n` of the chunk `key`, counted column by column.
pub open spec fn cell(key: ChunkPos, n: int) -> Position {
    Position::Tile {
        chunk: key,
        col: (n / (CHUNK_SIZE as int)) as u8,
        row: (n % (CHUNK_SIZE as int)) as u8,
        top: false,
    }
}

/// The first `n` cells of the chunk `key`.
pub open spec fn cells_up_to(key: ChunkPos, n: int) -> Set<Position> {
    Set::new(|p: Position| exists|m: int| 0 <= m < n && p == #[trigger] cell(key, m))
}

/// The cells of the chunk `key`.
pub open spec fn chunk_cells(key: ChunkPos) -> Set<Position> {
    cells_up_to(key, (CHUNK_SIZE * CHUNK_SIZE) as int)
}

/// The cells of the chunks `keys`.
pub open spec fn cells_of(keys: Seq<ChunkPos>) -> Set<Position> {
    Set::new(
        |p: Position| exists|k: int| 0 <= k < keys.len() && chunk_cells(#[trigger] keys[k]).contains(p),
    )
}

/// Whether `components` are those of a tile of the ground at `position`:
/// nothing but the position, a texture at its own size and the marker of
/// the tile type.
pub open spec fn is_ground(components: Components, position: Position) -> bool {
    &&& components.position == Some(position)
    &&& components.texture is Some
    &&& components.texture->0.scale == 100
    &&& components.object_type == Some(GameObjectTypeComponent { id: 2 })
    &&& components.update_fn is None
    &&& components.player is None
    &&& components.inventory is None
}

/// Whether `id` is an entity of `after` that `before` lacks.
pub open spec fn is_new(before: Map<Entity, Components>, after: Map<Entity, Components>, id: Entity) -> bool {
    after.contains_key(id) && !before.contains_key(id)
}

/// Whether the world `after` is the world `before` and, for each of
/// `cells`, one new entity that is a tile of the ground there.
pub open spec fn grown(
    before: Map<Entity, Components>,
    after: Map<Entity, Components>,
    cells: Set<Position>,
) -> bool {
    &&& before.submap_of(after)
    &&& forall|id: Entity| #[trigger]
        is_new(before, after, id) ==> after[id].position is Some && cells.contains(
            after[id].position->0,
        ) && is_ground(after[id], after[id].position->0)
    &&& forall|p: Position| #[trigger]
        cells.contains(p) ==> exists|id: Entity| #[trigger]
            is_new(before, after, id) && after[id].position == Some(p)
    &&& forall|a: Entity, b: Entity|
        #![trigger is_new(before, after, a), is_new(before, after, b)]
        is_new(before, after, a) && is_new(before, after, b) && after[a].position
            == after[b].position ==> a == b
}

/// A world that has grown by some cells and takes one more entity, a tile
/// of the ground at a further cell, has grown by that cell too.
pub proof fn lemma_grown_step(
    before: Map<Entity, Components>,
    after: Map<Entity, Components>,
    cells: Set<Position>,
    id: Entity,
    components: Components,
    p: Position,
)
    requires
        grown(before, after, cells),
        !after.contains_key(id),
        is_ground(components, p),
        !cells.contains(p),
    ensures
        grown(before, after.insert(id, components), cells.insert(p)),
{
    let next = after.insert(id, components);
    let more = cells.insert(p);
    assert(before.submap_of(next));
    assert forall|e: Entity| #[trigger] is_new(before, next, e) implies next[e].position is Some
        && more.contains(next[e].position->0) && is_ground(next[e], next[e].position->0) by {
        if e != id {
            assert(is_new(before, after, e));
        }
    }
    assert forall|q: Position| #[trigger] more.contains(q) implies exists|e: Entity| #[trigger]
        is_new(before, next, e) && next[e].position == Some(q) by {
        if q == p {
            assert(is_new(before, next, id));
        } else {
            let e = choose|e: Entity| #[trigger] is_new(before, after, e) && after[e].position == Some(q);
            assert(is_new(before, next, e));
        }
    }
    assert forall|a: Entity, b: Entity|
        #![trigger is_new(before, next, a), is_new(before, next, b)]
        is_new(before, next, a) && is_new(before, next, b) && next[a].position
            == next[b].position implies a == b by {
        if a != id {
            assert(is_new(before, after, a));
        }
        if b != id {
            assert(is_new(before, after, b));
        }
    }
}

/// A world that has grown by some cells and then by others has grown by
/// all of them.
pub proof fn lemma_grown_twice(
    before: Map<Entity, Components>,
    middle: Map<Entity, Components>,
    after: Map<Entity, Components>,
    first: Set<Position>,
    second: Set<Position>,
)
    requires
        grown(before, middle, first),
        grown(middle, after, second),
        first.disjoint(second),
    ensures
        grown(before, after, first.union(second)),
{
    let all = first.union(second);
    assert forall|e: Entity| #[trigger] before.dom().contains(e) implies after.dom().contains(e)
        && before[e] == after[e] by {
        assert(middle.dom().contains(e));
    }
    assert(before.submap_of(after));
    assert forall|e: Entity| #[trigger] is_new(before, after, e) implies after[e].position is Some
        && all.contains(after[e].position->0) && is_ground(after[e], after[e].position->0) by {
        if middle.contains_key(e) {
            assert(is_new(before, middle, e));
        } else {
            assert(is_new(middle, after, e));
        }
    }
    assert forall|q: Position| #[trigger] all.contains(q) implies exists|e: Entity| #[trigger]
        is_new(before, after, e) && after[e].position == Some(q) by {
        if first.contains(q) {
            let e = choose|e: Entity| #[trigger] is_new(before, middle, e) && middle[e].position == Some(q);
            assert(is_new(before, after, e));
        } else {
            let e = choose|e: Entity| #[trigger] is_new(middle, after, e) && after[e].position == Some(q);
            assert(is_new(before, after, e));
        }
    }
    assert forall|a: Entity, b: Entity|
        #![trigger is_new(before, after, a), is_new(before, after, b)]
        is_new(before, after, a) && is_new(before, after, b) && after[a].position
            == after[b].position implies a == b by {
        if middle.contains_key(a) {
            assert(is_new(before, middle, a));
        } else {
            assert(is_new(middle, after, a));
        }
        if middle.contains_key(b) {
            assert(is_new(before, middle, b));
        } else {
            assert(is_new(middle, after, b));
        }
    }
}

/// A world that has grown by no cell is the world that it was.
pub proof fn lemma_grown_by_nothing(before: Map<Entity, Components>, after: Map<Entity, Components>)
    requires
        grown(before, after, Set::<Position>::empty()),
    ensures
        after == before,
{
    assert forall|id: Entity| after.dom().contains(id) implies before.dom().contains(id) by {
        if !before.dom().contains(id) {
            assert(crate::game::is_new(before, after, id));
        }
    }
    assert(after =~= before);
}

/// Whether the initialiser `init` fails on `components`: only that of a
/// tree does, on an entity without a position.
pub open spec fn init_fails(init: Option<InitFnType>, components: Components) -> bool {
    init == Some(InitFnType::Tree) && components.position is None
}

impl Game {
    /// The registry provides the known object types, and the game has
    /// counted every slot that the store has made.
    pub closed spec fn wf(&self) -> bool {
        &&& self.types.wf()
        &&& provides_known_types(self.types)
        &&& slots(self.ecs) <= self.spawned
        &&& MIN_TILE_SCALE <= self.tile_scale <= MAX_TILE_SCALE
    }

    /// The entities of the world, each with its components.
    pub closed spec fn world(&self) -> Map<Entity, Components> {
        entities(self.ecs)
    }

    /// The registry of object types.
    pub closed spec fn registry(&self) -> GameObjectTypes {
        self.types
    }

    /// The entities in view, in the order in which they are updated and
    /// drawn.
    pub closed spec fn loaded(&self) -> Seq<Entity> {
        self.loaded.ids@
    }

    /// The throttle of the streamer.
    pub closed spec fn throttle(&self) -> Counter {
        self.loaded_update_counter
    }

    /// The reference entity.
    pub closed spec fn reference(&self) -> Entity {
        self.player
    }

    /// The keys of the chunks that were generated, in the order of their
    /// generation.
    pub closed spec fn chunk_table(&self) -> Seq<ChunkPos> {
        self.chunks@
    }

    /// The chunk in which the reference entity was when the entities in
    /// view were last determined.
    pub closed spec fn reference_chunk(&self) -> ChunkPos {
        self.player_chunk
    }

    /// The side of a tile on the screen, in pixels.
    pub closed spec fn scale(&self) -> u32 {
        self.tile_scale
    }

    /// The width and the height of the screen, in pixels.
    pub closed spec fn screen(&self) -> (i32, i32) {
        self.screen_size
    }

    /// Whether the store has no room for another entity.
    pub closed spec fn full(&self) -> bool {
        self.spawned == u32::MAX
    }

    /// The number of entities that the game can still create.
    pub closed spec fn room(&self) -> nat {
        (u32::MAX - self.spawned) as nat
    }

    /// The registry of a well-formed game provides the known object
    /// types.
    pub proof fn lemma_registry(&self)
        requires
            self.wf(),
        ensures
            self.registry().wf(),
            provides_known_types(self.registry()),
    {
    }

    /// Whether `other` differs from this game in its world at most.
    pub open spec fn same_but_world(&self, other: &Game) -> bool {
        &&& other.registry() == self.registry()
        &&& other.loaded() == self.loaded()
        &&& other.throttle() == self.throttle()
        &&& other.reference() == self.reference()
        &&& other.chunk_table() == self.chunk_table()
        &&& other.reference_chunk() == self.reference_chunk()
        &&& other.scale() == self.scale()
        &&& other.screen() == self.screen()
    }

    /// The position of the entity `id`, if it is in the world and has one.
    pub open spec fn spec_position(&self, id: Entity) -> Option<Position> {
        crate::game::render::position_in(self.world(), id)
    }

    /// A game with an empty world, a registry of the known object
    /// types, nothing in view, and a throttle that is due.
    pub fn new() -> (game: Self)
        ensures
            game.wf(),
            game.registry().compiled_from(spec_types()),
            game.world() == crate::ecs::no_entities(),
            game.loaded().len() == 0,
            game.chunk_table().len() == 0,
            game.reference_chunk() == (ChunkPos { x: 0, y: 0 }),
            game.throttle().due(),
            game.throttle().period() == 60,
            game.scale() == 40,
            game.screen() == (0i32, 0i32),
            game.room() == u32::MAX,
            !game.full(),
    {
        let table = crate::gameobjtype::types::types();
        let types = GameObjectTypes::generate(&table);
        proof {
            assert(spec_types() + Seq::<GameObjectTypeBuilder>::empty() =~= spec_types());
            lemma_provides(types, Seq::<GameObjectTypeBuilder>::empty());
        }
        Self {
            ecs: crate::ecs::new_world(),
            types,
            loaded: Loaded::new(),
            loaded_update_counter: Counter::new(60),
            player: crate::ecs::dangling(),
            chunks: Vec::new(),
            player_chunk: ChunkPos::new(0, 0),
            tile_scale: 40,
            screen_size: (0, 0),
            spawned: 0,
        }
    }

    /// The entities in view, in the order in which they are updated and
    /// drawn.
    pub fn loaded_ids(&self) -> (ids: &Vec<Entity>)
        ensures
            ids@ == self.loaded(),
    {
        &self.loaded.ids
    }

    /// The keys of the chunks that were generated.
    pub fn chunks(&self) -> (keys: &Vec<ChunkPos>)
        ensures
            keys@ == self.chunk_table(),
    {
        &self.chunks
    }

    /// The reference entity.
    pub fn player(&self) -> (id: Entity)
        ensures
            id == self.reference(),
    {
        self.player
    }

    /// Makes `id` the reference entity.
    pub fn set_player(&mut self, id: Entity)
        requires
            old(self).wf(),
        ensures
            final(self).wf(),
            final(self).reference() == id,
            final(self).world() == old(self).world(),
            final(self).registry() == old(self).registry(),
            final(self).loaded() == old(self).loaded(),
            final(self).throttle() == old(self).throttle(),
            final(self).chunk_table() == old(self).chunk_table(),
            final(self).reference_chunk() == old(self).reference_chunk(),
            final(self).scale() == old(self).scale(),
            final(self).screen() == old(self).screen(),
            final(self).room() == old(self).room(),
    {
        self.player = id;
    }

    /// The side of a tile on the screen, in pixels.
    pub fn tile_scale(&self) -> (scale: u32)
        ensures
            scale == self.scale(),
    {
        self.tile_scale
    }

    /// The width and the height of the screen, in pixels.
    pub fn screen_size(&self) -> (size: (i32, i32))
        ensures
            size == self.screen(),
    {
        self.screen_size
    }

    /// The chunk in which the reference entity was when the entities in
    /// view were last determined.
    pub fn player_chunk(&self) -> (key: ChunkPos)
        ensures
            key == self.reference_chunk(),
    {
        self.player_chunk
    }

    /// The registry of object types.
    pub fn types(&self) -> (types: &GameObjectTypes)
        ensures
            *types == self.registry(),
    {
        &self.types
    }

    /// The components of the entity `id`, if it is in the world.
    pub fn components_of(&self, id: Entity) -> (components: Option<Components>)
        ensures
            components == self.world().get(id),
    {
        crate::ecs::lookup(&self.ecs, id)
    }

    /// A game like that of `new`, whose registry has the object types of
    /// `extra` after the known ones. There is none if that makes more than
    /// 256 object types, or if one of `extra` has the key of a known object
    /// type.
    pub fn with_types(extra: &Vec<GameObjectTypeBuilder>) -> (made: Option<Self>)
        ensures
            made is Some <==> extra@.len() <= 252 && forall|j: int|
                0 <= j < extra@.len() ==> !is_known_key(#[trigger] extra@[j].key@),
            made is Some ==> {
                &&& made->0.wf()
                &&& made->0.registry().compiled_from(spec_types() + extra@)
                &&& made->0.world() == crate::ecs::no_entities()
                &&& made->0.loaded().len() == 0
                &&& made->0.chunk_table().len() == 0
                &&& made->0.reference_chunk() == (ChunkPos { x: 0, y: 0 })
                &&& made->0.throttle().due()
                &&& made->0.throttle().period() == 60
                &&& made->0.scale() == 40
                &&& made->0.screen() == (0i32, 0i32)
                &&& made->0.room() == u32::MAX
                &&& !made->0.full()
            },
    {
        if extra.len() > 252 {
            return None;
        }
        let mut table = crate::gameobjtype::types::types();
        let mut n: usize = 0;
        while n < extra.len()
            invariant
                n <= extra@.len() <= 252,
                table@ == spec_types() + extra@.take(n as int),
                forall|j: int| 0 <= j < n ==> !is_known_key(#[trigger] extra@[j].key@),
            decreases extra@.len() - n,
        {
            if crate::gameobjtype::types::known_key(extra[n].key) {
                return None;
            }
            table.push(extra[n]);
            n += 1;
            assert(table@ =~= spec_types() + extra@.take(n as int));
        }
        proof {
            assert(extra@.take(n as int) =~= extra@);
        }
        let types = GameObjectTypes::generate(&table);
        proof {
            lemma_provides(types, extra@);
        }
        Some(
            Self {
                ecs: crate::ecs::new_world(),
                types,
                loaded: Loaded::new(),
                loaded_update_counter: Counter::new(60),
                player: crate::ecs::dangling(),
                chunks: Vec::new(),
                player_chunk: ChunkPos::new(0, 0),
                tile_scale: 40,
                screen_size: (0, 0),
                spawned: 0,
            },
        )
    }

    /// Creates an entity of the type `type_key` from `components` and what
    /// the initialiser of the type adds to them. Where the initialiser
    /// fails or the store is full, no entity is created.
    pub fn spawn(&mut self, type_key: &str, components: Components) -> (r: Result<
        Entity,
        GameError,
    >)
        requires
            old(self).wf(),
            old(self).registry().key_ids().contains_key(type_key@),
        ensures
            final(self).wf(),
            old(self).same_but_world(final(self)),
            match r {
                Ok(id) => {
                    &&& !old(self).world().contains_key(id)
                    &&& final(self).world().contains_key(id)
                    &&& final(self).world() == old(self).world().insert(id, final(self).world()[id])
                    &&& old(self).registry().initialises(
                        type_key@,
                        components,
                        final(self).world()[id],
                        Ok(()),
                    )
                },
                Err(e) => {
                    &&& final(self).world() == old(self).world()
                    &&& e == old(self).spec_spawn_error(type_key@, components)->0
                },
            },
            r is Err <==> old(self).spec_spawn_error(type_key@, components) is Some,
            final(self).room() == if r is Ok {
                old(self).room() - 1
            } else {
                old(self).room() as int
            },
    {
        let mut entity = components;
        match self.types.init_entity(&mut entity, type_key) {
            Err(e) => {
                return Err(GameError::Init(e));
            },
            Ok(_) => {},
        }
        if self.spawned == u32::MAX {
            return Err(GameError::StoreFull);
        }
        let id = crate::ecs::spawn_entity(&mut self.ecs, entity);
        self.spawned = self.spawned + 1;
        Ok(id)
    }

    /// Generates the chunk `pos`: creates a tile of the ground for each of
    /// its cells, column by column, and then enters the chunk in the table
    /// of chunks. Gives up when the store is full, leaving the tiles created
    /// so far, as many as the store had room for, and the table as it was.
    pub(crate) fn generate_chunk(&mut self, pos: ChunkPos) -> (r: Result<(), GameError>)
        requires
            old(self).wf(),
        ensures
            final(self).wf(),
            final(self).registry() == old(self).registry(),
            final(self).loaded() == old(self).loaded(),
            final(self).throttle() == old(self).throttle(),
            final(self).reference() == old(self).reference(),
            final(self).reference_chunk() == old(self).reference_chunk(),
            final(self).scale() == old(self).scale(),
            final(self).screen() == old(self).screen(),
            r is Ok <==> old(self).room() >= CHUNK_SIZE * CHUNK_SIZE,
            match r {
                Ok(_) => {
                    &&& final(self).chunk_table() == old(self).chunk_table().push(pos)
                    &&& grown(old(self).world(), final(self).world(), chunk_cells(pos))
                    &&& final(self).room() == old(self).room() - CHUNK_SIZE * CHUNK_SIZE
                },
                Err(e) => {
                    &&& e == GameError::StoreFull
                    &&& final(self).chunk_table() == old(self).chunk_table()
                    &&& grown(
                        old(self).world(),
                        final(self).world(),
                        cells_up_to(pos, old(self).room() as int),
                    )
                    &&& final(self).room() == 0
                },
            },
    {
        let mut col: usize = 0;
        proof {
            assert(cells_up_to(pos, 0) =~= Set::<Position>::empty());
            assert(grown(self.world(), self.world(), cells_up_to(pos, 0)));
        }
        while col < CHUNK_SIZE
            invariant
                col <= CHUNK_SIZE,
                self.wf(),
                old(self).wf(),
                self.registry() == old(self).registry(),
                self.loaded() == old(self).loaded(),
                self.throttle() == old(self).throttle(),
                self.reference() == old(self).reference(),
                self.reference_chunk() == old(self).reference_chunk(),
                self.scale() == old(self).scale(),
                self.screen() == old(self).screen(),
                self.chunk_table() == old(self).chunk_table(),
                old(self).room() >= col * CHUNK_SIZE,
                self.room() == old(self).room() - col * CHUNK_SIZE,
                grown(old(self).world(), self.world(), cells_up_to(pos, col * CHUNK_SIZE)),
            decreases CHUNK_SIZE - col,
        {
            let mut row: usize = 0;
            while row < CHUNK_SIZE
                invariant
                    col < CHUNK_SIZE,
                    row <= CHUNK_SIZE,
                    self.wf(),
                    old(self).wf(),
                    self.registry() == old(self).registry(),
                    self.loaded() == old(self).loaded(),
                    self.throttle() == old(self).throttle(),
                    self.reference() == old(self).reference(),
                    self.reference_chunk() == old(self).reference_chunk(),
                    self.scale() == old(self).scale(),
                    self.screen() == old(self).screen(),
                    self.chunk_table() == old(self).chunk_table(),
                    old(self).room() >= col * CHUNK_SIZE + row,
                    self.room() == old(self).room() - (col * CHUNK_SIZE + row),
                    grown(old(self).world(), self.world(), cells_up_to(pos, col * CHUNK_SIZE + row)),
                decreases CHUNK_SIZE - row,
            {
                let ghost n = (col * CHUNK_SIZE + row) as int;
                let ghost before = self.world();
                let mut components = no_components();
                components.position = Some(Position::tile(pos, col as u8, row as u8));
                proof {
                    self.lemma_registry();
                    assert(spec_types()[2] == crate::gameobjtype::types::test_tile::spec_builder());
                    assert(self.registry().init_fns()[2] == Some(InitFnType::TestTile));
                }
                match self.spawn("test_tile", components) {
                    Err(e) => {
                        proof {
                            assert(old(self).room() == n);
                        }
                        return Err(e);
                    },
                    Ok(id) => {
                        proof {
                            assert(cell(pos, n) == Position::Tile {
                                chunk: pos,
                                col: col as u8,
                                row: row as u8,
                                top: false,
                            });
                            assert(is_ground(self.world()[id], cell(pos, n)));
                            assert(!cells_up_to(pos, n).contains(cell(pos, n))) by {
                                if cells_up_to(pos, n).contains(cell(pos, n)) {
                                    let m = choose|m: int|
                                        0 <= m < n && cell(pos, n) == #[trigger] cell(pos, m);
                                    assert(m / 16 == n / 16 && m % 16 == n % 16);
                                }
                            }
                            lemma_grown_step(
                                old(self).world(),
                                before,
                                cells_up_to(pos, n),
                                id,
                                self.world()[id],
                                cell(pos, n),
                            );
                            assert(cells_up_to(pos, n).insert(cell(pos, n)) =~= cells_up_to(pos, n + 1));
                        }
                    },
                }
                row += 1;
            }
            col += 1;
        }
        self.chunks.push(pos);
        Ok(())
    }

    /// The error with which `spawn` gives up on an entity of the type
    /// `key` with the components `components`, if it does.
    pub open spec fn spec_spawn_error(&self, key: Seq<char>, components: Components) -> Option<
        GameError,
    > {
        let id = self.registry().key_ids()[key];
        if init_fails(self.registry().init_fns()[id as int], components) {
            Some(GameError::Init(crate::gameobjtype::InitError::MissingPosition))
        } else if self.full() {
            Some(GameError::StoreFull)
        } else {
            None
        }
    }
}

} // verus!

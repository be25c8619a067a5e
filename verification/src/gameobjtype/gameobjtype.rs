use vstd::prelude::*;
use vstd::hash_map::StringHashMap;
use crate::components::GameObjectTypeComponent;
use crate::components::UpdateFn;
use crate::ecs::Components;
use crate::gameobjtype::types::player;
use crate::gameobjtype::types::test_tile;
use crate::gameobjtype::types::tree;
use crate::types::GameObjectTypeId;
use crate::types::UpdateFnIdType;

verus! {

/// What an update behaviour is handed besides the entity.
pub struct UpdateData {}

/// Why an initialiser gave up.
#[derive(Clone, Copy, Debug, PartialEq, Eq, Structural)]
pub enum InitError {
    /// The initialiser reads the entity's position, and the entity has none.
    MissingPosition,
}

/// Names one of the initialisers: what fills in the components of a new
/// entity of some type.
#[derive(Clone, Copy, Debug, PartialEq, Eq, Structural)]
pub enum InitFnType {
    Player,
    Test,
    TestTile,
    Tree,
}

/// Names an update behaviour. Two references with the same tag name the
/// same behaviour.
#[derive(Clone, Copy, Debug, PartialEq, Eq, Structural)]
pub struct UpdateFnType {
    pub tag: u32,
}

/// Describes one object type: its key and what the registry is to know of
/// it.
#[derive(Clone, Copy, Debug)]
pub struct GameObjectTypeBuilder {
    pub key: &'static str,
    pub init: Option<InitFnType>,
    pub update: Option<UpdateFnType>,
    pub texture: Option<&'static str>,
}

/// An object type as the registry holds it.
#[derive(Clone, Copy, Debug)]
pub struct GameObjectType {
    pub update_fn_id: Option<UpdateFnIdType>,
    pub texture: Option<&'static str>,
}

/// The registry: the object types by id, their initialisers, the update
/// behaviours without repetition, and the id of each key.
pub struct GameObjectTypes {
    types: Vec<GameObjectType>,
    init_fns: Vec<Option<InitFnType>>,
    update_fns: Vec<UpdateFnType>,
    key_id_map: StringHashMap<GameObjectTypeId>,
}

/// Whether an initialiser may end with `result`, having made `after` of
/// `before`. Without an initialiser the components stay and nothing fails.
pub open spec fn init_outcome(
    init: Option<InitFnType>,
    before: Components,
    after: Components,
    result: Result<(), InitError>,
) -> bool {
    match init {
        None => result is Ok && after == before,
        Some(InitFnType::Player) => result is Ok && player::initialised(before, after),
        Some(InitFnType::Test) => result is Ok && after == crate::gameobjtype::types::test::initialised(before),
        Some(InitFnType::TestTile) => result is Ok && test_tile::initialised(before, after),
        Some(InitFnType::Tree) => if before.position is Some {
            result is Ok && after == tree::initialised(before)
        } else {
            result == Err::<(), InitError>(InitError::MissingPosition) && after == before
        },
    }
}

/// The update behaviours of `builders`, each once, in the order in which
/// they first occur.
pub open spec fn update_table(builders: Seq<GameObjectTypeBuilder>) -> Seq<UpdateFnType>
    decreases builders.len(),
{
    if builders.len() == 0 {
        Seq::empty()
    } else {
        let earlier = update_table(builders.drop_last());
        match builders.last().update {
            Some(update) => if earlier.contains(update) {
                earlier
            } else {
                earlier.push(update)
            },
            None => earlier,
        }
    }
}

/// The type id of each key of `builders`: the place of the last builder
/// with that key.
pub open spec fn key_table(builders: Seq<GameObjectTypeBuilder>) -> Map<Seq<char>, GameObjectTypeId>
    decreases builders.len(),
{
    if builders.len() == 0 {
        Map::empty()
    } else {
        key_table(builders.drop_last()).insert(builders.last().key@, (builders.len() - 1) as u8)
    }
}

/// The object type that the registry makes of builder `i` of `builders`.
pub open spec fn compiled_type(builders: Seq<GameObjectTypeBuilder>, i: int) -> GameObjectType {
    GameObjectType {
        update_fn_id: match builders[i].update {
            Some(update) => Some(update_table(builders).index_of(update) as u8),
            None => None,
        },
        texture: builders[i].texture,
    }
}

/// The components `entity` with the markers of a type: its id, and the id
/// of its update behaviour if it has one.
pub open spec fn marked(
    entity: Components,
    id: GameObjectTypeId,
    update_fn_id: Option<UpdateFnIdType>,
) -> Components {
    Components {
        object_type: Some(GameObjectTypeComponent { id }),
        update_fn: match update_fn_id {
            Some(update) => Some(UpdateFn { id: update }),
            None => entity.update_fn,
        },
        ..entity
    }
}

impl InitFnType {
    /// Runs the initialiser on the components of an entity that is being
    /// built.
    pub fn run(self, entity: &mut Components) -> (r: Result<(), InitError>)
        ensures
            init_outcome(Some(self), *old(entity), *final(entity), r),
    {
        match self {
            InitFnType::Player => player::init(entity),
            InitFnType::Test => crate::gameobjtype::types::test::init(entity),
            InitFnType::TestTile => test_tile::init(entity),
            InitFnType::Tree => tree::init(entity),
        }
    }
}

impl GameObjectTypeBuilder {
    pub fn new(key: &'static str) -> (b: Self)
        ensures
            b == (GameObjectTypeBuilder { key, init: None, update: None, texture: None }),
    {
        Self { key, init: None, update: None, texture: None }
    }

    pub fn init(&mut self, value: InitFnType) -> (r: &mut Self)
        ensures
            *r == (GameObjectTypeBuilder { init: Some(value), ..*old(self) }),
            *final(self) == *final(r),
    {
        self.init = Some(value);
        self
    }

    pub fn update(&mut self, value: UpdateFnType) -> (r: &mut Self)
        ensures
            *r == (GameObjectTypeBuilder { update: Some(value), ..*old(self) }),
            *final(self) == *final(r),
    {
        self.update = Some(value);
        self
    }

    pub fn texture(&mut self, value: &'static str) -> (r: &mut Self)
        ensures
            *r == (GameObjectTypeBuilder { texture: Some(value), ..*old(self) }),
            *final(self) == *final(r),
    {
        self.texture = Some(value);
        self
    }
}

/// The update table holds every update behaviour of the builders and no
/// other, each once, and is no longer than the list of builders.
pub proof fn lemma_update_table(builders: Seq<GameObjectTypeBuilder>)
    ensures
        update_table(builders).no_duplicates(),
        update_table(builders).len() <= builders.len(),
        forall|update: UpdateFnType|
            update_table(builders).contains(update) <==> exists|i: int|
                0 <= i < builders.len() && #[trigger] builders[i].update == Some(update),
    decreases builders.len(),
{
    if builders.len() > 0 {
        let shorter = builders.drop_last();
        let earlier = update_table(shorter);
        lemma_update_table(shorter);
        let table = update_table(builders);
        assert forall|update: UpdateFnType|
            table.contains(update) <==> exists|i: int|
                0 <= i < builders.len() && #[trigger] builders[i].update == Some(update) by {
            if table.contains(update) {
                if earlier.contains(update) {
                    let i = choose|i: int|
                        0 <= i < shorter.len() && #[trigger] shorter[i].update == Some(update);
                    assert(builders[i].update == Some(update));
                } else {
                    let k = choose|k: int| 0 <= k < table.len() && table[k] == update;
                    assert(builders[builders.len() - 1].update == Some(update));
                }
            }
            if exists|i: int|
                0 <= i < builders.len() && #[trigger] builders[i].update == Some(update) {
                let i = choose|i: int|
                    0 <= i < builders.len() && #[trigger] builders[i].update == Some(update);
                if i < shorter.len() {
                    assert(shorter[i].update == Some(update));
                    assert(earlier.contains(update));
                    let k = choose|k: int| 0 <= k < earlier.len() && earlier[k] == update;
                    assert(table[k] == update);
                } else {
                    if !earlier.contains(update) {
                        assert(table[earlier.len() as int] == update);
                    } else {
                        let k = choose|k: int| 0 <= k < earlier.len() && earlier[k] == update;
                        assert(table[k] == update);
                    }
                }
            }
        }
    }
}

/// Builders with the same update behaviour get the same place in the
/// update table, the table holds that behaviour at that place, and the
/// table is as long as the number of distinct update behaviours.
pub proof fn lemma_registry_dedup(builders: Seq<GameObjectTypeBuilder>, i: int, j: int)
    requires
        0 <= i < builders.len(),
        0 <= j < builders.len(),
        builders[i].update is Some,
        builders[i].update == builders[j].update,
    ensures
        compiled_type(builders, i).update_fn_id == compiled_type(builders, j).update_fn_id,
        0 <= update_table(builders).index_of(builders[i].update->0) < update_table(builders).len(),
        update_table(builders)[update_table(builders).index_of(builders[i].update->0)]
            == builders[i].update->0,
        update_table(builders).len() == update_table(builders).to_set().len(),
        update_table(builders).to_set() == Set::new(
            |update: UpdateFnType|
                exists|k: int| 0 <= k < builders.len() && #[trigger] builders[k].update == Some(update),
        ),
{
    lemma_update_table(builders);
    let table = update_table(builders);
    assert(table.contains(builders[i].update->0));
    table.unique_seq_to_set();
    assert(table.to_set() =~= Set::new(
        |update: UpdateFnType|
            exists|k: int| 0 <= k < builders.len() && #[trigger] builders[k].update == Some(update),
    ));
}

impl GameObjectTypes {
    /// The object types, by type id.
    pub closed spec fn types(&self) -> Seq<GameObjectType> {
        self.types@
    }

    /// The initialiser of each object type, by type id.
    pub closed spec fn init_fns(&self) -> Seq<Option<InitFnType>> {
        self.init_fns@
    }

    /// The update behaviours, by update id.
    pub closed spec fn update_fns(&self) -> Seq<UpdateFnType> {
        self.update_fns@
    }

    /// The type id of each key.
    pub closed spec fn key_ids(&self) -> Map<Seq<char>, GameObjectTypeId> {
        self.key_id_map@
    }

    /// Whether the registry is what `generate` makes of `builders`.
    pub open spec fn compiled_from(&self, builders: Seq<GameObjectTypeBuilder>) -> bool {
        &&& self.types().len() == builders.len()
        &&& forall|i: int|
            0 <= i < builders.len() ==> #[trigger] self.types()[i] == compiled_type(builders, i)
        &&& self.init_fns().len() == builders.len()
        &&& forall|i: int|
            0 <= i < builders.len() ==> #[trigger] self.init_fns()[i] == builders[i].init
        &&& self.update_fns() == update_table(builders)
        &&& self.key_ids() == key_table(builders)
    }

    /// Every id that the registry hands out leads to an entry of its
    /// tables, and no update behaviour stands in its table twice.
    pub open spec fn wf(&self) -> bool {
        &&& self.types().len() == self.init_fns().len()
        &&& self.types().len() <= 256
        &&& self.update_fns().len() <= 256
        &&& self.update_fns().no_duplicates()
        &&& forall|key: Seq<char>| #[trigger]
            self.key_ids().contains_key(key) ==> self.key_ids()[key] < self.types().len()
        &&& forall|i: int|
            0 <= i < self.types().len() ==> (#[trigger] self.types()[i]).update_fn_id is Some
                ==> self.types()[i].update_fn_id->0 < self.update_fns().len()
    }

    /// Compiles the builders into a registry: builder `i` becomes the type
    /// with id `i`, and equal update behaviours share one place in the table
    /// of update behaviours.
    pub fn generate(builders: &Vec<GameObjectTypeBuilder>) -> (registry: Self)
        requires
            builders@.len() <= 256,
        ensures
            registry.compiled_from(builders@),
            registry.wf(),
    {
        let mut types: Vec<GameObjectType> = Vec::new();
        let mut update_fns: Vec<UpdateFnType> = Vec::new();
        let mut init_fns: Vec<Option<InitFnType>> = Vec::new();
        let mut key_id_map: StringHashMap<GameObjectTypeId> = StringHashMap::new();
        let mut n: usize = 0;
        proof {
            assert(builders@.take(0) =~= Seq::<GameObjectTypeBuilder>::empty());
        }
        while n < builders.len()
            invariant
                n <= builders@.len() <= 256,
                types@.len() == n,
                init_fns@.len() == n,
                update_fns@ == update_table(builders@.take(n as int)),
                update_fns@.len() <= n,
                update_fns@.no_duplicates(),
                key_id_map@ == key_table(builders@.take(n as int)),
                forall|i: int| 0 <= i < n ==> #[trigger] init_fns@[i] == builders@[i].init,
                forall|i: int| 0 <= i < n ==> (#[trigger] types@[i]).texture == builders@[i].texture,
                forall|i: int|
                    0 <= i < n ==> match builders@[i].update {
                        Some(update) => (#[trigger] types@[i]).update_fn_id is Some
                            && types@[i].update_fn_id->0 < update_fns@.len()
                            && update_fns@[types@[i].update_fn_id->0 as int] == update,
                        None => types@[i].update_fn_id is None,
                    },
                forall|key: Seq<char>| #[trigger] key_id_map@.contains_key(key) ==> key_id_map@[key] < n,
            decreases builders@.len() - n,
        {
            let builder = builders[n];
            let id: GameObjectTypeId = n as u8;
            proof {
                let next = builders@.take(n + 1);
                assert(next.drop_last() =~= builders@.take(n as int));
                assert(next.last() == builder);
                lemma_update_table(next);
            }
            key_id_map.insert(builder.key.to_owned(), id);
            init_fns.push(builder.init);
            let update_fn_id = match builder.update {
                Some(update) => {
                    let mut at: usize = 0;
                    while at < update_fns.len() && !(update_fns[at] == update)
                        invariant
                            at <= update_fns@.len(),
                            forall|k: int| 0 <= k < at ==> update_fns@[k] != update,
                        decreases update_fns@.len() - at,
                    {
                        at += 1;
                    }
                    if at == update_fns.len() {
                        update_fns.push(update);
                    }
                    Some(at as u8)
                },
                None => None,
            };
            types.push(GameObjectType { update_fn_id, texture: builder.texture });
            n += 1;
        }
        proof {
            assert(builders@.take(n as int) =~= builders@);
            assert forall|i: int| 0 <= i < builders@.len() implies #[trigger] types@[i]
                == compiled_type(builders@, i) by {
                if builders@[i].update is Some {
                    let update = builders@[i].update->0;
                    let at = types@[i].update_fn_id->0 as int;
                    assert(update_fns@[at] == update);
                    assert(update_fns@.contains(update));
                    let found = update_fns@.index_of(update);
                    assert(update_fns@[found] == update);
                    assert(found == at);
                }
            }
        }
        Self { types, init_fns, update_fns, key_id_map }
    }

    /// The object type with the id `id`, which the registry has handed
    /// out.
    pub fn from_id(&self, id: GameObjectTypeId) -> (object_type: &GameObjectType)
        requires
            id < self.types().len(),
        ensures
            *object_type == self.types()[id as int],
    {
        &self.types[id as usize]
    }

    /// Whether `key` is the key of an object type.
    pub fn has_key(&self, key: &str) -> (known: bool)
        ensures
            known == self.key_ids().contains_key(key@),
    {
        self.key_id_map.contains_key(key)
    }

    /// The type id of `key`, which is the key of an object type.
    pub fn get_id(&self, key: &str) -> (id: GameObjectTypeId)
        requires
            self.key_ids().contains_key(key@),
        ensures
            id == self.key_ids()[key@],
    {
        match self.key_id_map.get(key) {
            Some(id) => *id,
            None => 0,
        }
    }

    /// Makes the components of a new entity those of an entity of the type
    /// `key`: runs the initialiser of the type, if it has one, and then adds
    /// the marker of the type and, if the type has an update behaviour, the
    /// marker of that. If the initialiser fails, its error is handed on and
    /// no marker is added.
    pub fn init_entity(&self, entity: &mut Components, key: &str) -> (r: Result<(), InitError>)
        requires
            self.wf(),
            self.key_ids().contains_key(key@),
        ensures
            self.initialises(key@, *old(entity), *final(entity), r),
    {
        let id = self.get_id(key);
        let ghost before = *entity;
        if let Some(init) = self.init_fns[id as usize] {
            let r = init.run(entity);
            if let Err(e) = r {
                return Err(e);
            }
        }
        let ghost mid = *entity;
        entity.object_type = Some(GameObjectTypeComponent { id });
        if let Some(update) = self.types[id as usize].update_fn_id {
            entity.update_fn = Some(UpdateFn { id: update });
        }
        proof {
            assert(*entity == marked(mid, id, self.types()[id as int].update_fn_id));
            assert(init_outcome(self.init_fns()[id as int], before, mid, Ok(())));
        }
        Ok(())
    }

    /// Whether `init_entity` may end with `result`, having made `after` of
    /// `before` for the type `key`.
    pub open spec fn initialises(
        &self,
        key: Seq<char>,
        before: Components,
        after: Components,
        result: Result<(), InitError>,
    ) -> bool {
        let id = self.key_ids()[key];
        match result {
            Ok(_) => exists|mid: Components|
                #![trigger marked(mid, id, self.types()[id as int].update_fn_id)]
                init_outcome(self.init_fns()[id as int], before, mid, Ok(())) && after == marked(
                    mid,
                    id,
                    self.types()[id as int].update_fn_id,
                ),
            Err(_) => init_outcome(self.init_fns()[id as int], before, after, result),
        }
    }

    /// Whether `id` is the id of an update behaviour.
    pub fn has_update_fn(&self, id: UpdateFnIdType) -> (known: bool)
        ensures
            known == (id < self.update_fns().len()),
    {
        (id as usize) < self.update_fns.len()
    }

    /// Whether `id` is the id of an object type.
    pub fn has_id(&self, id: GameObjectTypeId) -> (known: bool)
        ensures
            known == (id < self.types().len()),
    {
        (id as usize) < self.types.len()
    }

    /// The update behaviour with the id `id`, which the registry has handed
    /// out.
    pub fn get_update_fn_from_id(&self, id: UpdateFnIdType) -> (update: UpdateFnType)
        requires
            id < self.update_fns().len(),
        ensures
            update == self.update_fns()[id as int],
    {
        self.update_fns[id as usize]
    }
}

} // verus!

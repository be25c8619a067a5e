use minefred::components::ChunkPos;
use minefred::components::Direction;
use minefred::components::GameObjectTypeComponent;
use minefred::components::Position;
use minefred::components::TextureTransform;
use minefred::components::UpdateFn;
use minefred::game::no_components;
use minefred::gameobjtype::types::types;
use minefred::gameobjtype::GameObjectTypeBuilder;
use minefred::gameobjtype::GameObjectTypes;
use minefred::gameobjtype::InitError;
use minefred::gameobjtype::InitFnType;
use minefred::gameobjtype::UpdateFnType;

fn with_update(key: &'static str, tag: u32) -> GameObjectTypeBuilder {
    let mut b = GameObjectTypeBuilder::new(key);
    b.update(UpdateFnType { tag });
    b
}

#[test]
fn builders_with_the_same_update_behaviour_share_its_id() {
    let builders = vec![
        with_update("a", 50),
        GameObjectTypeBuilder::new("b"),
        with_update("c", 60),
        with_update("d", 50),
        with_update("e", 70),
        with_update("f", 60),
    ];
    let registry = GameObjectTypes::generate(&builders);
    let id_of = |key: &str| registry.from_id(registry.get_id(key)).update_fn_id;
    assert_eq!(id_of("a"), Some(0));
    assert_eq!(id_of("b"), None);
    assert_eq!(id_of("c"), Some(1));
    assert_eq!(id_of("d"), Some(0));
    assert_eq!(id_of("e"), Some(2));
    assert_eq!(id_of("f"), Some(1));
    // three distinct behaviours among five builders that have one
    assert!(registry.has_update_fn(2));
    assert!(!registry.has_update_fn(3));
    assert_eq!(registry.get_update_fn_from_id(0), UpdateFnType { tag: 50 });
    assert_eq!(registry.get_update_fn_from_id(1), UpdateFnType { tag: 60 });
    assert_eq!(registry.get_update_fn_from_id(2), UpdateFnType { tag: 70 });
}

#[test]
fn type_ids_count_the_builders_from_zero() {
    let mut stone = GameObjectTypeBuilder::new("stone");
    stone.texture("rock");
    let builders = vec![GameObjectTypeBuilder::new("a"), stone, GameObjectTypeBuilder::new("c")];
    let registry = GameObjectTypes::generate(&builders);
    assert_eq!(registry.get_id("a"), 0);
    assert_eq!(registry.get_id("stone"), 1);
    assert_eq!(registry.get_id("c"), 2);
    assert!(registry.has_key("stone"));
    assert!(!registry.has_key("ston"));
    assert!(!registry.has_key(""));
    assert!(registry.has_id(2));
    assert!(!registry.has_id(3));
    assert_eq!(registry.from_id(1).texture, Some("rock"));
    assert_eq!(registry.from_id(0).texture, None);
}

#[test]
fn later_builder_takes_over_a_key() {
    let builders = vec![with_update("a", 1), GameObjectTypeBuilder::new("b"), with_update("a", 2)];
    let registry = GameObjectTypes::generate(&builders);
    assert_eq!(registry.get_id("a"), 2);
    assert_eq!(registry.from_id(0).update_fn_id, Some(0));
    assert_eq!(registry.from_id(2).update_fn_id, Some(1));
}

#[test]
fn registry_takes_two_hundred_and_fifty_six_types() {
    let builders: Vec<GameObjectTypeBuilder> = (0..256u32).map(|i| with_update("t", i)).collect();
    let registry = GameObjectTypes::generate(&builders);
    assert_eq!(registry.get_id("t"), 255);
    assert_eq!(registry.from_id(255).update_fn_id, Some(255));
    assert_eq!(registry.get_update_fn_from_id(255), UpdateFnType { tag: 255 });
    let none = GameObjectTypes::generate(&vec![]);
    assert!(!none.has_id(0));
    assert!(!none.has_update_fn(0));
}

#[test]
fn known_types_have_their_keys_initialisers_and_textures() {
    let table = types();
    assert_eq!(table.len(), 4);
    let keys: Vec<&str> = table.iter().map(|b| b.key).collect();
    assert_eq!(keys, vec!["player", "test", "test_tile", "tree"]);
    let inits: Vec<Option<InitFnType>> = table.iter().map(|b| b.init).collect();
    assert_eq!(
        inits,
        vec![
            Some(InitFnType::Player),
            Some(InitFnType::Test),
            Some(InitFnType::TestTile),
            Some(InitFnType::Tree)
        ]
    );
    let textures: Vec<Option<&str>> = table.iter().map(|b| b.texture).collect();
    assert_eq!(textures, vec![Some("player"), Some("error"), Some("grass"), Some("tree")]);
    assert!(table.iter().all(|b| b.update.is_none()));
}

#[test]
fn init_entity_runs_the_initialiser_and_adds_the_markers() {
    let mut table = types();
    table.push(with_update("walker", 5));
    let registry = GameObjectTypes::generate(&table);

    let mut player = no_components();
    assert_eq!(registry.init_entity(&mut player, "player"), Ok(()));
    assert_eq!(player.position, Some(Position::free(0, 0)));
    assert!(player.player.is_some());
    assert_eq!(player.object_type, Some(GameObjectTypeComponent { id: 0 }));
    assert_eq!(player.update_fn, None);

    let mut test = no_components();
    test.position = Some(Position::free(5, 5));
    assert_eq!(registry.init_entity(&mut test, "test"), Ok(()));
    assert_eq!(test.position, Some(Position::free(1000, 1000)));
    assert_eq!(test.object_type, Some(GameObjectTypeComponent { id: 1 }));

    let mut tile = no_components();
    tile.position = Some(Position::tile(ChunkPos::new(1, 2), 3, 4));
    assert_eq!(registry.init_entity(&mut tile, "test_tile"), Ok(()));
    assert_eq!(tile.position, Some(Position::tile(ChunkPos::new(1, 2), 3, 4)));
    assert_eq!(tile.texture.unwrap().scale, 100);
    assert_eq!(tile.object_type, Some(GameObjectTypeComponent { id: 2 }));

    let mut tree = no_components();
    tree.position = Some(Position::tile(ChunkPos::new(0, 0), 1, 1));
    assert_eq!(registry.init_entity(&mut tree, "tree"), Ok(()));
    assert_eq!(
        tree.position,
        Some(Position::Tile { chunk: ChunkPos::new(0, 0), col: 1, row: 1, top: true })
    );
    assert_eq!(tree.texture, Some(TextureTransform { direction: Direction::Twelve, scale: 200 }));
    assert_eq!(tree.object_type, Some(GameObjectTypeComponent { id: 3 }));

    let mut walker = no_components();
    assert_eq!(registry.init_entity(&mut walker, "walker"), Ok(()));
    assert_eq!(walker.position, None);
    assert_eq!(walker.object_type, Some(GameObjectTypeComponent { id: 4 }));
    assert_eq!(walker.update_fn, Some(UpdateFn { id: 0 }));
}

#[test]
fn tree_without_a_position_is_not_initialised() {
    let registry = GameObjectTypes::generate(&types());
    let mut tree = no_components();
    assert_eq!(registry.init_entity(&mut tree, "tree"), Err(InitError::MissingPosition));
    assert_eq!(tree.object_type, None);
    assert_eq!(tree.texture, None);
    assert_eq!(InitFnType::Tree.run(&mut tree), Err(InitError::MissingPosition));
}

#[test]
fn builder_setters_can_be_chained() {
    let mut b = GameObjectTypeBuilder::new("x");
    b.init(InitFnType::Test).update(UpdateFnType { tag: 3 }).texture("y");
    assert_eq!(b.key, "x");
    assert_eq!(b.init, Some(InitFnType::Test));
    assert_eq!(b.update, Some(UpdateFnType { tag: 3 }));
    assert_eq!(b.texture, Some("y"));
}

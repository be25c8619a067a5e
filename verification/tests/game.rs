use minefred::components::ChunkPos;
use minefred::components::Position;
use minefred::error::GameError;
use minefred::game::no_components;
use minefred::game::order::render_order;
use minefred::game::chunks::required_chunks;
use minefred::game::Game;

fn neighbourhood_of_origin() -> Vec<ChunkPos> {
    vec![
        ChunkPos::new(-1, -1),
        ChunkPos::new(0, -1),
        ChunkPos::new(1, -1),
        ChunkPos::new(-1, 0),
        ChunkPos::new(0, 0),
        ChunkPos::new(1, 0),
        ChunkPos::new(-1, 1),
        ChunkPos::new(0, 1),
        ChunkPos::new(1, 1),
    ]
}

#[test]
fn neighbourhood_is_a_square_of_nine_chunks() {
    assert_eq!(required_chunks(ChunkPos::new(0, 0)), neighbourhood_of_origin());
    let keys = required_chunks(ChunkPos::new(10, -20));
    assert_eq!(keys.len(), 9);
    assert_eq!(keys[0], ChunkPos::new(9, -21));
    assert_eq!(keys[4], ChunkPos::new(10, -20));
    assert_eq!(keys[8], ChunkPos::new(11, -19));
}

#[test]
fn init_generates_nine_chunks_around_the_player() {
    let mut game = Game::new();
    assert_eq!(game.init(), Ok(()));
    let chunks = game.chunks();
    assert_eq!(chunks.len(), 9);
    assert_eq!(chunks[0], ChunkPos::new(0, 0));
    for key in neighbourhood_of_origin() {
        assert_eq!(chunks.iter().filter(|c| **c == key).count(), 1);
    }
    assert_eq!(game.player_chunk(), ChunkPos::new(0, 0));
}

#[test]
fn init_puts_the_player_between_the_ground_and_the_trees() {
    let mut game = Game::new();
    assert_eq!(game.init(), Ok(()));
    let player = game.player();
    assert_eq!(game.position_of(player), Some(Position::free(0, 0)));
    let ids = game.loaded_ids().clone();
    // nine chunks of tiles, two players, two trees and one test entity
    assert_eq!(ids.len(), 9 * 256 + 5);
    let at = ids.iter().position(|id| *id == player).unwrap();
    // layers 0 and 1: the tiles, the second player and the test entity
    assert_eq!(at, 9 * 256 + 2);
    for id in &ids[..at] {
        assert!(game.position_of(*id).unwrap().order() <= 1);
    }
    // layer 3: the trees, by diagonal
    let left = game.position_of(ids[at + 1]).unwrap();
    let right = game.position_of(ids[at + 2]).unwrap();
    assert_eq!(left, Position::Tile { chunk: ChunkPos::new(0, 0), col: 1, row: 1, top: true });
    assert_eq!(right, Position::Tile { chunk: ChunkPos::new(0, 0), col: 2, row: 1, top: true });
    assert_eq!(at + 3, ids.len());
}

#[test]
fn second_forced_update_generates_nothing() {
    let mut game = Game::new();
    assert_eq!(game.init(), Ok(()));
    let chunks = game.chunks().clone();
    let loaded = game.loaded_ids().len();
    assert_eq!(game.update_loaded(true), Ok(()));
    assert_eq!(*game.chunks(), chunks);
    assert_eq!(game.loaded_ids().len(), loaded);
    assert_eq!(game.update_loaded(true), Ok(()));
    assert_eq!(*game.chunks(), chunks);
    assert_eq!(game.loaded_ids().len(), loaded);
}

#[test]
fn update_without_a_reference_entity_fails() {
    let mut game = Game::new();
    assert_eq!(game.update_loaded(true), Err(GameError::NoReference));
    assert!(game.chunks().is_empty());
    assert!(game.loaded_ids().is_empty());
}

#[test]
fn throttle_fires_on_the_first_call_and_then_every_sixty_first() {
    let mut game = Game::new();
    // the first call is due and fails for want of a reference entity
    assert_eq!(game.update_loaded(false), Err(GameError::NoReference));
    for _ in 0..60 {
        assert_eq!(game.update_loaded(false), Ok(()));
    }
    assert_eq!(game.update_loaded(false), Err(GameError::NoReference));
}

#[test]
fn spawned_tree_without_a_position_fails_and_creates_nothing() {
    let mut game = Game::new();
    assert_eq!(game.init(), Ok(()));
    let before = game.loaded_ids().len();
    assert_eq!(
        game.spawn("tree", no_components()),
        Err(GameError::Init(minefred::gameobjtype::InitError::MissingPosition))
    );
    assert_eq!(game.update_loaded(true), Ok(()));
    assert_eq!(game.loaded_ids().len(), before);
}

#[test]
fn loaded_list_is_ordered_by_layer_whatever_the_order_of_spawning() {
    let origin = ChunkPos::new(0, 0);
    for round in 0..2 {
        let mut game = Game::new();
        let mut at = |game: &mut Game, key: &str, position: Position| {
            let mut c = no_components();
            c.position = Some(position);
            game.spawn(key, c).unwrap()
        };
        let mut top_free = Position::free(500, 500);
        top_free.top();
        let (a, b, r, c, d);
        if round == 0 {
            d = at(&mut game, "test_tile", top_free);
            c = at(&mut game, "tree", Position::tile(origin, 3, 3));
            r = game.spawn("player", no_components()).unwrap();
            b = at(&mut game, "test_tile", Position::free(700, 700));
            a = at(&mut game, "test_tile", Position::tile(ChunkPos::new(5, 5), 0, 0));
        } else {
            a = at(&mut game, "test_tile", Position::tile(ChunkPos::new(5, 5), 0, 0));
            r = game.spawn("player", no_components()).unwrap();
            b = at(&mut game, "test_tile", Position::free(700, 700));
            c = at(&mut game, "tree", Position::tile(origin, 3, 3));
            d = at(&mut game, "test_tile", top_free);
        }
        game.set_player(r);
        assert_eq!(game.update_loaded(true), Ok(()));
        let ids = game.loaded_ids();
        // `a` lies outside the neighbourhood and is not in view
        assert!(!ids.contains(&a));
        let n = ids.len();
        assert_eq!(n, 9 * 256 + 4);
        assert_eq!(ids[n - 4], b);
        assert_eq!(ids[n - 3], r);
        assert_eq!(ids[n - 2], c);
        assert_eq!(ids[n - 1], d);
    }
}

#[test]
fn render_order_puts_five_layers_in_order() {
    let mut game = Game::new();
    let ids: Vec<hecs::Entity> = (0..6).map(|_| game.spawn("test", no_components()).unwrap()).collect();
    let origin = ChunkPos::new(0, 0);
    let mut top_tile = Position::tile(origin, 1, 2);
    top_tile.top();
    let mut top_free = Position::free(0, 0);
    top_free.top();
    let (a, b, r, c, d, none) = (ids[0], ids[1], ids[2], ids[3], ids[4], ids[5]);
    let needed = vec![origin];
    let listings = vec![
        vec![
            (a, Some(Position::tile(origin, 0, 0))),
            (b, Some(Position::free(10, 10))),
            (r, Some(Position::free(20, 20))),
            (c, Some(top_tile)),
            (d, Some(top_free)),
            (none, None),
        ],
        vec![
            (none, None),
            (d, Some(top_free)),
            (c, Some(top_tile)),
            (r, Some(Position::free(20, 20))),
            (b, Some(Position::free(10, 10))),
            (a, Some(Position::tile(origin, 0, 0))),
        ],
    ];
    for all in listings {
        assert_eq!(render_order(&all, r, &needed), vec![a, b, r, c, d]);
    }
}

#[test]
fn render_order_sorts_the_top_tiles_by_diagonal() {
    let mut game = Game::new();
    let ids: Vec<hecs::Entity> = (0..4).map(|_| game.spawn("test", no_components()).unwrap()).collect();
    let origin = ChunkPos::new(0, 0);
    let top = |col: u8, row: u8| {
        let mut p = Position::tile(origin, col, row);
        p.top();
        Some(p)
    };
    let needed = vec![origin];
    // diagonals 7, 3, 3 and 0, counted in tiles
    let all = vec![(ids[0], top(3, 4)), (ids[1], top(1, 2)), (ids[2], top(2, 1)), (ids[3], top(0, 0))];
    assert_eq!(
        render_order(&all, hecs::Entity::DANGLING, &needed),
        vec![ids[3], ids[1], ids[2], ids[0]]
    );
    let all = vec![(ids[1], top(1, 2)), (ids[0], top(3, 4))];
    assert_eq!(render_order(&all, hecs::Entity::DANGLING, &needed), vec![ids[1], ids[0]]);
    let all = vec![(ids[0], top(3, 4)), (ids[1], top(1, 2))];
    assert_eq!(render_order(&all, hecs::Entity::DANGLING, &needed), vec![ids[1], ids[0]]);
}

#[test]
fn render_order_leaves_out_what_is_not_in_view() {
    let mut game = Game::new();
    let ids: Vec<hecs::Entity> = (0..3).map(|_| game.spawn("test", no_components()).unwrap()).collect();
    let needed = vec![ChunkPos::new(0, 0), ChunkPos::new(1, 0)];
    let all = vec![
        (ids[0], Some(Position::free(-1, 0))),
        (ids[1], Some(Position::free(16000, 0))),
        (ids[2], Some(Position::tile(ChunkPos::new(0, 1), 0, 0))),
    ];
    assert_eq!(render_order(&all, ids[0], &needed), vec![ids[1]]);
}

#[test]
fn loaded_list_is_layered_wherever_the_player_goes() {
    let mut game = Game::new();
    assert_eq!(game.init(), Ok(()));
    let player = game.player();
    // some more trees, to have ties and gaps among the diagonals
    for (col, row) in [(5u8, 5u8), (6, 4), (4, 6), (15, 15), (0, 0), (9, 1)] {
        let mut c = no_components();
        c.position = Some(Position::tile(ChunkPos::new(-1, 0), col, row));
        game.spawn("tree", c).unwrap();
    }
    let steps: [(i64, i64); 6] =
        [(0, 0), (-16000, 0), (-16000, -16000), (40000, 0), (0, 40000), (-24000, -24000)];
    let start = game.position_of(player).unwrap();
    for (dx, dy) in steps {
        let mut position = start;
        position.move_x(dx);
        position.move_y(dy);
        // in the program the keys move the player; here another entity at
        // the new place is made the reference entity
        let mut c = no_components();
        c.position = Some(position);
        let stand_in = game.spawn("test_tile", c).unwrap();
        game.set_player(stand_in);
        assert_eq!(game.update_loaded(true), Ok(()));

        let center = position.chunk();
        let needed = required_chunks(center);
        assert_eq!(game.player_chunk(), center);
        for key in &needed {
            assert_eq!(game.chunks().iter().filter(|c| *c == key).count(), 1);
        }
        let ids = game.loaded_ids().clone();
        let mut seen = std::collections::HashSet::new();
        let mut last_layer = 0;
        let mut last_diagonal = i64::MIN;
        for id in &ids {
            assert!(seen.insert(*id));
            let p = game.position_of(*id).unwrap();
            assert!(needed.contains(&p.chunk()));
            let layer = if *id == game.player() { 2 } else { p.order() };
            assert!(layer >= last_layer);
            if layer == 3 {
                if last_layer == 3 {
                    assert!(p.x() + p.y() >= last_diagonal);
                }
                last_diagonal = p.x() + p.y();
            }
            last_layer = layer;
        }
        assert!(ids.contains(&game.player()));
        // every tile of the neighbourhood is in view
        let tiles = ids.iter().filter(|id| game.position_of(**id).unwrap().order() == 0).count();
        assert!(tiles >= 9 * 256);
    }
}

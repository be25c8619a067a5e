use minefred::components::ChunkPos;
use minefred::components::Position;
use minefred::error::GameError;
use minefred::event::Action;
use minefred::event::ActionHandler;
use minefred::event::Button;
use minefred::event::Event;
use minefred::game::no_components;
use minefred::game::render::ScreenRect;
use minefred::game::Game;
use minefred::gameobjtype::GameObjectTypeBuilder;
use minefred::gameobjtype::UpdateFnType;

const KEY_W: i32 = 26;
const KEY_S: i32 = 22;
const KEY_A: i32 = 4;
const KEY_D: i32 = 7;
const KEY_SHIFT: i32 = 225;
const MOUSE_RIGHT: u8 = 3;

fn action(key: &'static str, prolonged: bool) -> Action {
    Action { label: key, key, prolonged, local: false }
}

fn handler() -> ActionHandler {
    ActionHandler::new(&vec![
        (Button::Key(KEY_W), action("move_up", true)),
        (Button::Key(KEY_S), action("move_down", true)),
        (Button::Key(KEY_A), action("move_left", true)),
        (Button::Key(KEY_D), action("move_right", true)),
        (Button::Key(KEY_SHIFT), action("run", true)),
        (Button::Mouse(MOUSE_RIGHT), action("attack", false)),
    ])
}

fn started() -> Game {
    let mut game = Game::new();
    assert_eq!(game.init(), Ok(()));
    game
}

#[test]
fn wheel_sets_the_scale_between_thirty_and_seventy() {
    let mut game = Game::new();
    let handler = handler();
    assert_eq!(game.tile_scale(), 40);
    game.handle_events(&vec![Event::MouseWheel { y: 5 }], &handler);
    assert_eq!(game.tile_scale(), 35);
    game.handle_events(&vec![Event::MouseWheel { y: 100 }], &handler);
    assert_eq!(game.tile_scale(), 30);
    game.handle_events(&vec![Event::MouseWheel { y: -7 }, Event::MouseWheel { y: -7 }], &handler);
    assert_eq!(game.tile_scale(), 44);
    game.handle_events(&vec![Event::MouseWheel { y: i32::MIN }], &handler);
    assert_eq!(game.tile_scale(), 70);
    game.handle_events(&vec![Event::MouseWheel { y: i32::MAX }], &handler);
    assert_eq!(game.tile_scale(), 30);
}

#[test]
fn resize_is_noted_and_ends_the_events_of_the_frame() {
    let mut game = started();
    let handler = handler();
    let events = vec![
        Event::KeyDown { scancode: Some(KEY_D) },
        Event::Resized { width: 800, height: 600 },
        Event::MouseWheel { y: 5 },
        Event::Quit,
    ];
    assert_eq!(game.update(&events, &handler), Ok(false));
    assert_eq!(game.screen_size(), (800, 600));
    assert_eq!(game.tile_scale(), 40);
    // the key that went down before the resize is forgotten
    let player = game.components_of(game.player()).unwrap().player.unwrap();
    assert!(!player.action_state.key("move_right"));
}

#[test]
fn quit_ends_the_frame_at_once() {
    let mut game = started();
    let handler = handler();
    let events = vec![
        Event::MouseWheel { y: 5 },
        Event::KeyDown { scancode: Some(KEY_D) },
        Event::Quit,
        Event::Resized { width: 800, height: 600 },
    ];
    assert_eq!(game.update(&events, &handler), Ok(true));
    assert_eq!(game.tile_scale(), 35);
    assert_eq!(game.screen_size(), (0, 0));
    let player = game.components_of(game.player()).unwrap().player.unwrap();
    assert!(!player.action_state.key("move_right"));
}

#[test]
fn update_without_a_reference_entity_reports_it() {
    let mut game = Game::new();
    assert_eq!(game.update(&vec![], &handler()), Err(GameError::NoReference));
    assert_eq!(game.update_player((0, 0), false), Err(GameError::NoPlayer));
}

#[test]
fn held_keys_move_the_player_until_released() {
    let mut game = started();
    let handler = handler();
    let player = game.player();
    assert_eq!(game.update(&vec![Event::KeyDown { scancode: Some(KEY_D) }], &handler), Ok(false));
    assert_eq!(game.update_player((0, 0), true), Ok(()));
    assert_eq!(game.position_of(player), Some(Position::free(100, 0)));
    // the key is still held in the next frame
    assert_eq!(game.update(&vec![Event::Other], &handler), Ok(false));
    assert_eq!(game.update_player((0, 0), true), Ok(()));
    assert_eq!(game.position_of(player), Some(Position::free(200, 0)));
    let events = vec![
        Event::KeyUp { scancode: Some(KEY_D) },
        Event::KeyDown { scancode: Some(KEY_W) },
        Event::KeyDown { scancode: Some(KEY_SHIFT) },
        Event::KeyDown { scancode: None },
        Event::KeyDown { scancode: Some(1000) },
    ];
    assert_eq!(game.update(&events, &handler), Ok(false));
    assert_eq!(game.update_player((0, 0), true), Ok(()));
    assert_eq!(game.position_of(player), Some(Position::free(200, -200)));
    let events = vec![
        Event::KeyDown { scancode: Some(KEY_S) },
        Event::KeyDown { scancode: Some(KEY_A) },
        Event::KeyUp { scancode: Some(KEY_SHIFT) },
    ];
    assert_eq!(game.update(&events, &handler), Ok(false));
    assert_eq!(game.update_player((0, 0), true), Ok(()));
    // up and down cancel each other
    assert_eq!(game.position_of(player), Some(Position::free(100, -200)));
}

#[test]
fn player_who_leaves_the_chunk_gets_new_chunks_when_the_throttle_is_due() {
    let mut game = started();
    let handler = handler();
    let player = game.player();
    assert_eq!(game.update(&vec![Event::KeyDown { scancode: Some(KEY_A) }], &handler), Ok(false));
    assert_eq!(game.update_player((0, 0), true), Ok(()));
    assert_eq!(game.position_of(player).unwrap().chunk(), ChunkPos::new(-1, 0));
    // the throttle fired in the frame above, before the player moved
    for _ in 0..60 {
        assert_eq!(game.update(&vec![], &handler), Ok(false));
        assert_eq!(game.chunks().len(), 9);
        assert_eq!(game.player_chunk(), ChunkPos::new(0, 0));
    }
    assert_eq!(game.update(&vec![], &handler), Ok(false));
    assert_eq!(game.player_chunk(), ChunkPos::new(-1, 0));
    assert_eq!(game.chunks().len(), 12);
    assert_eq!(game.chunks()[9], ChunkPos::new(-2, -1));
    assert_eq!(game.chunks()[10], ChunkPos::new(-2, 0));
    assert_eq!(game.chunks()[11], ChunkPos::new(-2, 1));
    // what lies in the three chunks on the right is no longer in view
    assert_eq!(game.loaded_ids().len(), 9 * 256 + 5);
}

#[test]
fn rectangles_are_measured_from_the_player_in_the_middle_of_the_screen() {
    let mut game = started();
    let handler = handler();
    assert_eq!(
        game.update(&vec![Event::Resized { width: 800, height: 600 }], &handler),
        Ok(false)
    );
    let player = game.player();
    assert_eq!(
        game.get_sdl_rect(player),
        Ok(ScreenRect { x: 380, y: 280, width: 40, height: 40 })
    );
    let mut c = no_components();
    c.position = Some(Position::tile(ChunkPos::new(0, -1), 1, 15));
    let tile = game.spawn("test_tile", c).unwrap();
    assert_eq!(game.get_sdl_rect(tile), Ok(ScreenRect { x: 420, y: 240, width: 40, height: 40 }));
    let mut c = no_components();
    c.position = Some(Position::free(-1530, 1012));
    let free = game.spawn("test_tile", c).unwrap();
    // 61.2 and 40.48 pixels from the player, rounded towards it
    assert_eq!(game.get_sdl_rect(free), Ok(ScreenRect { x: 319, y: 320, width: 40, height: 40 }));
    let bare = game.spawn("test_tile", no_components()).unwrap();
    assert_eq!(game.get_sdl_rect(bare), Err(GameError::NoPosition));
    assert_eq!(game.get_sdl_rect(hecs::Entity::DANGLING), Err(GameError::NoPosition));
    let rect = game.get_sdl_rect(tile).unwrap();
    assert!(rect.contains_point(420, 240));
    assert!(rect.contains_point(459, 279));
    assert!(!rect.contains_point(460, 279));
    assert!(!rect.contains_point(459, 280));
    assert!(!rect.contains_point(419, 240));
}

#[test]
fn rectangle_needs_the_position_of_the_player() {
    let mut game = Game::new();
    let mut c = no_components();
    c.position = Some(Position::free(0, 0));
    let id = game.spawn("test_tile", c).unwrap();
    assert_eq!(game.get_sdl_rect(id), Err(GameError::NoReference));
}

#[test]
fn player_selects_what_is_under_the_mouse_and_attacks_it() {
    let mut game = started();
    let handler = handler();
    assert_eq!(
        game.update(&vec![Event::Resized { width: 800, height: 600 }], &handler),
        Ok(false)
    );
    let player = game.player();
    let ids = game.loaded_ids().clone();
    let tree = *ids.last().unwrap();
    assert_eq!(
        game.position_of(tree),
        Some(Position::Tile { chunk: ChunkPos::new(0, 0), col: 2, row: 1, top: true })
    );
    // the tree covers a tile of the ground, which comes earlier in the order
    let rect = game.get_sdl_rect(tree).unwrap();
    assert_eq!(rect, ScreenRect { x: 460, y: 320, width: 40, height: 40 });
    // over the interface nothing is selected
    assert_eq!(game.update_player((470, 330), true), Ok(()));
    assert_eq!(game.components_of(player).unwrap().player.unwrap().selected, None);
    assert_eq!(game.update_player((470, 330), false), Ok(()));
    assert_eq!(game.components_of(player).unwrap().player.unwrap().selected, Some(tree));
    // without an attack the tree stays
    assert_eq!(game.update(&vec![], &handler), Ok(false));
    assert_eq!(game.update_player((470, 330), false), Ok(()));
    assert!(game.components_of(tree).is_some());
    let attack = vec![Event::MouseButtonDown { button: MOUSE_RIGHT }];
    assert_eq!(game.update(&attack, &handler), Ok(false));
    assert_eq!(game.update_player((470, 330), false), Ok(()));
    assert!(game.components_of(tree).is_none());
    // the tile under the tree is selected now
    let selected = game.components_of(player).unwrap().player.unwrap().selected.unwrap();
    assert_eq!(
        game.position_of(selected),
        Some(Position::Tile { chunk: ChunkPos::new(0, 0), col: 2, row: 1, top: false })
    );
    // the attack lasted one frame
    assert_eq!(game.update(&vec![], &handler), Ok(false));
    assert_eq!(game.update_player((470, 330), false), Ok(()));
    assert!(game.components_of(selected).is_some());
    // where nothing is, nothing is selected
    assert_eq!(game.update_player((-5000, -5000), false), Ok(()));
    assert_eq!(game.components_of(player).unwrap().player.unwrap().selected, None);
}

#[test]
fn update_targets_pair_the_marked_entities_with_their_behaviour() {
    let mut walker = GameObjectTypeBuilder::new("walker");
    walker.update(UpdateFnType { tag: 7 });
    let mut runner = GameObjectTypeBuilder::new("runner");
    runner.update(UpdateFnType { tag: 9 });
    let mut stroller = GameObjectTypeBuilder::new("stroller");
    stroller.update(UpdateFnType { tag: 7 });
    let stone = GameObjectTypeBuilder::new("stone");
    let mut game = Game::with_types(&vec![walker, stone, runner, stroller]).unwrap();
    assert_eq!(game.init(), Ok(()));
    assert!(game.update_targets().is_empty());
    let mut at = |game: &mut Game, key: &str, x: i64| {
        let mut c = no_components();
        c.position = Some(Position::free(x, 0));
        game.spawn(key, c).unwrap()
    };
    let a = at(&mut game, "walker", 10);
    let b = at(&mut game, "stone", 20);
    let c = at(&mut game, "runner", 30);
    let d = at(&mut game, "stroller", 40);
    let far = at(&mut game, "runner", 1_000_000);
    assert_eq!(game.components_of(a).unwrap().update_fn.unwrap().id, 0);
    assert!(game.components_of(b).unwrap().update_fn.is_none());
    assert_eq!(game.components_of(c).unwrap().update_fn.unwrap().id, 1);
    assert_eq!(game.components_of(d).unwrap().update_fn.unwrap().id, 0);
    assert_eq!(game.components_of(a).unwrap().object_type.unwrap().id, 4);
    assert_eq!(game.components_of(d).unwrap().object_type.unwrap().id, 7);
    // not in view yet
    assert!(game.update_targets().is_empty());
    assert_eq!(game.update_loaded(true), Ok(()));
    let mut targets = game.update_targets();
    targets.sort_by_key(|(id, _)| [a, c, d].iter().position(|x| x == id));
    assert_eq!(
        targets,
        vec![
            (a, UpdateFnType { tag: 7 }),
            (c, UpdateFnType { tag: 9 }),
            (d, UpdateFnType { tag: 7 }),
        ]
    );
    assert!(!game.loaded_ids().contains(&far));
}

#[test]
fn marker_that_the_registry_did_not_hand_out_is_passed_over() {
    let mut game = started();
    let mut c = no_components();
    c.position = Some(Position::free(0, 0));
    c.update_fn = Some(minefred::components::UpdateFn { id: 3 });
    let id = game.spawn("test_tile", c).unwrap();
    assert_eq!(game.update_loaded(true), Ok(()));
    assert!(game.loaded_ids().contains(&id));
    assert!(game.update_targets().is_empty());
}

#[test]
fn with_types_refuses_known_keys_and_too_many_types() {
    assert!(Game::with_types(&vec![]).is_some());
    assert!(Game::with_types(&vec![GameObjectTypeBuilder::new("tree")]).is_none());
    assert!(Game::with_types(&vec![
        GameObjectTypeBuilder::new("stone"),
        GameObjectTypeBuilder::new("test_tile")
    ])
    .is_none());
    let many: Vec<GameObjectTypeBuilder> = (0..252).map(|_| GameObjectTypeBuilder::new("stone")).collect();
    let game = Game::with_types(&many).unwrap();
    assert_eq!(game.types().get_id("stone"), 255);
    assert_eq!(game.types().get_id("tree"), 3);
    let more: Vec<GameObjectTypeBuilder> = (0..253).map(|_| GameObjectTypeBuilder::new("stone")).collect();
    assert!(Game::with_types(&more).is_none());
}

#[test]
fn sprites_give_the_rectangle_and_the_texture_of_what_is_in_view() {
    let mut game = Game::with_types(&vec![GameObjectTypeBuilder::new("ghost")]).unwrap();
    assert_eq!(game.init(), Ok(()));
    let handler = handler();
    assert_eq!(
        game.update(&vec![Event::Resized { width: 800, height: 600 }], &handler),
        Ok(false)
    );
    let mut c = no_components();
    c.position = Some(Position::free(0, 0));
    let ghost = game.spawn("ghost", c).unwrap();
    assert_eq!(game.update_loaded(true), Ok(()));
    assert!(game.loaded_ids().contains(&ghost));
    assert_eq!(game.get_gameobjtype(ghost).unwrap().texture, None);
    assert!(game.get_gameobjtype(hecs::Entity::DANGLING).is_none());
    let sprites = game.sprites();
    // the ghost has no texture, and everything else in view has one
    assert_eq!(sprites.len(), game.loaded_ids().len() - 1);
    assert!(sprites.iter().all(|s| s.id != ghost));
    let ids: Vec<hecs::Entity> = sprites.iter().map(|s| s.id).collect();
    let expected: Vec<hecs::Entity> =
        game.loaded_ids().iter().copied().filter(|id| *id != ghost).collect();
    assert_eq!(ids, expected);
    let player = sprites.iter().find(|s| s.id == game.player()).unwrap();
    assert_eq!(player.texture, "player");
    assert_eq!(player.rect, ScreenRect { x: 380, y: 280, width: 40, height: 40 });
    assert!(player.transform.is_none());
    let tree = sprites.last().unwrap();
    assert_eq!(tree.texture, "tree");
    assert_eq!(tree.transform.unwrap().scale, 200);
    assert_eq!(tree.rect, ScreenRect { x: 460, y: 320, width: 40, height: 40 });
    let tile = &sprites[0];
    assert_eq!(tile.texture, "grass");
    assert_eq!(tile.transform.unwrap().scale, 100);
    // nothing is selected yet
    assert_eq!(game.selection_rect(), None);
    assert_eq!(game.update_player((470, 330), false), Ok(()));
    assert_eq!(game.selection_rect(), Some(tree.rect));
}

#[test]
fn reference_entity_at_the_edge_of_the_world_has_no_neighbourhood() {
    let mut game = Game::new();
    let mut c = no_components();
    c.position = Some(Position::free(i64::MAX, 0));
    let id = game.spawn("test_tile", c).unwrap();
    game.set_player(id);
    assert_eq!(game.update_loaded(true), Err(GameError::AtEdge));
    assert!(game.chunks().is_empty());
    assert!(game.loaded_ids().is_empty());
    assert_eq!(game.player_chunk(), ChunkPos::new(0, 0));
    let mut c = no_components();
    c.position = Some(Position::tile(ChunkPos::new(0, i32::MIN), 0, 0));
    let id = game.spawn("test_tile", c).unwrap();
    game.set_player(id);
    assert_eq!(game.update_loaded(true), Err(GameError::AtEdge));
    let mut c = no_components();
    c.position = Some(Position::tile(ChunkPos::new(i32::MAX - 1, i32::MIN + 1), 0, 0));
    let id = game.spawn("test_tile", c).unwrap();
    game.set_player(id);
    assert_eq!(game.update_loaded(true), Ok(()));
    assert_eq!(game.chunks().len(), 9);
    assert_eq!(game.chunks()[8], ChunkPos::new(i32::MAX, i32::MIN + 2));
}

#[test]
fn errors_say_what_went_wrong() {
    use_messages();
}

fn use_messages() {
    let all = [
        GameError::Init(minefred::gameobjtype::InitError::MissingPosition),
        GameError::StoreFull,
        GameError::NoReference,
        GameError::NoPosition,
        GameError::NoPlayer,
        GameError::AtEdge,
    ];
    let texts: Vec<&str> = all.iter().map(|e| e.message()).collect();
    assert_eq!(texts[0], "no position component");
    assert_eq!(texts[1], "too many entities");
    assert!(texts.iter().all(|t| !t.is_empty()));
}

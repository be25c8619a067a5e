use minefred::components::ChunkPos;
use minefred::components::Position;

#[test]
fn tile_coordinates_follow_chunk_and_cell() {
    let p = Position::tile(ChunkPos::new(2, -3), 5, 7);
    assert_eq!(p.x(), (2 * 16 + 5) * 1000);
    assert_eq!(p.y(), (-3 * 16 + 7) * 1000);
    assert_eq!(p.chunk(), ChunkPos::new(2, -3));
}

#[test]
fn tile_coordinates_at_the_ends_of_the_range() {
    let p = Position::tile(ChunkPos::new(i32::MAX, i32::MIN), 15, 0);
    assert_eq!(p.x(), (2147483647i64 * 16 + 15) * 1000);
    assert_eq!(p.y(), -2147483648i64 * 16 * 1000);
}

#[test]
fn tiles_do_not_move() {
    let mut p = Position::tile(ChunkPos::new(1, 1), 3, 4);
    let before = p;
    p.move_x(12345);
    p.move_y(-999);
    assert_eq!(p, before);
    assert_eq!(p.x(), 19000);
    assert_eq!(p.y(), 20000);
}

#[test]
fn free_positions_move() {
    let mut p = Position::free(100, 200);
    p.move_x(50);
    p.move_y(-300);
    assert_eq!(p, Position::Free { x: 150, y: -100, top: false });
    assert_eq!(p.x(), 150);
    assert_eq!(p.y(), -100);
}

#[test]
fn free_positions_stop_at_the_ends_of_the_range() {
    let mut p = Position::free(i64::MAX - 1, i64::MIN + 1);
    p.move_x(5);
    p.move_y(-5);
    assert_eq!(p.x(), i64::MAX);
    assert_eq!(p.y(), i64::MIN);
}

#[test]
fn chunk_of_a_free_position_rounds_down() {
    assert_eq!(Position::free(0, 0).chunk(), ChunkPos::new(0, 0));
    assert_eq!(Position::free(15999, 16000).chunk(), ChunkPos::new(0, 1));
    assert_eq!(Position::free(-1, -16000).chunk(), ChunkPos::new(-1, -1));
    assert_eq!(Position::free(-16001, 31999).chunk(), ChunkPos::new(-2, 1));
}

#[test]
fn chunk_of_a_far_free_position_is_limited() {
    assert_eq!(
        Position::free(i64::MAX, i64::MIN).chunk(),
        ChunkPos::new(i32::MAX, i32::MIN)
    );
}

#[test]
fn order_tells_the_four_layers_apart() {
    let mut tile = Position::tile(ChunkPos::new(0, 0), 0, 0);
    let mut free = Position::free(0, 0);
    assert_eq!(tile.order(), 0);
    assert_eq!(free.order(), 1);
    tile.top();
    free.top();
    assert_eq!(tile.order(), 3);
    assert_eq!(free.order(), 4);
    assert!(free.is_free());
    assert!(!free.is_tile());
    assert!(tile.is_tile());
    assert!(!tile.is_free());
}

#[test]
fn top_can_be_chained() {
    let mut p = Position::free(1, 2);
    p.top().move_x(10);
    assert_eq!(p, Position::Free { x: 11, y: 2, top: true });
}

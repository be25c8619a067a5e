use minefred::components::Direction;
use minefred::components::Inventory;
use minefred::components::Player;
use minefred::components::TextureTransform;
use minefred::event::Action;
use minefred::event::ActionHandler;
use minefred::event::ActionState;
use minefred::event::ActionUpdates;
use minefred::event::Button;
use minefred::game::render::ScreenRect;
use minefred::random::below;
use minefred::ui::element::Orientation;
use minefred::utils::Counter;
use minefred::utils::KeyedSlice;
use minefred::utils::KeyedSliceBuilder;

#[test]
fn counter_fires_first_and_then_every_period() {
    let mut c = Counter::new(3);
    let fired: Vec<bool> = (0..9).map(|_| c.count()).collect();
    assert_eq!(fired, vec![true, false, false, false, true, false, false, false, true]);
    let mut always = Counter::new(0);
    assert!(always.count());
    assert!(always.count());
    let mut long = Counter::new(255);
    assert!(long.count());
    for _ in 0..255 {
        assert!(!long.count());
    }
    assert!(long.count());
}

#[test]
fn inventory_stacks_kinds_and_fills_empty_slots() {
    let mut inv = Inventory::new(3);
    assert_eq!(inv.items.len(), 3);
    assert!(inv.items.iter().all(|i| i.is_none()));
    inv.try_receive("wood", 2);
    inv.try_receive("stone", 1);
    inv.try_receive("wood", 5);
    let held: Vec<Option<(&str, u8)>> = inv.items.iter().map(|i| i.map(|i| (i.key, i.amount))).collect();
    assert_eq!(held, vec![Some(("wood", 7)), Some(("stone", 1)), None]);
    inv.try_receive("sand", 9);
    inv.try_receive("clay", 4);
    let held: Vec<Option<(&str, u8)>> = inv.items.iter().map(|i| i.map(|i| (i.key, i.amount))).collect();
    assert_eq!(held, vec![Some(("wood", 7)), Some(("stone", 1)), Some(("sand", 9))]);
    inv.try_receive("wood", 248);
    assert_eq!(inv.items[0].unwrap().amount, 255);
    let mut none = Inventory::new(0);
    none.try_receive("wood", 1);
    assert!(none.items.is_empty());
}

#[test]
fn keyed_slice_finds_items_by_place_and_by_key() {
    let mut builder = KeyedSliceBuilder::new();
    assert_eq!(builder.add(10), 0);
    assert_eq!(builder.add_as(20, "twenty"), 1);
    assert_eq!(builder.add_as(30, "thirty"), 2);
    assert_eq!(builder.add_as(40, "twenty"), 3);
    let mut slice = builder.build();
    assert_eq!(slice.by_id(0), Some(&10));
    assert_eq!(slice.by_id(3), Some(&40));
    assert_eq!(slice.by_id(4), None);
    assert_eq!(slice.by_key("thirty"), Some(&30));
    assert_eq!(slice.by_key("twenty"), Some(&40));
    assert_eq!(slice.by_key("ten"), None);
    *slice.by_id_mut(1).unwrap() = 21;
    *slice.by_key_mut("thirty").unwrap() += 1;
    assert!(slice.by_id_mut(9).is_none());
    assert!(slice.by_key_mut("none").is_none());
    assert_eq!(slice.arr, vec![10, 21, 31, 40]);
    let empty: KeyedSlice<u8> = KeyedSlice::empty();
    assert_eq!(empty.by_id(0), None);
    assert_eq!(empty.by_key("a"), None);
}

#[test]
fn action_state_keeps_prolonged_actions_and_drops_momentary_ones() {
    let act = |key: &'static str, prolonged: bool| Action { label: key, key, prolonged, local: false };
    let handler = ActionHandler::new(&vec![
        (Button::Key(1), act("walk", true)),
        (Button::Key(2), act("jump", false)),
        (Button::Mouse(1), act("aim", true)),
        (Button::Key(1), act("stride", true)),
    ]);
    assert_eq!(handler.find(Button::Key(2)), Some(1));
    assert_eq!(handler.find(Button::Mouse(1)), Some(2));
    // the later binding of a button counts
    assert_eq!(handler.find(Button::Key(1)), Some(3));
    assert_eq!(handler.find(Button::Mouse(2)), None);

    let mut state = ActionState::new();
    assert!(!state.key("jump"));
    let mut updates = ActionUpdates::new();
    updates.register_event(&handler, Button::Key(2), true);
    updates.register_event(&handler, Button::Mouse(1), true);
    updates.register_event(&handler, Button::Key(9), true);
    state.update(&handler, &updates);
    assert!(state.key("jump"));
    assert!(state.key("aim"));
    assert!(!state.key("walk"));

    updates.clear();
    // the release of a momentary action is not noted
    updates.register_event(&handler, Button::Key(2), false);
    state.update(&handler, &updates);
    assert!(!state.key("jump"));
    assert!(state.key("aim"));

    updates.clear();
    updates.register_event(&handler, Button::Key(1), true);
    updates.register_event(&handler, Button::Mouse(1), false);
    state.update(&handler, &updates);
    assert!(state.key("stride"));
    assert!(!state.key("aim"));

    updates.clear();
    // pressed and released in one frame: the release wins
    updates.register_event(&handler, Button::Mouse(1), true);
    updates.register_event(&handler, Button::Mouse(1), false);
    state.update(&handler, &updates);
    assert!(!state.key("aim"));
    assert!(state.key("stride"));
}

#[test]
fn new_player_has_nothing_selected_and_no_action() {
    let p = Player::new();
    assert_eq!(p.selected, None);
    assert!(!p.action_state.key("run"));
}

#[test]
fn directions_count_clockwise_in_quarter_turns() {
    assert_eq!(Direction::from_index(0), Direction::Twelve);
    assert_eq!(Direction::from_index(1), Direction::Three);
    assert_eq!(Direction::from_index(2), Direction::Six);
    assert_eq!(Direction::from_index(3), Direction::Nine);
    assert_eq!(Direction::from_index(4), Direction::Nine);
    let degrees: Vec<u16> = (0..4).map(|n| Direction::from_index(n).degrees()).collect();
    assert_eq!(degrees, vec![0, 90, 180, 270]);
}

#[test]
fn texture_transform_keeps_its_scale_when_turned() {
    let t = TextureTransform::new();
    assert_eq!(t, TextureTransform { direction: Direction::Twelve, scale: 100 });
    let t = t.scale(250);
    assert_eq!(t.scale, 250);
    for _ in 0..50 {
        assert_eq!(t.random_direction().scale, 250);
    }
}

#[test]
fn random_numbers_stay_below_their_bound() {
    assert_eq!(below(0), None);
    assert_eq!(below(1), Some(0));
    for _ in 0..200 {
        assert!(below(4).unwrap() < 4);
    }
    let mut seen = [false; 4];
    for _ in 0..400 {
        seen[below(4).unwrap() as usize] = true;
    }
    assert_eq!(seen, [true; 4]);
}

#[test]
fn orientation_has_an_opposite() {
    assert_eq!(Orientation::Horizontal.opposite(), Orientation::Vertical);
    assert_eq!(Orientation::Vertical.opposite(), Orientation::Horizontal);
}

#[test]
fn texture_is_scaled_around_the_middle_of_its_tile() {
    let tile = ScreenRect { x: 100, y: 200, width: 40, height: 40 };
    assert_eq!(TextureTransform::new().frame(tile), tile);
    assert_eq!(
        TextureTransform::new().scale(200).frame(tile),
        ScreenRect { x: 80, y: 180, width: 80, height: 80 }
    );
    assert_eq!(
        TextureTransform::new().scale(50).frame(ScreenRect { x: 0, y: 0, width: 41, height: 7 }),
        ScreenRect { x: 10, y: 2, width: 20, height: 3 }
    );
    assert_eq!(
        TextureTransform::new().scale(0).frame(tile),
        ScreenRect { x: 120, y: 220, width: 1, height: 1 }
    );
    assert_eq!(
        TextureTransform::new().scale(u32::MAX).frame(ScreenRect {
            x: i32::MAX,
            y: i32::MIN,
            width: u32::MAX,
            height: 2
        }),
        ScreenRect { x: 536870912, y: -1073741824, width: 1073741823, height: 85899345 }
    );
}

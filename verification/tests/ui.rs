use minefred::game::render::ScreenRect;
use minefred::ui::element::Margin;
use minefred::ui::element::Orientation;
use minefred::ui::element::Positioning;
use minefred::ui::element::RectElement;
use minefred::ui::element::SpaceEvenlyArgs;
use minefred::ui::tui::RenderedFont;
use minefred::ui::tui::TUIDrawer;
use minefred::ui::UIHandler;
use minefred::ui::UIRect;

fn frame(e: &RectElement) -> (i16, i16, i16, i16) {
    (e.x, e.y, e.width, e.height)
}

#[test]
fn margins_are_made_in_four_ways() {
    assert_eq!(Margin::new(1, 2, 3, 4), Margin { top: 1, bottom: 2, left: 3, right: 4 });
    assert_eq!(Margin::none(), Margin { top: 0, bottom: 0, left: 0, right: 0 });
    assert_eq!(Margin::sides(5, 7), Margin { top: 7, bottom: 7, left: 5, right: 5 });
    assert_eq!(Margin::even(9), Margin { top: 9, bottom: 9, left: 9, right: 9 });
    let m = Margin::new(1, 2, 30, 40);
    assert_eq!(m.sum_from_orientation(Orientation::Horizontal), 70);
    assert_eq!(m.sum_from_orientation(Orientation::Vertical), 3);
}

#[test]
fn points_are_measured_from_a_corner_or_the_centre() {
    let mut e = RectElement::screen(200, 100);
    e.x = 10;
    e.y = 20;
    assert_eq!(e.new_point(3, 4, Positioning::TopLeft), (13, 24));
    assert_eq!(e.new_point(3, 4, Positioning::TopRight), (207, 24));
    assert_eq!(e.new_point(3, 4, Positioning::BottomLeft), (13, 116));
    assert_eq!(e.new_point(3, 4, Positioning::BottomRight), (207, 116));
    assert_eq!(e.new_point(3, 4, Positioning::Center), (113, 74));
    assert_eq!(e.new_point(-3, -4, Positioning::Center), (107, 66));
    assert_eq!(e.size_from_orientation(Orientation::Horizontal), 200);
    assert_eq!(e.size_from_orientation(Orientation::Vertical), 100);
}

#[test]
fn square_between_two_points_has_their_vertical_distance_as_its_side() {
    assert_eq!(frame(&RectElement::from_points((5, 9), (2, 3))), (2, 3, 6, 6));
    assert_eq!(frame(&RectElement::from_points((2, 3), (5, 9))), (2, 3, 6, 6));
    assert_eq!(frame(&RectElement::from_points((-5, 7), (8, 7))), (-5, 7, 0, 0));
    assert_eq!(frame(&RectElement::empty()), (0, 0, 0, 0));
    assert!(RectElement::empty().children.is_none());
}

#[test]
fn rectangles_are_placed_by_their_nearest_corner() {
    let mut e = RectElement::screen(200, 100);
    e.x = 10;
    e.y = 20;
    assert_eq!(frame(&e.new_rect(3, 4, 50, 60, Positioning::TopLeft)), (13, 24, 50, 60));
    assert_eq!(frame(&e.new_rect(3, 4, 50, 60, Positioning::TopRight)), (157, 24, 50, 60));
    assert_eq!(frame(&e.new_rect(3, 4, 50, 60, Positioning::BottomLeft)), (13, 56, 50, 60));
    assert_eq!(frame(&e.new_rect(3, 4, 50, 60, Positioning::BottomRight)), (157, 56, 50, 60));
    assert_eq!(frame(&e.new_rect(0, 0, 50, 60, Positioning::Center)), (85, 40, 50, 60));
    assert_eq!(frame(&e.new_rect(0, 0, 51, 61, Positioning::Center)), (85, 40, 51, 61));
    assert_eq!(frame(&e.new_rect(3, 4, -50, -60, Positioning::TopLeft)), (-37, -36, -50, -60));
}

#[test]
fn element_gives_its_rectangle_and_finds_the_mouse() {
    let mut e = RectElement::screen(200, 100);
    e.x = 10;
    e.y = 20;
    assert_eq!(e.rect(), ScreenRect { x: 10, y: 20, width: 200, height: 100 });
    e.width = -1;
    assert_eq!(e.rect().width, 4294967295);
    e.width = 200;
    let over = e.check(10, 119);
    assert!(over.hovered);
    assert_eq!((over.x, over.y), (0, 99));
    assert!(!e.check(210, 50).hovered);
    assert!(!e.check(9, 50).hovered);
    assert!(!e.check(50, 120).hovered);
    let off = e.check(0, 0);
    assert_eq!((off.hovered, off.x, off.y), (false, -10, -20));
}

#[test]
fn elements_of_a_given_size_share_the_room_between_them() {
    let e = RectElement::screen(300, 100);
    let row = e.space_evenly(SpaceEvenlyArgs {
        count: 3,
        margin: Margin::new(5, 5, 10, 10),
        size: Some(40),
        spacing: None,
        orientation: Orientation::Horizontal,
    });
    // 280 pixels between the margins: an element every 120 pixels
    let frames: Vec<(i16, i16, i16, i16)> = row.iter().map(frame).collect();
    assert_eq!(frames, vec![(10, 5, 40, 90), (130, 5, 40, 90), (250, 5, 40, 90)]);
}

#[test]
fn elements_with_a_given_spacing_fill_the_room() {
    let mut e = RectElement::screen(100, 320);
    e.x = 7;
    e.y = 9;
    let column = e.space_evenly(SpaceEvenlyArgs {
        count: 3,
        margin: Margin::even(10),
        size: None,
        spacing: Some(15),
        orientation: Orientation::Vertical,
    });
    // 300 pixels and two gaps of 15: a step of 105 and a height of 90
    let frames: Vec<(i16, i16, i16, i16)> = column.iter().map(frame).collect();
    assert_eq!(frames, vec![(17, 19, 80, 90), (17, 124, 80, 90), (17, 229, 80, 90)]);
}

#[test]
fn elements_with_size_and_spacing_are_centred() {
    let e = RectElement::screen(300, 100);
    let row = e.space_evenly(SpaceEvenlyArgs {
        count: 2,
        margin: Margin::new(0, 0, 10, 10),
        size: Some(40),
        spacing: Some(20),
        orientation: Orientation::Horizontal,
    });
    // the two elements and their gap take 100 pixels around the middle;
    // the left margin is taken off once and added once
    let frames: Vec<(i16, i16, i16, i16)> = row.iter().map(frame).collect();
    assert_eq!(frames, vec![(100, 0, 40, 100), (160, 0, 40, 100)]);
    let none = e.space_evenly(SpaceEvenlyArgs {
        count: 0,
        margin: Margin::none(),
        size: Some(1),
        spacing: Some(1),
        orientation: Orientation::Vertical,
    });
    assert!(none.is_empty());
}

#[test]
fn interface_rectangle_is_a_share_of_the_screen() {
    let r = UIRect::centered();
    assert_eq!(r, UIRect { x: 250, y: 250, width: 500, height: 500, visible: false });
    assert_eq!(r.to_rect((800, 600)), ScreenRect { x: 200, y: 150, width: 400, height: 300 });
    assert_eq!(r.to_rect((3, 3)), ScreenRect { x: 0, y: 0, width: 1, height: 1 });
    assert_eq!(r.to_rect((0, 0)), ScreenRect { x: 0, y: 0, width: 1, height: 1 });
    let odd = UIRect { x: -100, y: 2000, width: -500, height: 1, visible: true };
    assert_eq!(odd.to_rect((810, 600)), ScreenRect { x: -81, y: 1200, width: 1, height: 1 });
    let huge = UIRect { x: i32::MAX, y: i32::MIN, width: i32::MAX, height: i32::MAX, visible: true };
    assert_eq!(
        huge.to_rect((i32::MAX, i32::MAX)),
        ScreenRect { x: 1073741823, y: -1073741824, width: 1073741823, height: 1073741823 }
    );
}

#[test]
fn handler_keeps_rectangles_by_key_and_finds_the_mouse_over_visible_ones() {
    let mut ui = UIHandler::new();
    assert_eq!(ui.get("inventory"), None);
    assert!(ui.get_mut("inventory").is_none());
    ui.add("inventory");
    ui.add("map");
    assert_eq!(ui.get("inventory"), Some(&UIRect::centered()));
    // hidden rectangles do not catch the mouse
    assert!(!ui.update((400, 300), (800, 600)));
    ui.get_mut("map").unwrap().visible = true;
    ui.get_mut("map").unwrap().x = 0;
    assert!(ui.get("map").unwrap().visible);
    assert!(!ui.get("inventory").unwrap().visible);
    assert!(ui.update((0, 150), (800, 600)));
    assert!(ui.update((399, 449), (800, 600)));
    assert!(!ui.update((400, 300), (800, 600)));
    assert!(!ui.update((0, 149), (800, 600)));
    // adding a key again starts its rectangle over
    ui.add("map");
    assert_eq!(ui.get("map"), Some(&UIRect::centered()));
    assert!(!ui.update((0, 150), (800, 600)));
    let mut r = UIRect::centered();
    assert!(r.update((200, 150), (800, 600)));
    assert!(!r.update((600, 150), (800, 600)));
    assert_eq!(r, UIRect::centered());
}

#[test]
fn font_measures_pixels_in_characters() {
    assert_eq!(RenderedFont::empty().char_size, (0, 0));
    let font = RenderedFont { char_size: (9, 17) };
    assert_eq!(font.px_to_ch_x(100), 11);
    assert_eq!(font.px_to_ch_y(100), 5);
    assert_eq!(font.ch_to_px_x(11), 99);
    assert_eq!(font.ch_to_px_y(5), 85);
}

#[test]
fn drawer_fills_whole_characters_and_writes_line_by_line() {
    let font = RenderedFont { char_size: (9, 17) };
    let mut drawer = TUIDrawer::new(ScreenRect { x: 200, y: 150, width: 400, height: 300 });
    assert_eq!((drawer.x, drawer.y, drawer.fg), (0, 0, (255, 255, 255)));
    assert_eq!(drawer.fill_bg(&font), ScreenRect { x: 200, y: 150, width: 396, height: 289 });
    let glyphs = drawer.text_at(&font, 2, 1, "ab\ncä\n");
    let drawn: Vec<(&str, i32, i32)> = glyphs.iter().map(|g| (g.ch.as_str(), g.x, g.y)).collect();
    assert_eq!(
        drawn,
        vec![
            ("a", 218, 167),
            ("b", 227, 167),
            ("\n", 236, 167),
            ("c", 218, 184),
            ("ä", 227, 184),
            ("\n", 236, 184),
        ]
    );
    assert_eq!((drawer.x, drawer.y), (2, 3));
    // a combining mark stays with its letter, and a flag is one cluster
    let glyphs = drawer.text_at(&font, 0, 0, "e\u{301}x\u{1F1F8}\u{1F1EA}y");
    let drawn: Vec<(&str, i32)> = glyphs.iter().map(|g| (g.ch.as_str(), g.x)).collect();
    assert_eq!(
        drawn,
        vec![("e\u{301}", 200), ("x", 209), ("\u{1F1F8}\u{1F1EA}", 218), ("y", 227)]
    );
    assert_eq!((drawer.x, drawer.y), (4, 0));
    let none = drawer.text_at(&font, 7, 7, "");
    assert!(none.is_empty());
    assert_eq!((drawer.x, drawer.y), (7, 7));
    let placed = drawer.place(&font, 1, 1, vec!["\n".to_string(), "q".to_string()]);
    assert_eq!((placed[1].ch.as_str(), placed[1].x, placed[1].y), ("q", 209, 184));
}

#[test]
fn drawer_refuses_text_that_leaves_the_range_of_the_screen() {
    let font = RenderedFont { char_size: (9, 17) };
    let mut drawer = TUIDrawer::new(ScreenRect { x: i32::MAX - 20, y: 0, width: 400, height: 300 });
    let clusters = |text: &str| -> Vec<String> { text.chars().map(|c| c.to_string()).collect() };
    // the third column is the last whose pixel is in the range
    assert!(drawer.can_write(&font, 0, 0, &clusters("abc")));
    assert!(!drawer.can_write(&font, 0, 0, &clusters("abcd")));
    // a line feed has a place too, though nothing is drawn for it
    assert!(drawer.can_write(&font, 0, 0, &clusters("ab\nabc")));
    assert!(!drawer.can_write(&font, 0, 0, &clusters("ab\nabc\n")));
    let written = drawer.try_text_at(&font, 0, 0, "ab").unwrap();
    assert_eq!(written.len(), 2);
    assert_eq!((drawer.x, drawer.y), (2, 0));
    assert!(drawer.try_text_at(&font, 0, 0, "abcd").is_none());
    assert_eq!((drawer.x, drawer.y), (2, 0));
    let written = drawer.try_text(&font, "c").unwrap();
    assert_eq!((written[0].x, written[0].y), (i32::MAX - 2, 0));
    assert_eq!((drawer.x, drawer.y), (3, 0));
    assert!(drawer.try_text(&font, "d").is_none());
    assert_eq!((drawer.x, drawer.y), (3, 0));
    let mut plain = TUIDrawer::new(ScreenRect { x: 0, y: 0, width: 400, height: 300 });
    let glyphs = plain.text(&font, "hi");
    assert_eq!(glyphs[1].x, 9);
    let glyphs = plain.text(&font, "!");
    assert_eq!(glyphs[0].x, 18);
    let huge = RenderedFont { char_size: (u32::MAX, 1) };
    assert!(!plain.can_write(&huge, 0, 0, &vec![]));
    assert!(plain.try_text_at(&huge, 0, 0, "").is_none());
}

use vstd::prelude::*;
use crate::components::position::clamp;
use crate::game::render::ScreenRect;
use crate::game::render::truncated;
use crate::utils::strings::str_eq;

verus! {

/// A rectangle of the interface, in thousandths of the width and of the
/// height of the screen.
#[derive(Clone, Copy, Debug, PartialEq, Eq, Structural)]
pub struct UIRect {
    pub x: i32,
    pub y: i32,
    pub width: i32,
    pub height: i32,
    pub visible: bool,
}

/// The rectangles of the interface, by key.
pub struct UIHandler {
    rects: Vec<(&'static str, UIRect)>,
}

/// The part `part`, in thousandths, of `span` pixels, rounded towards zero.
pub open spec fn share(span: int, part: int) -> int {
    truncated(span * part, 1000)
}

/// The rectangle under `key` in `rects`: the first with that key.
pub open spec fn keyed(rects: Seq<(&'static str, UIRect)>, key: Seq<char>) -> Option<UIRect>
    decreases rects.len(),
{
    if rects.len() == 0 {
        None
    } else if rects[0].0@ == key {
        Some(rects[0].1)
    } else {
        keyed(rects.subrange(1, rects.len() as int), key)
    }
}

/// The place at which `key` first stands in `rects`, or the length of
/// `rects`.
pub open spec fn place_of(rects: Seq<(&'static str, UIRect)>, key: Seq<char>) -> int
    decreases rects.len(),
{
    if rects.len() == 0 {
        0
    } else if rects[0].0@ == key {
        0
    } else {
        1 + place_of(rects.subrange(1, rects.len() as int), key)
    }
}

/// The place of a key is where the key first stands, and what stands
/// there is what the key leads to.
pub proof fn lemma_place_of(rects: Seq<(&'static str, UIRect)>, key: Seq<char>)
    ensures
        0 <= place_of(rects, key) <= rects.len(),
        forall|i: int| 0 <= i < place_of(rects, key) ==> (#[trigger] rects[i]).0@ != key,
        place_of(rects, key) < rects.len() ==> rects[place_of(rects, key)].0@ == key && keyed(
            rects,
            key,
        ) == Some(rects[place_of(rects, key)].1),
        place_of(rects, key) == rects.len() ==> keyed(rects, key) is None,
    decreases rects.len(),
{
    if rects.len() > 0 && rects[0].0@ != key {
        let rest = rects.subrange(1, rects.len() as int);
        lemma_place_of(rest, key);
        assert forall|i: int| 0 <= i < place_of(rects, key) implies (#[trigger] rects[i]).0@ != key by {
            if i > 0 {
                assert(rest[i - 1] == rects[i]);
            }
        }
        if place_of(rects, key) < rects.len() {
            assert(rest[place_of(rest, key)] == rects[place_of(rects, key)]);
        }
    }
}

/// A key leads to the same rectangle in two lists that agree up to the
/// place of the key and there.
pub proof fn lemma_keyed_at(rects: Seq<(&'static str, UIRect)>, key: Seq<char>, at: int)
    requires
        0 <= at <= rects.len(),
        forall|i: int| 0 <= i < at ==> (#[trigger] rects[i]).0@ != key,
    ensures
        at < rects.len() && rects[at].0@ == key ==> keyed(rects, key) == Some(rects[at].1),
        at == rects.len() ==> keyed(rects, key) is None,
        at < rects.len() && rects[at].0@ == key ==> place_of(rects, key) == at,
        at == rects.len() ==> place_of(rects, key) == at,
    decreases at,
{
    if at > 0 {
        let rest = rects.subrange(1, rects.len() as int);
        assert(rects[0].0@ != key);
        assert forall|i: int| 0 <= i < at - 1 implies (#[trigger] rest[i]).0@ != key by {
            assert(rest[i] == rects[i + 1]);
        }
        lemma_keyed_at(rest, key, at - 1);
        if at < rects.len() {
            assert(rest[at - 1] == rects[at]);
        }
    }
}

impl UIRect {
    /// The rectangle on a screen of the size `screen_size`.
    pub open spec fn spec_to_rect(&self, screen_size: (i32, i32)) -> ScreenRect {
        ScreenRect::spec_new(
            clamp(share(screen_size.0 as int, self.x as int), i32::MIN as int, i32::MAX as int),
            clamp(share(screen_size.1 as int, self.y as int), i32::MIN as int, i32::MAX as int),
            clamp(share(screen_size.0 as int, self.width as int), 0, u32::MAX as int),
            clamp(share(screen_size.1 as int, self.height as int), 0, u32::MAX as int),
        )
    }

    /// A hidden rectangle in the middle of the screen, half as wide and
    /// half as high as the screen.
    pub fn centered() -> (r: Self)
        ensures
            r == (UIRect { x: 250, y: 250, width: 500, height: 500, visible: false }),
    {
        Self { x: 250, y: 250, width: 500, height: 500, visible: false }
    }

    /// The rectangle on a screen of the size `screen_size`, in pixels.
    pub fn to_rect(&self, screen_size: (i32, i32)) -> (r: ScreenRect)
        ensures
            r == self.spec_to_rect(screen_size),
    {
        ScreenRect::new(
            pixel(screen_size.0, self.x),
            pixel(screen_size.1, self.y),
            extent(screen_size.0, self.width),
            extent(screen_size.1, self.height),
        )
    }

    /// Whether the mouse at `mouse` is over the rectangle.
    pub fn update(&mut self, mouse: (i32, i32), screen_size: (i32, i32)) -> (hovered: bool)
        ensures
            *final(self) == *old(self),
            hovered == old(self).spec_to_rect(screen_size).spec_contains_point(mouse.0, mouse.1),
    {
        self.to_rect(screen_size).contains_point(mouse.0, mouse.1)
    }
}

fn part_of(span: i32, part: i32) -> (r: i64)
    ensures
        r == share(span as int, part as int),
{
    assert(-0x4000_0000_0000_0000 <= span * part <= 0x4000_0000_0000_0000) by (nonlinear_arith)
        requires
            -0x8000_0000 <= span <= 0x7fff_ffff,
            -0x8000_0000 <= part <= 0x7fff_ffff,
    ;
    let product: i64 = span as i64 * part as i64;
    if product >= 0 {
        product / 1000
    } else {
        -((-product) / 1000)
    }
}

fn pixel(span: i32, part: i32) -> (r: i32)
    ensures
        r == clamp(share(span as int, part as int), i32::MIN as int, i32::MAX as int),
{
    let v = part_of(span, part);
    if v < i32::MIN as i64 {
        i32::MIN
    } else if v > i32::MAX as i64 {
        i32::MAX
    } else {
        v as i32
    }
}

fn extent(span: i32, part: i32) -> (r: u32)
    ensures
        r == clamp(share(span as int, part as int), 0, u32::MAX as int),
{
    let v = part_of(span, part);
    if v < 0 {
        0
    } else if v > u32::MAX as i64 {
        u32::MAX
    } else {
        v as u32
    }
}

impl UIHandler {
    /// The rectangles, in the order in which their keys were added.
    pub closed spec fn rects(&self) -> Seq<(&'static str, UIRect)> {
        self.rects@
    }

    /// The rectangle under `key`.
    pub open spec fn spec_get(&self, key: Seq<char>) -> Option<UIRect> {
        keyed(self.rects(), key)
    }

    pub fn new() -> (handler: Self)
        ensures
            handler.rects().len() == 0,
    {
        Self { rects: Vec::new() }
    }

    fn find(&self, key: &str) -> (at: usize)
        ensures
            at == place_of(self.rects(), key@),
            at <= self.rects().len(),
            at < self.rects().len() ==> self.rects()[at as int].0@ == key@ && self.spec_get(key@)
                == Some(self.rects()[at as int].1),
            at == self.rects().len() ==> self.spec_get(key@) is None,
    {
        let mut at: usize = 0;
        while at < self.rects.len()
            invariant
                at <= self.rects@.len(),
                forall|i: int| 0 <= i < at ==> (#[trigger] self.rects@[i]).0@ != key@,
            decreases self.rects@.len() - at,
        {
            if str_eq(self.rects[at].0, key) {
                proof {
                    lemma_keyed_at(self.rects@, key@, at as int);
                }
                return at;
            }
            at += 1;
        }
        proof {
            lemma_keyed_at(self.rects@, key@, at as int);
        }
        at
    }

    /// The rectangle under `key`, if there is one.
    pub fn get(&self, key: &str) -> (rect: Option<&UIRect>)
        ensures
            rect == match self.spec_get(key@) {
                Some(found) => Some(&found),
                None => None,
            },
    {
        let at = self.find(key);
        if at < self.rects.len() {
            Some(&self.rects[at].1)
        } else {
            None
        }
    }

    /// The rectangle under `key`, if there is one, to be changed.
    pub fn get_mut(&mut self, key: &str) -> (rect: Option<&mut UIRect>)
        ensures
            match rect {
                Some(slot) => {
                    let at = place_of(old(self).rects(), key@);
                    &&& old(self).spec_get(key@) == Some(*slot)
                    &&& at < old(self).rects().len()
                    &&& final(self).rects() == old(self).rects().update(
                        at,
                        (old(self).rects()[at].0, *final(slot)),
                    )
                },
                None => old(self).spec_get(key@) is None && final(self).rects() == old(self).rects(),
            },
    {
        let at = self.find(key);
        if at < self.rects.len() {
            Some(&mut self.rects[at].1)
        } else {
            None
        }
    }

    /// Puts a hidden rectangle in the middle of the screen under `key`, in
    /// place of the one that was there, if there was one.
    pub fn add(&mut self, key: &'static str)
        ensures
            final(self).spec_get(key@) == Some(UIRect::centered_rect()),
            forall|other: Seq<char>|
                other != key@ ==> final(self).spec_get(other) == old(self).spec_get(other),
            final(self).rects().len() == if old(self).spec_get(key@) is Some {
                old(self).rects().len()
            } else {
                old(self).rects().len() + 1
            },
    {
        let at = self.find(key);
        let ghost before = self.rects@;
        if at < self.rects.len() {
            self.rects.set(at, (key, UIRect::centered()));
        } else {
            self.rects.push((key, UIRect::centered()));
        }
        proof {
            lemma_place_of(before, key@);
            assert forall|i: int| 0 <= i < at implies (#[trigger] self.rects@[i]).0@ != key@ by {
                assert(self.rects@[i] == before[i]);
            }
            lemma_keyed_at(self.rects@, key@, at as int);
            assert forall|other: Seq<char>| other != key@ implies keyed(self.rects@, other) == keyed(
                before,
                other,
            ) by {
                lemma_place_of(before, other);
                let p = place_of(before, other);
                assert forall|i: int| 0 <= i < p implies (#[trigger] self.rects@[i]).0@ != other by {
                    if i < before.len() {
                        if i != at {
                            assert(self.rects@[i] == before[i]);
                        }
                    }
                }
                if p < before.len() {
                    assert(p != at);
                    assert(self.rects@[p] == before[p]);
                    lemma_keyed_at(self.rects@, other, p);
                } else if at < before.len() {
                    lemma_keyed_at(self.rects@, other, p);
                } else {
                    assert(self.rects@[p].0@ != other);
                    assert forall|i: int| 0 <= i < p + 1 implies (#[trigger] self.rects@[i]).0@
                        != other by {
                        if i < p {
                            assert(self.rects@[i] == before[i]);
                        }
                    }
                    lemma_keyed_at(self.rects@, other, p + 1);
                }
            }
        }
    }

    /// Whether the mouse at `mouse` is over a rectangle that is visible.
    pub open spec fn spec_hovered(&self, mouse: (i32, i32), screen_size: (i32, i32)) -> bool {
        exists|i: int|
            0 <= i < self.rects().len() && (#[trigger] self.rects()[i]).1.visible
                && self.rects()[i].1.spec_to_rect(screen_size).spec_contains_point(mouse.0, mouse.1)
    }

    /// Whether the mouse at `mouse` is over a rectangle that is visible.
    pub fn update(&mut self, mouse: (i32, i32), screen_size: (i32, i32)) -> (hovered: bool)
        ensures
            final(self).rects() == old(self).rects(),
            hovered == old(self).spec_hovered(mouse, screen_size),
    {
        let mut ui_hovered = false;
        let mut i: usize = 0;
        while i < self.rects.len()
            invariant
                i <= self.rects@.len(),
                self.rects@ == old(self).rects@,
                ui_hovered == exists|k: int|
                    0 <= k < i && (#[trigger] self.rects@[k]).1.visible && self.rects@[k].1.spec_to_rect(
                        screen_size,
                    ).spec_contains_point(mouse.0, mouse.1),
            decreases self.rects@.len() - i,
        {
            let rect = self.rects[i].1;
            if rect.visible {
                ui_hovered = ui_hovered || rect.to_rect(screen_size).contains_point(mouse.0, mouse.1);
            }
            i += 1;
        }
        ui_hovered
    }
}

impl UIRect {
    /// The rectangle that `centered` makes.
    pub open spec fn centered_rect() -> UIRect {
        UIRect { x: 250, y: 250, width: 500, height: 500, visible: false }
    }
}

} // verus!

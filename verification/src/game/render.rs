use vstd::prelude::*;
use hecs::Entity;
use crate::components::Position;
use crate::components::position::clamp;
use crate::constants::TILE_UNITS;
use crate::ecs::Components;
use crate::error::GameError;
use crate::components::TextureTransform;
use crate::game::Game;
use crate::gameobjtype::GameObjectType;
use crate::gameobjtype::GameObjectTypes;

verus! {

/// A rectangle of the screen, in pixels.
#[derive(Clone, Copy, Debug, PartialEq, Eq, Structural)]
pub struct ScreenRect {
    pub x: i32,
    pub y: i32,
    pub width: u32,
    pub height: u32,
}

/// The furthest that a rectangle can lie to the right or below.
pub const MAX_RECT_POSITION: i32 = 1073741823;

/// The furthest that a rectangle can lie to the left or above.
pub const MIN_RECT_POSITION: i32 = -1073741824;

/// `v` rounded towards zero to a whole multiple of `unit`, in units.
pub open spec fn truncated(v: int, unit: int) -> int {
    if v >= 0 {
        v / unit
    } else {
        -((-v) / unit)
    }
}

/// The pixels between the coordinate `v` and the origin, at `scale` pixels
/// to the tile.
pub open spec fn pixels(v: int, scale: int) -> int {
    truncated(v * scale, TILE_UNITS as int)
}

/// Where on the screen the coordinate `v` of an entity lies, along one
/// axis, if the reference entity has the coordinate `reference` and the
/// screen is `span` pixels long: for a free position the pixels between the
/// two count from the middle of the screen, and for a tile position the
/// pixels of each count from the origin.
pub open spec fn on_screen(free: bool, v: int, reference: int, scale: int, span: int) -> int {
    if free {
        pixels(v - reference, scale) + truncated(span, 2)
    } else {
        truncated(span, 2) + pixels(v, scale) - pixels(reference, scale)
    }
}

/// The corner of the square of side `scale` around the place `at`, as far
/// as rectangles go.
pub open spec fn corner(at: int, scale: int) -> int {
    clamp(at - scale / 2, MIN_RECT_POSITION as int, MAX_RECT_POSITION as int)
}

/// The rectangle in which an entity at `position` is drawn.
pub open spec fn spec_rect(
    position: Position,
    reference: Position,
    scale: u32,
    screen: (i32, i32),
) -> ScreenRect {
    ScreenRect {
        x: corner(
            on_screen(
                position.spec_is_free(),
                position.spec_x(),
                reference.spec_x(),
                scale as int,
                screen.0 as int,
            ),
            scale as int,
        ) as i32,
        y: corner(
            on_screen(
                position.spec_is_free(),
                position.spec_y(),
                reference.spec_y(),
                scale as int,
                screen.1 as int,
            ),
            scale as int,
        ) as i32,
        width: scale,
        height: scale,
    }
}

fn truncate(v: i128, unit: i128) -> (r: i128)
    requires
        unit > 0,
        -0x4000_0000_0000_0000_0000_0000_0000_0000 < v < 0x4000_0000_0000_0000_0000_0000_0000_0000,
    ensures
        r == truncated(v as int, unit as int),
        v >= 0 ==> 0 <= r <= v,
        v < 0 ==> v <= r <= 0,
{
    if v >= 0 {
        let q = v / unit;
        assert(0 <= v as int / unit as int <= v) by (nonlinear_arith)
            requires
                v >= 0,
                unit > 0,
        ;
        q
    } else {
        assert(0 <= (-(v as int)) / unit as int <= -(v as int)) by (nonlinear_arith)
            requires
                v < 0,
                unit > 0,
        ;
        let q = (-v) / unit;
        -q
    }
}

/// A distance of coordinates at up to 70 pixels to the tile stays far
/// inside the range of the numbers that it is computed with.
proof fn lemma_scaled(v: int, scale: int)
    requires
        -0x1_0000_0000_0000_0000 <= v <= 0x1_0000_0000_0000_0000,
        0 <= scale <= 70,
    ensures
        -0x80_0000_0000_0000_0000 <= v * scale <= 0x80_0000_0000_0000_0000,
{
    assert(-0x80_0000_0000_0000_0000 <= v * scale <= 0x80_0000_0000_0000_0000) by (nonlinear_arith)
        requires
            -0x1_0000_0000_0000_0000 <= v <= 0x1_0000_0000_0000_0000,
            0 <= scale <= 70,
    ;
}

fn axis(free: bool, v: i64, reference: i64, scale: u32, span: i32) -> (r: i32)
    requires
        scale <= 70,
    ensures
        r == corner(on_screen(free, v as int, reference as int, scale as int, span as int), scale as int),
{
    let half = truncate(span as i128, 2);
    proof {
        lemma_scaled(v as int - reference as int, scale as int);
        lemma_scaled(v as int, scale as int);
        lemma_scaled(reference as int, scale as int);
    }
    let at: i128 = if free {
        let d = (v as i128 - reference as i128) * scale as i128;
        truncate(d, TILE_UNITS as i128) + half
    } else {
        let own = truncate(v as i128 * scale as i128, TILE_UNITS as i128);
        let other = truncate(reference as i128 * scale as i128, TILE_UNITS as i128);
        half + own - other
    };
    let c = at - (scale / 2) as i128;
    if c < MIN_RECT_POSITION as i128 {
        MIN_RECT_POSITION
    } else if c > MAX_RECT_POSITION as i128 {
        MAX_RECT_POSITION
    } else {
        c as i32
    }
}

/// The largest size that a rectangle can have.
pub const MAX_RECT_SIZE: u32 = 1073741823;

impl ScreenRect {
    /// The rectangle at `(x, y)` with the given size, as far as rectangles
    /// go: the position is kept within half of the range of its numbers and
    /// the size between 1 and half of that range, so that no edge lies
    /// beyond the range.
    pub open spec fn spec_new(x: int, y: int, width: int, height: int) -> ScreenRect {
        ScreenRect {
            x: clamp(x, MIN_RECT_POSITION as int, MAX_RECT_POSITION as int) as i32,
            y: clamp(y, MIN_RECT_POSITION as int, MAX_RECT_POSITION as int) as i32,
            width: clamp(width, 1, MAX_RECT_SIZE as int) as u32,
            height: clamp(height, 1, MAX_RECT_SIZE as int) as u32,
        }
    }

    pub fn new(x: i32, y: i32, width: u32, height: u32) -> (r: Self)
        ensures
            r == Self::spec_new(x as int, y as int, width as int, height as int),
    {
        Self {
            x: if x > MAX_RECT_POSITION {
                MAX_RECT_POSITION
            } else if x < MIN_RECT_POSITION {
                MIN_RECT_POSITION
            } else {
                x
            },
            y: if y > MAX_RECT_POSITION {
                MAX_RECT_POSITION
            } else if y < MIN_RECT_POSITION {
                MIN_RECT_POSITION
            } else {
                y
            },
            width: if width == 0 {
                1
            } else if width > MAX_RECT_SIZE {
                MAX_RECT_SIZE
            } else {
                width
            },
            height: if height == 0 {
                1
            } else if height > MAX_RECT_SIZE {
                MAX_RECT_SIZE
            } else {
                height
            },
        }
    }

    /// Whether the point `(x, y)` lies in the rectangle: on its left or
    /// upper edge or inside, and not on its right or lower edge.
    pub open spec fn spec_contains_point(&self, x: i32, y: i32) -> bool {
        self.x <= x < self.x + self.width && self.y <= y < self.y + self.height
    }

    pub fn contains_point(&self, x: i32, y: i32) -> (inside: bool)
        ensures
            inside == self.spec_contains_point(x, y),
    {
        x >= self.x && (x as i64) < self.x as i64 + self.width as i64 && y >= self.y && (y as i64)
            < self.y as i64 + self.height as i64
    }
}

/// The position of the entity `id` in `world`, if it is there and has one.
pub open spec fn position_in(world: Map<Entity, Components>, id: Entity) -> Option<Position> {
    if world.contains_key(id) {
        world[id].position
    } else {
        None
    }
}

/// The rectangle in which the entity `id` of `world` is drawn, if it and
/// the reference entity have a position.
pub open spec fn rect_in(
    world: Map<Entity, Components>,
    reference: Entity,
    scale: u32,
    screen: (i32, i32),
    id: Entity,
) -> Option<ScreenRect> {
    if position_in(world, id) is Some && position_in(world, reference) is Some {
        Some(spec_rect(position_in(world, id)->0, position_in(world, reference)->0, scale, screen))
    } else {
        None
    }
}

/// What the renderer needs to draw an entity: the rectangle of the entity
/// on the screen, the key of its texture, and how the texture is turned
/// and scaled, if it is.
#[derive(Clone, Copy, Debug)]
pub struct Sprite {
    pub id: Entity,
    pub rect: ScreenRect,
    pub texture: &'static str,
    pub transform: Option<TextureTransform>,
}

/// The object type of the entity `id` of `world`, if the entity has the
/// marker of one that the registry knows.
pub open spec fn type_in(world: Map<Entity, Components>, registry: GameObjectTypes, id: Entity) -> Option<
    GameObjectType,
> {
    if world.contains_key(id) && world[id].object_type is Some && world[id].object_type->0.id
        < registry.types().len() {
        Some(registry.types()[world[id].object_type->0.id as int])
    } else {
        None
    }
}

/// The sprite of the entity `id` of `world`, if the entity has a place on
/// the screen and its type has a texture.
pub open spec fn sprite_in(
    world: Map<Entity, Components>,
    registry: GameObjectTypes,
    reference: Entity,
    scale: u32,
    screen: (i32, i32),
    id: Entity,
) -> Option<Sprite> {
    let rect = rect_in(world, reference, scale, screen, id);
    let object_type = type_in(world, registry, id);
    if rect is Some && object_type is Some && object_type->0.texture is Some {
        Some(
            Sprite {
                id,
                rect: rect->0,
                texture: object_type->0.texture->0,
                transform: world[id].texture,
            },
        )
    } else {
        None
    }
}

/// The sprites of those of the entities `ids` that have one, in the order
/// of `ids`.
pub open spec fn spec_sprites(
    ids: Seq<Entity>,
    world: Map<Entity, Components>,
    registry: GameObjectTypes,
    reference: Entity,
    scale: u32,
    screen: (i32, i32),
) -> Seq<Sprite>
    decreases ids.len(),
{
    if ids.len() == 0 {
        Seq::empty()
    } else {
        let earlier = spec_sprites(ids.drop_last(), world, registry, reference, scale, screen);
        match sprite_in(world, registry, reference, scale, screen, ids.last()) {
            Some(sprite) => earlier.push(sprite),
            None => earlier,
        }
    }
}

impl Game {
    /// The object type of the entity `id`, if the entity has the marker of
    /// one that the registry knows.
    pub fn get_gameobjtype(&self, id: Entity) -> (object_type: Option<GameObjectType>)
        requires
            self.wf(),
        ensures
            object_type == type_in(self.world(), self.registry(), id),
    {
        match self.components_of(id) {
            Some(components) => match components.object_type {
                Some(marker) => if self.types().has_id(marker.id) {
                    Some(*self.types().from_id(marker.id))
                } else {
                    None
                },
                None => None,
            },
            None => None,
        }
    }

    /// What is to be drawn this frame: the sprite of each entity in view
    /// that has one, in the order of drawing.
    pub fn sprites(&self) -> (sprites: Vec<Sprite>)
        requires
            self.wf(),
        ensures
            sprites@ == spec_sprites(
                self.loaded(),
                self.world(),
                self.registry(),
                self.reference(),
                self.scale(),
                self.screen(),
            ),
    {
        let ids = self.loaded_ids();
        let mut sprites: Vec<Sprite> = Vec::new();
        let mut i: usize = 0;
        proof {
            assert(ids@.take(0) =~= Seq::<Entity>::empty());
        }
        while i < ids.len()
            invariant
                i <= ids@.len(),
                self.wf(),
                ids@ == self.loaded(),
                sprites@ == spec_sprites(
                    ids@.take(i as int),
                    self.world(),
                    self.registry(),
                    self.reference(),
                    self.scale(),
                    self.screen(),
                ),
            decreases ids@.len() - i,
        {
            let id = ids[i];
            proof {
                assert(ids@.take(i + 1).drop_last() =~= ids@.take(i as int));
                assert(ids@.take(i + 1).last() == id);
            }
            match self.get_sdl_rect(id) {
                Ok(rect) => match self.get_gameobjtype(id) {
                    Some(object_type) => match object_type.texture {
                        Some(texture) => {
                            let transform = match self.components_of(id) {
                                Some(components) => components.texture,
                                None => None,
                            };
                            sprites.push(Sprite { id, rect, texture, transform });
                        },
                        None => {},
                    },
                    None => {},
                },
                Err(_) => {},
            }
            i += 1;
        }
        proof {
            assert(ids@.take(i as int) =~= ids@);
        }
        sprites
    }

    /// The entity that the reference entity has selected, if it is a player
    /// and has selected one.
    pub open spec fn spec_selected(&self) -> Option<Entity> {
        let id = self.reference();
        if self.world().contains_key(id) && self.world()[id].player is Some {
            self.world()[id].player->0.selected
        } else {
            None
        }
    }

    /// The rectangle of the entity that the reference entity, a player, has
    /// selected, if there is one and it has a place on the screen.
    pub fn selection_rect(&self) -> (rect: Option<ScreenRect>)
        requires
            self.wf(),
        ensures
            rect == match self.spec_selected() {
                Some(id) => self.spec_sdl_rect(id),
                None => None,
            },
    {
        let selected = match self.components_of(self.player()) {
            Some(components) => match components.player {
                Some(player) => player.selected,
                None => None,
            },
            None => None,
        };
        match selected {
            Some(id) => match self.get_sdl_rect(id) {
                Ok(rect) => Some(rect),
                Err(_) => None,
            },
            None => None,
        }
    }

    /// The rectangle in which the entity `id` is drawn, if it and the
    /// reference entity have a position.
    pub open spec fn spec_sdl_rect(&self, id: Entity) -> Option<ScreenRect> {
        rect_in(self.world(), self.reference(), self.scale(), self.screen(), id)
    }

    /// The rectangle in which the entity `id` is drawn: a square with the
    /// side of a tile around the place of the entity on the screen, on which
    /// the reference entity is in the middle.
    pub fn get_sdl_rect(&self, id: Entity) -> (r: Result<ScreenRect, GameError>)
        requires
            self.wf(),
        ensures
            match r {
                Ok(rect) => self.spec_sdl_rect(id) == Some(rect),
                Err(e) => self.spec_sdl_rect(id) is None && e == if self.spec_position(id) is None {
                    GameError::NoPosition
                } else {
                    GameError::NoReference
                },
            },
    {
        let position = match self.position_of(id) {
            Some(position) => position,
            None => {
                return Err(GameError::NoPosition);
            },
        };
        let reference = match self.position_of(self.player) {
            Some(position) => position,
            None => {
                return Err(GameError::NoReference);
            },
        };
        let free = position.is_free();
        Ok(
            ScreenRect {
                x: axis(free, position.x(), reference.x(), self.tile_scale, self.screen_size.0),
                y: axis(free, position.y(), reference.y(), self.tile_scale, self.screen_size.1),
                width: self.tile_scale,
                height: self.tile_scale,
            },
        )
    }
}

} // verus!

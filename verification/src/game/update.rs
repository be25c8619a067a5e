use vstd::prelude::*;
use hecs::Entity;
use crate::components::ChunkPos;
use crate::components::Position;
use crate::constants::CHUNK_SIZE;
use crate::ecs::Components;
use crate::ecs::same_entity;
use crate::error::GameError;
use crate::game::Game;
use crate::game::Loaded;
use crate::game::cells_of;
use crate::game::chunk_cells;
use crate::game::grown;
use crate::game::lemma_grown_twice;
use crate::game::MAX_TILE_SCALE;
use crate::game::MIN_TILE_SCALE;
use crate::game::render::rect_in;
use crate::components::Player;
use crate::event::ActionHandler;
use crate::event::ActionIdType;
use crate::event::ActionState;
use crate::event::ActionUpdates;
use crate::event::Button;
use crate::event::Event;
use crate::event::all_keys_of;
use crate::event::keys_of;
use crate::gameobjtype::GameObjectTypes;
use crate::gameobjtype::UpdateFnType;
use crate::game::chunks::contains_chunk;
use crate::game::chunks::has_neighbourhood;
use crate::game::chunks::lemma_cells_of_push;
use crate::game::chunks::lemma_missing_chunks;
use crate::game::chunks::lemma_next_needed;
use crate::game::chunks::lemma_nothing_missing;
use crate::game::chunks::lemma_required_chunks;
use crate::game::chunks::missing_chunks;
use crate::game::chunks::required_chunks;
use crate::game::chunks::spec_required_chunks;
use crate::game::lemma_grown_by_nothing;
use crate::game::order::arranges;
use crate::game::order::draws;
use crate::game::order::lemma_arranged_draws;
use crate::game::order::render_order;

verus! {

/// A forced update that follows a forced update that succeeded, with the
/// reference entity in the same chunk, generates no chunk and creates no
/// entity, and succeeds.
pub proof fn lemma_second_update_generates_nothing(
    start: Game,
    first: Game,
    second: Game,
    r1: Result<(), GameError>,
    r2: Result<(), GameError>,
)
    requires
        start.streams(true, &first, r1),
        r1 is Ok,
        first.streams(true, &second, r2),
        start.spec_position(start.reference()) is Some,
        first.spec_position(first.reference()) is Some,
        first.spec_position(first.reference())->0.spec_chunk() == start.spec_position(
            start.reference(),
        )->0.spec_chunk(),
    ensures
        r2 is Ok,
        second.chunk_table() == first.chunk_table(),
        second.world() == first.world(),
        second.reference_chunk() == first.reference_chunk(),
{
    let center = start.spec_position(start.reference())->0.spec_chunk();
    let needed = spec_required_chunks(center);
    let table = start.chunk_table();
    lemma_missing_chunks(needed, table);
    assert(first.chunk_table() == table + missing_chunks(needed, table));
    lemma_nothing_missing(needed, first.chunk_table());
    let none = missing_chunks(needed, first.chunk_table());
    assert(none.len() == 0);
    assert(first.reloads(center, &second, r2));
    assert(cells_of(none) =~= Set::<Position>::empty());
    lemma_grown_by_nothing(first.world(), second.world());
    assert(first.chunk_table() + none =~= first.chunk_table());
}

impl Game {
    /// The position of the entity `id`, if it is in the world and has one.
    pub fn position_of(&self, id: Entity) -> (position: Option<Position>)
        ensures
            position == self.spec_position(id),
    {
        match crate::ecs::lookup(&self.ecs, id) {
            Some(components) => components.position,
            None => None,
        }
    }

    /// Determines anew which entities are in view, after generating what is
    /// missing of the chunks around the reference entity. Does so when
    /// forced, and else when the throttle is due and the reference entity
    /// has left the chunk in which it was last found. Gives up where the
    /// reference entity has no position, where its chunk lies at the edge of
    /// the range of chunk coordinates, and where the store is full.
    #[verifier::loop_isolation(false)]
    pub fn update_loaded(&mut self, force: bool) -> (r: Result<(), GameError>)
        requires
            old(self).wf(),
        ensures
            final(self).wf(),
            old(self).streams(force, final(self), r),
    {
        if !force && !self.loaded_update_counter.count() {
            return Ok(());
        }
        let at = match self.position_of(self.player) {
            Some(position) => position,
            None => {
                return Err(GameError::NoReference);
            },
        };
        let center = at.chunk();
        if !force && center == self.player_chunk {
            return Ok(());
        }
        if center.x == i32::MIN || center.x == i32::MAX || center.y == i32::MIN || center.y
            == i32::MAX {
            return Err(GameError::AtEdge);
        }
        let needed = required_chunks(center);
        let ghost start = *self;
        let ghost table = self.chunk_table();
        let mut i: usize = 0;
        proof {
            lemma_required_chunks(center);
            assert(needed@.take(0) =~= Seq::<ChunkPos>::empty());
            assert(cells_of(Seq::<ChunkPos>::empty()) =~= Set::<Position>::empty());
            assert(table + Seq::<ChunkPos>::empty() =~= table);
        }
        while i < needed.len()
            invariant
                i <= needed@.len(),
                needed@ == spec_required_chunks(center),
                needed@.no_duplicates(),
                self.wf(),
                table == start.chunk_table(),
                self.registry() == start.registry(),
                self.loaded() == start.loaded(),
                self.throttle() == start.throttle(),
                self.reference() == start.reference(),
                self.reference_chunk() == start.reference_chunk(),
                self.scale() == start.scale(),
                self.screen() == start.screen(),
                self.chunk_table() == table + missing_chunks(needed@.take(i as int), table),
                grown(
                    start.world(),
                    self.world(),
                    cells_of(missing_chunks(needed@.take(i as int), table)),
                ),
                start.room() >= CHUNK_SIZE * CHUNK_SIZE * missing_chunks(
                    needed@.take(i as int),
                    table,
                ).len(),
                self.room() == start.room() - CHUNK_SIZE * CHUNK_SIZE * missing_chunks(
                    needed@.take(i as int),
                    table,
                ).len(),
            decreases needed@.len() - i,
        {
            let key = needed[i];
            let ghost done = missing_chunks(needed@.take(i as int), table);
            let ghost before = self.world();
            proof {
                lemma_next_needed(needed@, table, i as int);
            }
            if !contains_chunk(&self.chunks, key) {
                match self.generate_chunk(key) {
                    Err(e) => {
                        proof {
                            // the chunks that were finished are the first of those
                            // that were missing, as many as the store had room for
                            let all = missing_chunks(needed@, table);
                            let d = done.len() as int;
                            let a = all.len() as int;
                            let room = start.room() as int;
                            assert(all[d] == done.push(key)[d]);
                            assert(done =~= all.take(d));
                            assert(CHUNK_SIZE * CHUNK_SIZE * done.len() == 256 * d);
                            assert(room / 256 == d && room % 256 == room - 256 * d) by (nonlinear_arith)
                                requires
                                    0 <= room - 256 * d < 256,
                            ;
                            assert(room < 256 * a) by (nonlinear_arith)
                                requires
                                    room - 256 * d < 256,
                                    d + 1 <= a,
                            ;
                            assert(CHUNK_SIZE * CHUNK_SIZE * all.len() == 256 * a);
                            // the tiles of the chunk that was begun lie in no other chunk
                            lemma_cells_of_push(done, key);
                            let partial = crate::game::cells_up_to(key, room - 256 * d);
                            assert(partial.subset_of(chunk_cells(key)));
                            lemma_grown_twice(start.world(), before, self.world(), cells_of(done), partial);
                        }
                        return Err(e);
                    },
                    Ok(_) => {
                        proof {
                            let d = done.len() as int;
                            assert(CHUNK_SIZE * CHUNK_SIZE * done.len() == 256 * d);
                            assert(CHUNK_SIZE * CHUNK_SIZE * done.push(key).len() == 256 * d + 256)
                                by (nonlinear_arith)
                                requires
                                    done.push(key).len() == d + 1,
                                    CHUNK_SIZE == 16,
                            ;
                            lemma_cells_of_push(done, key);
                            lemma_grown_twice(
                                start.world(),
                                before,
                                self.world(),
                                cells_of(done),
                                chunk_cells(key),
                            );
                            assert(table + done.push(key) =~= (table + done).push(key));
                        }
                    },
                }
            }
            i += 1;
        }
        proof {
            assert(needed@.take(i as int) =~= needed@);
        }
        let all = crate::ecs::positions(&self.ecs);
        let ids = render_order(&all, self.player, &needed);
        proof {
            let order = choose|order: Seq<int>|
                arranges(all@, self.reference(), needed@, order, ids@);
            lemma_arranged_draws(all@, self.world(), self.reference(), needed@, order, ids@);
        }
        self.loaded = Loaded { ids };
        self.player_chunk = center;
        Ok(())
    }

    /// Whether `post` differs from this game in its throttle at most.
    pub open spec fn rests(&self, post: &Game) -> bool {
        &&& post.world() == self.world()
        &&& post.loaded() == self.loaded()
        &&& post.chunk_table() == self.chunk_table()
        &&& post.reference_chunk() == self.reference_chunk()
    }

    /// Whether `update_loaded` may end with `r`, having made `post` of this
    /// game.
    ///
    /// Unless it is forced or its throttle is due, the call does nothing.
    /// Else it needs the position of the reference entity, and does nothing
    /// more if it is not forced and the reference entity is in the chunk in
    /// which it was last found. Else every chunk around the reference entity
    /// that the table lacks is generated, in the order of the
    /// neighbourhood, the entities in view are listed in the order of
    /// drawing, and the chunk of the reference entity is noted. Where the
    /// store has not the room for all the tiles, the call gives up with the
    /// tiles that it had room for, and with the chunks in the table that
    /// were finished.
    pub open spec fn streams(&self, force: bool, post: &Game, r: Result<(), GameError>) -> bool {
        let at = self.spec_position(self.reference());
        &&& post.registry() == self.registry()
        &&& post.reference() == self.reference()
        &&& post.scale() == self.scale()
        &&& post.screen() == self.screen()
        &&& post.throttle().period() == self.throttle().period()
        &&& post.throttle().ticks() == if force {
            self.throttle().ticks() as int
        } else if self.throttle().due() {
            0
        } else {
            self.throttle().ticks() + 1
        }
        &&& if !force && !self.throttle().due() {
            r is Ok && self.rests(post)
        } else if at is None {
            r == Err::<(), GameError>(GameError::NoReference) && self.rests(post)
        } else if !force && at->0.spec_chunk() == self.reference_chunk() {
            r is Ok && self.rests(post)
        } else if !has_neighbourhood(at->0.spec_chunk()) {
            r == Err::<(), GameError>(GameError::AtEdge) && self.rests(post)
        } else {
            self.reloads(at->0.spec_chunk(), post, r)
        }
    }

    /// Whether `update_loaded` may end with `r`, having made `post` of this
    /// game, where it finds the reference entity in the chunk `center` and
    /// does its work.
    pub open spec fn reloads(&self, center: ChunkPos, post: &Game, r: Result<(), GameError>) -> bool {
        let needed = spec_required_chunks(center);
        let missing = missing_chunks(needed, self.chunk_table());
        if self.room() >= CHUNK_SIZE * CHUNK_SIZE * missing.len() {
            &&& r is Ok
            &&& post.chunk_table() == self.chunk_table() + missing
            &&& grown(self.world(), post.world(), cells_of(missing))
            &&& post.room() == self.room() - CHUNK_SIZE * CHUNK_SIZE * missing.len()
            &&& post.reference_chunk() == center
            &&& draws(post.loaded(), post.world(), self.reference(), needed)
        } else {
            let whole = self.room() as int / 256;
            &&& r == Err::<(), GameError>(GameError::StoreFull)
            &&& post.chunk_table() == self.chunk_table() + missing.take(whole)
            &&& grown(
                self.world(),
                post.world(),
                cells_of(missing.take(whole)).union(
                    crate::game::cells_up_to(missing[whole], self.room() as int % 256),
                ),
            )
            &&& post.room() == 0
            &&& post.loaded() == self.loaded()
            &&& post.reference_chunk() == self.reference_chunk()
        }
    }
}

/// What the events of a frame come to: whether the window was closed, the
/// side of a tile and the size of the screen, and the actions whose button
/// went down or up.
pub struct Polled {
    pub quit: bool,
    pub scale: u32,
    pub screen: (i32, i32),
    pub added: Seq<ActionIdType>,
    pub removed: Seq<ActionIdType>,
}

/// The side of a tile after the wheel of the mouse has turned by `y`.
pub open spec fn zoomed(scale: u32, y: i32) -> u32 {
    crate::components::position::clamp(scale - y, MIN_TILE_SCALE as int, MAX_TILE_SCALE as int) as u32
}

/// What `state` becomes when `button` goes down or up.
pub open spec fn registered(handler: &ActionHandler, state: Polled, button: Button, down: bool) -> Polled {
    match handler.bound(button) {
        Some(id) => if down {
            Polled { added: state.added.push(id), ..state }
        } else if handler.actions()[id as int].prolonged {
            Polled { removed: state.removed.push(id), ..state }
        } else {
            state
        },
        None => state,
    }
}

/// What the events `events` make of `state`, one after the other. Nothing
/// is looked at after the window is closed or the screen has changed its
/// size, and the latter forgets the actions noted so far.
pub open spec fn polled(events: Seq<Event>, handler: &ActionHandler, state: Polled) -> Polled
    decreases events.len(),
{
    if events.len() == 0 {
        state
    } else {
        let rest = events.subrange(1, events.len() as int);
        match events[0] {
            Event::Quit => Polled { quit: true, ..state },
            Event::Resized { width, height } => Polled {
                screen: (width, height),
                added: Seq::empty(),
                removed: Seq::empty(),
                ..state
            },
            Event::MouseWheel { y } => polled(
                rest,
                handler,
                Polled { scale: zoomed(state.scale, y), ..state },
            ),
            Event::KeyDown { scancode: Some(code) } => polled(
                rest,
                handler,
                registered(handler, state, Button::Key(code), true),
            ),
            Event::KeyUp { scancode: Some(code) } => polled(
                rest,
                handler,
                registered(handler, state, Button::Key(code), false),
            ),
            Event::MouseButtonDown { button } => polled(
                rest,
                handler,
                registered(handler, state, Button::Mouse(button), true),
            ),
            Event::MouseButtonUp { button } => polled(
                rest,
                handler,
                registered(handler, state, Button::Mouse(button), false),
            ),
            _ => polled(rest, handler, state),
        }
    }
}

/// Whether the state `after` of the actions of a player is the state
/// `before` after the actions `added` and `removed` of a frame.
pub open spec fn acted(
    before: ActionState,
    after: ActionState,
    handler: &ActionHandler,
    added: Seq<ActionIdType>,
    removed: Seq<ActionIdType>,
) -> bool {
    &&& after.momentary() == keys_of(handler.actions(), added, false)
    &&& after.prolonged() == before.prolonged().union(
        keys_of(handler.actions(), added, true),
    ).difference(all_keys_of(handler.actions(), removed))
}

/// The update behaviour of each of the entities `ids` that has the marker
/// of one that the registry knows, with the entity, in the order of `ids`.
pub open spec fn spec_targets(
    ids: Seq<Entity>,
    world: Map<Entity, Components>,
    registry: GameObjectTypes,
) -> Seq<(Entity, UpdateFnType)>
    decreases ids.len(),
{
    if ids.len() == 0 {
        Seq::empty()
    } else {
        let earlier = spec_targets(ids.drop_last(), world, registry);
        let id = ids.last();
        if world.contains_key(id) && world[id].update_fn is Some && world[id].update_fn->0.id
            < registry.update_fns().len() {
            earlier.push((id, registry.update_fns()[world[id].update_fn->0.id as int]))
        } else {
            earlier
        }
    }
}

/// The position `position` after the moves that the actions `actions` ask
/// for: 100 units a frame, or 200 when running, to the right, to the left,
/// down and up, in this order.
pub open spec fn steered(position: Position, actions: ActionState) -> Position {
    let speed: int = if actions.active("run"@) {
        200
    } else {
        100
    };
    let right = if actions.active("move_right"@) {
        position.spec_move_x(speed)
    } else {
        position
    };
    let left = if actions.active("move_left"@) {
        right.spec_move_x(-speed)
    } else {
        right
    };
    let down = if actions.active("move_down"@) {
        left.spec_move_y(speed)
    } else {
        left
    };
    if actions.active("move_up"@) {
        down.spec_move_y(-speed)
    } else {
        down
    }
}

/// The last of the entities `ids`, other than the reference entity, whose
/// rectangle on the screen holds the point `mouse`.
pub open spec fn topmost_hit(
    ids: Seq<Entity>,
    world: Map<Entity, Components>,
    reference: Entity,
    scale: u32,
    screen: (i32, i32),
    mouse: (i32, i32),
) -> Option<Entity>
    decreases ids.len(),
{
    if ids.len() == 0 {
        None
    } else {
        let id = ids.last();
        let rect = rect_in(world, reference, scale, screen, id);
        if id != reference && rect is Some && rect->0.spec_contains_point(mouse.0, mouse.1) {
            Some(id)
        } else {
            topmost_hit(ids.drop_last(), world, reference, scale, screen, mouse)
        }
    }
}

/// The components `components` of a player with the position `position`.
pub open spec fn placed_at(components: Components, position: Option<Position>) -> Components {
    Components { position, ..components }
}

/// The components `components` of a player who has selected `selected`.
pub open spec fn selecting(components: Components, selected: Option<Entity>) -> Components {
    Components {
        player: Some(Player { selected, action_state: components.player->0.action_state }),
        ..components
    }
}

impl Game {
    /// Whether `post` is this game with the world `world` and everything
    /// else as it is.
    pub open spec fn with_world(&self, post: &Game, world: Map<Entity, Components>) -> bool {
        &&& self.same_but_world(post)
        &&& post.world() == world
        &&& post.room() == self.room()
    }

    /// The update behaviours that are due this frame: that of each entity
    /// in view that has the marker of one, with the entity, in the order of
    /// drawing. A marker that the registry has not handed out is passed
    /// over.
    pub fn update_targets(&self) -> (targets: Vec<(Entity, UpdateFnType)>)
        requires
            self.wf(),
        ensures
            targets@ == spec_targets(self.loaded(), self.world(), self.registry()),
    {
        let mut targets: Vec<(Entity, UpdateFnType)> = Vec::new();
        let mut i: usize = 0;
        proof {
            assert(self.loaded().take(0) =~= Seq::<Entity>::empty());
        }
        while i < self.loaded.ids.len()
            invariant
                i <= self.loaded().len(),
                self.wf(),
                targets@ == spec_targets(self.loaded().take(i as int), self.world(), self.registry()),
            decreases self.loaded().len() - i,
        {
            let id = self.loaded.ids[i];
            proof {
                assert(self.loaded().take(i + 1).drop_last() =~= self.loaded().take(i as int));
                assert(self.loaded().take(i + 1).last() == id);
            }
            match crate::ecs::lookup(&self.ecs, id) {
                Some(components) => match components.update_fn {
                    Some(marker) => {
                        if self.types.has_update_fn(marker.id) {
                            targets.push((id, self.types.get_update_fn_from_id(marker.id)));
                        }
                    },
                    None => {},
                },
                None => {},
            }
            i += 1;
        }
        proof {
            assert(self.loaded().take(i as int) =~= self.loaded());
        }
        targets
    }

    /// Takes in the events of a frame: the wheel of the mouse sets the
    /// side of a tile, a change of the size of the screen is noted, and
    /// the buttons that went down or up give the actions of the frame.
    /// Says whether the window was closed, and gives the actions.
    #[verifier::loop_isolation(false)]
    pub fn handle_events(&mut self, events: &Vec<Event>, handler: &ActionHandler) -> (r: (
        bool,
        ActionUpdates,
    ))
        requires
            old(self).wf(),
            handler.wf(),
        ensures
            final(self).wf(),
            r.1.wf(handler),
            old(self).polls(events@, handler, final(self), r.0, r.1),
    {
        let mut updates = ActionUpdates::new();
        let mut i: usize = 0;
        let ghost start = Polled {
            quit: false,
            scale: self.scale(),
            screen: self.screen(),
            added: Seq::empty(),
            removed: Seq::empty(),
        };
        proof {
            assert(events@.subrange(0, events@.len() as int) =~= events@);
        }
        while i < events.len()
            invariant
                i <= events@.len(),
                self.wf(),
                handler.wf(),
                updates.wf(handler),
                self.registry() == old(self).registry(),
                self.loaded() == old(self).loaded(),
                self.throttle() == old(self).throttle(),
                self.reference() == old(self).reference(),
                self.chunk_table() == old(self).chunk_table(),
                self.reference_chunk() == old(self).reference_chunk(),
                self.world() == old(self).world(),
                self.room() == old(self).room(),
                polled(events@, handler, start) == polled(
                    events@.subrange(i as int, events@.len() as int),
                    handler,
                    Polled {
                        quit: false,
                        scale: self.scale(),
                        screen: self.screen(),
                        added: updates.added(),
                        removed: updates.removed(),
                    },
                ),
            decreases events@.len() - i,
        {
            let event = events[i];
            proof {
                let here = events@.subrange(i as int, events@.len() as int);
                assert(here[0] == event);
                assert(here.subrange(1, here.len() as int) =~= events@.subrange(
                    i + 1,
                    events@.len() as int,
                ));
            }
            match event {
                Event::Quit => {
                    return (true, updates);
                },
                Event::MouseWheel { y } => {
                    let turned: i64 = self.tile_scale as i64 - y as i64;
                    self.tile_scale = if turned < MIN_TILE_SCALE as i64 {
                        MIN_TILE_SCALE
                    } else if turned > MAX_TILE_SCALE as i64 {
                        MAX_TILE_SCALE
                    } else {
                        turned as u32
                    };
                },
                Event::KeyDown { scancode } => {
                    if let Some(code) = scancode {
                        updates.register_event(handler, Button::Key(code), true);
                    }
                },
                Event::KeyUp { scancode } => {
                    if let Some(code) = scancode {
                        updates.register_event(handler, Button::Key(code), false);
                    }
                },
                Event::MouseButtonDown { button } => {
                    updates.register_event(handler, Button::Mouse(button), true);
                },
                Event::MouseButtonUp { button } => {
                    updates.register_event(handler, Button::Mouse(button), false);
                },
                Event::Resized { width, height } => {
                    self.screen_size = (width, height);
                    updates.clear();
                    return (false, updates);
                },
                Event::Other => {},
            }
            i += 1;
        }
        (false, updates)
    }

    /// Whether `handle_events` may make `post` of this game and give `quit`
    /// and `updates`.
    pub open spec fn polls(
        &self,
        events: Seq<Event>,
        handler: &ActionHandler,
        post: &Game,
        quit: bool,
        updates: ActionUpdates,
    ) -> bool {
        let end = polled(
            events,
            handler,
            Polled {
                quit: false,
                scale: self.scale(),
                screen: self.screen(),
                added: Seq::empty(),
                removed: Seq::empty(),
            },
        );
        &&& post.registry() == self.registry()
        &&& post.loaded() == self.loaded()
        &&& post.throttle() == self.throttle()
        &&& post.reference() == self.reference()
        &&& post.chunk_table() == self.chunk_table()
        &&& post.reference_chunk() == self.reference_chunk()
        &&& post.world() == self.world()
        &&& post.room() == self.room()
        &&& quit == end.quit
        &&& post.scale() == end.scale
        &&& post.screen() == end.screen
        &&& !quit ==> updates.added() == end.added && updates.removed() == end.removed
    }

    /// Whether `post` is this game after the reference entity, if it is a
    /// player, has taken in the actions `updates` of a frame.
    pub open spec fn takes_actions(
        &self,
        handler: &ActionHandler,
        updates: ActionUpdates,
        post: &Game,
    ) -> bool {
        let id = self.reference();
        &&& self.same_but_world(post)
        &&& post.room() == self.room()
        &&& if self.world().contains_key(id) && self.world()[id].player is Some {
            let before = self.world()[id];
            let after = post.world()[id];
            &&& post.world() == self.world().insert(id, after)
            &&& after == Components { player: after.player, ..before }
            &&& after.player is Some
            &&& after.player->0.selected == before.player->0.selected
            &&& acted(
                before.player->0.action_state,
                after.player->0.action_state,
                handler,
                updates.added(),
                updates.removed(),
            )
        } else {
            post.world() == self.world()
        }
    }

    /// Whether `update` may end with `r`, having made `post` of this game:
    /// the events are taken in; unless the window was closed, the reference
    /// entity takes in the actions of the frame, and what is in view is
    /// determined anew if that is due.
    pub open spec fn updates(
        &self,
        events: Seq<Event>,
        handler: &ActionHandler,
        post: &Game,
        r: Result<bool, GameError>,
    ) -> bool {
        exists|seen: Game, quit: bool, noted: ActionUpdates, told: Game|
            #![trigger self.polls(events, handler, &seen, quit, noted), told.registry()]
            {
                &&& self.polls(events, handler, &seen, quit, noted)
                &&& if quit {
                    r == Ok::<bool, GameError>(true) && seen.with_world(post, seen.world())
                } else {
                    &&& seen.takes_actions(handler, noted, &told)
                    &&& told.streams(
                        false,
                        post,
                        match r {
                            Ok(_) => Ok(()),
                            Err(e) => Err(e),
                        },
                    )
                    &&& r is Ok ==> r == Ok::<bool, GameError>(false)
                }
            }
    }

    /// The first part of a frame: takes in the events; unless the window
    /// was closed, hands the actions of the frame to the reference entity
    /// and determines what is in view, if that is due. Says whether the
    /// window was closed.
    pub fn update(&mut self, events: &Vec<Event>, handler: &ActionHandler) -> (r: Result<
        bool,
        GameError,
    >)
        requires
            old(self).wf(),
            handler.wf(),
        ensures
            final(self).wf(),
            old(self).updates(events@, handler, final(self), r),
    {
        let (quit, updates) = self.handle_events(events, handler);
        let ghost seen = *self;
        if quit {
            proof {
                assert(old(self).polls(events@, handler, &seen, quit, updates));
                assert(seen.registry() == old(self).registry());
            }
            return Ok(true);
        }
        match crate::ecs::lookup(&self.ecs, self.player) {
            Some(components) => {
                let mut components = components;
                match components.player {
                    Some(player) => {
                        let mut player = player;
                        player.action_state.update(handler, &updates);
                        components.player = Some(player);
                        crate::ecs::replace(&mut self.ecs, self.player, components);
                    },
                    None => {},
                }
            },
            None => {},
        }
        let ghost told = *self;
        proof {
            assert(seen.takes_actions(handler, updates, &told));
        }
        match self.update_loaded(false) {
            Ok(_) => {
                proof {
                    assert(told.streams(false, &*self, Ok(())));
                }
                Ok(false)
            },
            Err(e) => {
                proof {
                    assert(told.streams(false, &*self, Err(e)));
                }
                Err(e)
            },
        }
    }

    /// The last of the entities in view, other than the reference entity,
    /// whose rectangle on the screen holds the point `mouse`.
    pub fn topmost(&self, mouse: (i32, i32)) -> (hit: Option<Entity>)
        requires
            self.wf(),
        ensures
            hit == topmost_hit(
                self.loaded(),
                self.world(),
                self.reference(),
                self.scale(),
                self.screen(),
                mouse,
            ),
    {
        let mut i: usize = self.loaded.ids.len();
        proof {
            assert(self.loaded().take(i as int) =~= self.loaded());
        }
        while i > 0
            invariant
                i <= self.loaded().len(),
                self.wf(),
                topmost_hit(
                    self.loaded(),
                    self.world(),
                    self.reference(),
                    self.scale(),
                    self.screen(),
                    mouse,
                ) == topmost_hit(
                    self.loaded().take(i as int),
                    self.world(),
                    self.reference(),
                    self.scale(),
                    self.screen(),
                    mouse,
                ),
            decreases i,
        {
            i -= 1;
            let id = self.loaded.ids[i];
            proof {
                assert(self.loaded().take(i + 1).drop_last() =~= self.loaded().take(i as int));
                assert(self.loaded().take(i + 1).last() == id);
            }
            if !same_entity(id, self.player) {
                match self.get_sdl_rect(id) {
                    Ok(rect) => {
                        if rect.contains_point(mouse.0, mouse.1) {
                            return Some(id);
                        }
                    },
                    Err(_) => {},
                }
            }
        }
        None
    }

    /// The world after the reference entity, with the components
    /// `components`, has moved as its actions ask.
    pub open spec fn steered_world(&self, components: Components) -> Map<Entity, Components> {
        if components.position is Some {
            self.world().insert(
                self.reference(),
                placed_at(
                    components,
                    Some(steered(components.position->0, components.player->0.action_state)),
                ),
            )
        } else {
            self.world()
        }
    }

    /// The world `world` after the reference entity, with the components
    /// `components`, has attacked what it had selected, if it attacks.
    pub open spec fn attacked_world(world: Map<Entity, Components>, components: Components) -> Map<
        Entity,
        Components,
    > {
        if components.player->0.action_state.active("attack"@) && components.player->0.selected is Some {
            world.remove(components.player->0.selected->0)
        } else {
            world
        }
    }

    /// The world `world` after the reference entity, if it is still a
    /// player, has selected what lies under the mouse.
    pub open spec fn selecting_world(&self, world: Map<Entity, Components>, mouse: (i32, i32)) -> Map<
        Entity,
        Components,
    > {
        let id = self.reference();
        if world.contains_key(id) && world[id].player is Some {
            world.insert(
                id,
                selecting(
                    world[id],
                    topmost_hit(self.loaded(), world, id, self.scale(), self.screen(), mouse),
                ),
            )
        } else {
            world
        }
    }

    /// Whether the reference entity is in the world and is a player.
    pub open spec fn has_player(&self) -> bool {
        self.world().contains_key(self.reference()) && self.world()[self.reference()].player is Some
    }

    /// The world after the reference entity, a player, has moved and,
    /// unless the mouse is over the interface, has attacked and selected.
    pub open spec fn played_world(&self, mouse: (i32, i32), ui_hovered: bool) -> Map<Entity, Components> {
        let components = self.world()[self.reference()];
        let moved = self.steered_world(components);
        if ui_hovered {
            moved
        } else {
            self.selecting_world(Game::attacked_world(moved, components), mouse)
        }
    }

    /// The second part of a frame: the reference entity, a player, moves
    /// as its actions ask. Unless the mouse is over the interface, the
    /// entity that the player had selected is destroyed if the player
    /// attacks, and the player selects what lies under the mouse.
    pub fn update_player(&mut self, mouse: (i32, i32), ui_hovered: bool) -> (r: Result<(), GameError>)
        requires
            old(self).wf(),
        ensures
            final(self).wf(),
            old(self).same_but_world(final(self)),
            final(self).room() == old(self).room(),
            r is Ok <==> old(self).has_player(),
            r is Err ==> r == Err::<(), GameError>(GameError::NoPlayer),
            r is Err ==> final(self).world() == old(self).world(),
            r is Ok ==> final(self).world() == old(self).played_world(mouse, ui_hovered),
    {
        let components = match crate::ecs::lookup(&self.ecs, self.player) {
            Some(components) => components,
            None => {
                return Err(GameError::NoPlayer);
            },
        };
        let (run, right, left, down, up, attack, selected) = match &components.player {
            Some(player) => (
                player.action_state.key("run"),
                player.action_state.key("move_right"),
                player.action_state.key("move_left"),
                player.action_state.key("move_down"),
                player.action_state.key("move_up"),
                player.action_state.key("attack"),
                player.selected,
            ),
            None => {
                return Err(GameError::NoPlayer);
            },
        };
        let ghost before = components;
        let speed: i64 = if run {
            200
        } else {
            100
        };
        match components.position {
            Some(position) => {
                let mut position = position;
                if right {
                    position.move_x(speed);
                }
                if left {
                    position.move_x(-speed);
                }
                if down {
                    position.move_y(speed);
                }
                if up {
                    position.move_y(-speed);
                }
                let mut moved = components;
                moved.position = Some(position);
                assert(moved == placed_at(
                    before,
                    Some(steered(before.position->0, before.player->0.action_state)),
                ));
                crate::ecs::replace(&mut self.ecs, self.player, moved);
            },
            None => {},
        }
        assert(self.world() == old(self).steered_world(before));
        if !ui_hovered {
            if attack {
                if let Some(target) = selected {
                    crate::ecs::despawn(&mut self.ecs, target);
                }
            }
            assert(self.world() == Game::attacked_world(old(self).steered_world(before), before));
            match crate::ecs::lookup(&self.ecs, self.player) {
                Some(current) => {
                    let mut current = current;
                    let ghost found = current;
                    match current.player {
                        Some(player) => {
                            let hit = self.topmost(mouse);
                            current.player = Some(
                                Player { selected: hit, action_state: player.action_state },
                            );
                            assert(current == selecting(found, hit));
                            crate::ecs::replace(&mut self.ecs, self.player, current);
                        },
                        None => {},
                    }
                },
                None => {},
            }
        }
        Ok(())
    }
}

} // verus!

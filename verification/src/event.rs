use vstd::prelude::*;
use crate::utils::strings::has_name;
use crate::utils::strings::insert_name;
use crate::utils::strings::name_set;
use crate::utils::strings::remove_name;
use crate::utils::strings::lemma_name_set_empty;

verus! {

pub type ActionIdType = u8;

/// A key of the keyboard or a button of the mouse, by its code.
#[derive(Clone, Copy, Debug, PartialEq, Eq, Structural)]
pub enum Button {
    Key(i32),
    Mouse(u8),
}

/// What the window reports between two frames, as far as the game looks
/// at it.
#[derive(Clone, Copy, Debug, PartialEq, Eq, Structural)]
pub enum Event {
    Quit,
    MouseWheel { y: i32 },
    KeyDown { scancode: Option<i32> },
    KeyUp { scancode: Option<i32> },
    MouseButtonDown { button: u8 },
    MouseButtonUp { button: u8 },
    Resized { width: i32, height: i32 },
    Other,
}

/// Something the player can do, bound to a button.
#[derive(Clone, Copy, Debug)]
pub struct Action {
    pub label: &'static str,
    pub key: &'static str,
    /// A prolonged action lasts until its button is released; any other
    /// lasts for one frame.
    pub prolonged: bool,
    pub local: bool,
}

/// The actions that are active in the current frame, by key.
#[derive(Clone, Debug)]
pub struct ActionState {
    momentary: Vec<&'static str>,
    prolonged: Vec<&'static str>,
}

/// The actions whose buttons went down or up since the last frame.
pub struct ActionUpdates {
    add: Vec<ActionIdType>,
    remove: Vec<ActionIdType>,
}

/// The actions known to the program and the buttons they are bound to.
pub struct ActionHandler {
    actions: Vec<Action>,
    binds: Vec<(Button, ActionIdType)>,
    keys: Vec<(&'static str, ActionIdType)>,
}

/// The key of each action of `actions` whose number is in `ids` and whose
/// duration is as `prolonged` says.
pub open spec fn keys_of(actions: Seq<Action>, ids: Seq<ActionIdType>, prolonged: bool) -> Set<
    Seq<char>,
> {
    Set::new(
        |k: Seq<char>|
            exists|i: int|
                0 <= i < ids.len() && actions[(#[trigger] ids[i]) as int].prolonged == prolonged
                    && actions[ids[i] as int].key@ == k,
    )
}

/// The key of each action of `actions` whose number is in `ids`.
pub open spec fn all_keys_of(actions: Seq<Action>, ids: Seq<ActionIdType>) -> Set<Seq<char>> {
    keys_of(actions, ids, true).union(keys_of(actions, ids, false))
}

/// The number of the action that `button` is bound to: that of the last
/// binding for it.
pub open spec fn bound_action(binds: Seq<(Button, ActionIdType)>, button: Button) -> Option<
    ActionIdType,
>
    decreases binds.len(),
{
    if binds.len() == 0 {
        None
    } else if binds.last().0 == button {
        Some(binds.last().1)
    } else {
        bound_action(binds.drop_last(), button)
    }
}

/// The keys of a list of numbers with one more number are those of the
/// list and the key of that number.
pub proof fn lemma_keys_of_push(actions: Seq<Action>, ids: Seq<ActionIdType>, id: ActionIdType, prolonged: bool)
    ensures
        keys_of(actions, ids.push(id), prolonged) == if actions[id as int].prolonged == prolonged {
            keys_of(actions, ids, prolonged).insert(actions[id as int].key@)
        } else {
            keys_of(actions, ids, prolonged)
        },
{
    let longer = ids.push(id);
    let expected = if actions[id as int].prolonged == prolonged {
        keys_of(actions, ids, prolonged).insert(actions[id as int].key@)
    } else {
        keys_of(actions, ids, prolonged)
    };
    assert forall|k: Seq<char>| keys_of(actions, longer, prolonged).contains(k) <==> expected.contains(
        k,
    ) by {
        if keys_of(actions, longer, prolonged).contains(k) {
            let i = choose|i: int|
                0 <= i < longer.len() && actions[(#[trigger] longer[i]) as int].prolonged == prolonged
                    && actions[longer[i] as int].key@ == k;
            if i < ids.len() {
                assert(ids[i] == longer[i]);
            }
        }
        if keys_of(actions, ids, prolonged).contains(k) {
            let i = choose|i: int|
                0 <= i < ids.len() && actions[(#[trigger] ids[i]) as int].prolonged == prolonged
                    && actions[ids[i] as int].key@ == k;
            assert(longer[i] == ids[i]);
        }
        if actions[id as int].prolonged == prolonged && k == actions[id as int].key@ {
            assert(longer[ids.len() as int] == id);
        }
    }
    assert(keys_of(actions, longer, prolonged) =~= expected);
}

impl ActionState {
    /// Whether the action `key` is active.
    pub open spec fn active(&self, key: Seq<char>) -> bool {
        self.prolonged().contains(key) || self.momentary().contains(key)
    }

    /// The keys of the actions that last for this frame only.
    pub closed spec fn momentary(&self) -> Set<Seq<char>> {
        name_set(self.momentary@)
    }

    /// The keys of the actions that last until their button is released.
    pub closed spec fn prolonged(&self) -> Set<Seq<char>> {
        name_set(self.prolonged@)
    }

    pub fn new() -> (s: Self)
        ensures
            s.momentary() == Set::<Seq<char>>::empty(),
            s.prolonged() == Set::<Seq<char>>::empty(),
    {
        proof {
            lemma_name_set_empty();
        }
        Self { momentary: Vec::new(), prolonged: Vec::new() }
    }

    /// Whether the action `key` is active.
    pub fn key(&self, key: &str) -> (r: bool)
        ensures
            r == self.active(key@),
    {
        has_name(&self.prolonged, key) || has_name(&self.momentary, key)
    }

    /// Takes in the button events of one frame: the momentary actions are
    /// those that were added now, and the prolonged ones gain those added
    /// and then lose those removed.
    pub fn update(&mut self, handler: &ActionHandler, updates: &ActionUpdates)
        requires
            updates.wf(handler),
        ensures
            final(self).momentary() == keys_of(handler.actions(), updates.added(), false),
            final(self).prolonged() == old(self).prolonged().union(
                keys_of(handler.actions(), updates.added(), true),
            ).difference(all_keys_of(handler.actions(), updates.removed())),
    {
        self.momentary = Vec::new();
        proof {
            lemma_name_set_empty();
            assert(updates.added().take(0) =~= Seq::<ActionIdType>::empty());
            assert(keys_of(handler.actions(), updates.added().take(0), false) =~= Set::<
                Seq<char>,
            >::empty());
            assert(keys_of(handler.actions(), updates.added().take(0), true) =~= Set::<
                Seq<char>,
            >::empty());
            assert(old(self).prolonged().union(Set::<Seq<char>>::empty()) =~= old(self).prolonged());
        }
        let mut i: usize = 0;
        while i < updates.add.len()
            invariant
                i <= updates.add@.len(),
                updates.wf(handler),
                name_set(self.momentary@) == keys_of(handler.actions(), updates.added().take(i as int), false),
                name_set(self.prolonged@) == old(self).prolonged().union(
                    keys_of(handler.actions(), updates.added().take(i as int), true),
                ),
            decreases updates.add@.len() - i,
        {
            let id = updates.add[i];
            let action = handler.actions[id as usize];
            proof {
                assert(updates.added().take(i + 1) =~= updates.added().take(i as int).push(id));
                lemma_keys_of_push(handler.actions(), updates.added().take(i as int), id, false);
                lemma_keys_of_push(handler.actions(), updates.added().take(i as int), id, true);
            }
            if action.prolonged {
                insert_name(&mut self.prolonged, action.key);
                assert(name_set(self.prolonged@) =~= old(self).prolonged().union(
                    keys_of(handler.actions(), updates.added().take(i + 1), true),
                ));
            } else {
                insert_name(&mut self.momentary, action.key);
            }
            i += 1;
        }
        let ghost gained = name_set(self.prolonged@);
        proof {
            assert(updates.added().take(i as int) =~= updates.added());
            assert(updates.removed().take(0) =~= Seq::<ActionIdType>::empty());
            assert(all_keys_of(handler.actions(), updates.removed().take(0)) =~= Set::<
                Seq<char>,
            >::empty());
            assert(gained.difference(Set::<Seq<char>>::empty()) =~= gained);
        }
        let mut j: usize = 0;
        while j < updates.remove.len()
            invariant
                j <= updates.remove@.len(),
                updates.wf(handler),
                name_set(self.momentary@) == keys_of(handler.actions(), updates.added(), false),
                name_set(self.prolonged@) == gained.difference(
                    all_keys_of(handler.actions(), updates.removed().take(j as int)),
                ),
            decreases updates.remove@.len() - j,
        {
            let id = updates.remove[j];
            let action = handler.actions[id as usize];
            proof {
                assert(updates.removed().take(j + 1) =~= updates.removed().take(j as int).push(id));
                lemma_keys_of_push(handler.actions(), updates.removed().take(j as int), id, false);
                lemma_keys_of_push(handler.actions(), updates.removed().take(j as int), id, true);
            }
            remove_name(&mut self.prolonged, action.key);
            assert(name_set(self.prolonged@) =~= gained.difference(
                all_keys_of(handler.actions(), updates.removed().take(j + 1)),
            ));
            j += 1;
        }
        proof {
            assert(updates.removed().take(j as int) =~= updates.removed());
        }
    }
}

impl ActionUpdates {
    /// The numbers of the actions whose button went down, in the order of
    /// the events.
    pub closed spec fn added(&self) -> Seq<ActionIdType> {
        self.add@
    }

    /// The numbers of the prolonged actions whose button went up, in the
    /// order of the events.
    pub closed spec fn removed(&self) -> Seq<ActionIdType> {
        self.remove@
    }

    /// Every number is that of an action of `handler`.
    pub open spec fn wf(&self, handler: &ActionHandler) -> bool {
        &&& forall|i: int|
            0 <= i < self.added().len() ==> (#[trigger] self.added()[i]) < handler.actions().len()
        &&& forall|i: int|
            0 <= i < self.removed().len() ==> (#[trigger] self.removed()[i])
                < handler.actions().len()
    }

    pub fn new() -> (updates: Self)
        ensures
            updates.added() == Seq::<ActionIdType>::empty(),
            updates.removed() == Seq::<ActionIdType>::empty(),
    {
        Self { add: Vec::new(), remove: Vec::new() }
    }

    /// Notes that `event` went down or up. A button that is bound to no
    /// action is ignored, and so is the release of a button whose action
    /// is not prolonged.
    pub fn register_event(&mut self, handler: &ActionHandler, event: Button, down: bool)
        requires
            handler.wf(),
            old(self).wf(handler),
        ensures
            final(self).wf(handler),
            final(self).added() == match handler.bound(event) {
                Some(id) => if down {
                    old(self).added().push(id)
                } else {
                    old(self).added()
                },
                None => old(self).added(),
            },
            final(self).removed() == match handler.bound(event) {
                Some(id) => if !down && handler.actions()[id as int].prolonged {
                    old(self).removed().push(id)
                } else {
                    old(self).removed()
                },
                None => old(self).removed(),
            },
    {
        let id = match handler.find(event) {
            Some(id) => id,
            None => {
                return ;
            },
        };
        if down {
            self.add.push(id);
        } else {
            if handler.actions[id as usize].prolonged {
                self.remove.push(id);
            }
        }
        proof {
            assert forall|i: int| 0 <= i < self.added().len() implies (#[trigger] self.added()[i])
                < handler.actions().len() by {
                if i < old(self).added().len() {
                    assert(self.added()[i] == old(self).added()[i]);
                }
            }
            assert forall|i: int| 0 <= i < self.removed().len() implies (
            #[trigger] self.removed()[i]) < handler.actions().len() by {
                if i < old(self).removed().len() {
                    assert(self.removed()[i] == old(self).removed()[i]);
                }
            }
        }
    }

    pub fn clear(&mut self)
        ensures
            final(self).added() == Seq::<ActionIdType>::empty(),
            final(self).removed() == Seq::<ActionIdType>::empty(),
    {
        self.add.clear();
        self.remove.clear();
    }
}

impl ActionHandler {
    /// The actions, by number.
    pub closed spec fn actions(&self) -> Seq<Action> {
        self.actions@
    }

    /// The bindings, in the order in which they were made.
    pub closed spec fn binds(&self) -> Seq<(Button, ActionIdType)> {
        self.binds@
    }

    /// The number of the action that `button` is bound to.
    pub open spec fn bound(&self, button: Button) -> Option<ActionIdType> {
        bound_action(self.binds(), button)
    }

    /// Every binding leads to an action.
    pub open spec fn wf(&self) -> bool {
        forall|i: int|
            0 <= i < self.binds().len() ==> (#[trigger] self.binds()[i]).1 < self.actions().len()
    }

    /// A handler of the actions of `binds`, each bound to its button.
    pub fn new(binds: &Vec<(Button, Action)>) -> (handler: Self)
        requires
            binds@.len() <= 256,
        ensures
            handler.wf(),
            handler.actions() == Seq::new(binds@.len(), |i: int| binds@[i].1),
            handler.binds() == Seq::new(binds@.len(), |i: int| (binds@[i].0, i as u8)),
    {
        let mut s = Self { actions: Vec::new(), binds: Vec::new(), keys: Vec::new() };
        s.init(binds);
        assert(s.binds@ =~= Seq::new(binds@.len(), |i: int| (binds@[i].0, i as u8)));
        s
    }

    /// Makes the actions of the handler those of `binds`, and binds each to
    /// its button, after the bindings that the handler had. Of these, one
    /// for a button of `binds` no longer counts, and one for another button
    /// now leads to the action that has its number among the new ones.
    pub fn init(&mut self, binds: &Vec<(Button, Action)>)
        requires
            binds@.len() <= 256,
        ensures
            final(self).actions() == Seq::new(binds@.len(), |i: int| binds@[i].1),
            final(self).binds() == old(self).binds() + Seq::new(
                binds@.len(),
                |i: int| (binds@[i].0, i as u8),
            ),
            old(self).binds().len() == 0 ==> final(self).wf(),
    {
        let mut actions: Vec<Action> = Vec::new();
        let mut n: usize = 0;
        let ghost had = self.binds@;
        while n < binds.len()
            invariant
                n <= binds@.len() <= 256,
                actions@.len() == n,
                self.binds@.len() == had.len() + n,
                forall|i: int| 0 <= i < had.len() ==> #[trigger] self.binds@[i] == had[i],
                forall|i: int| 0 <= i < n ==> #[trigger] actions@[i] == binds@[i].1,
                forall|i: int|
                    0 <= i < n ==> #[trigger] self.binds@[had.len() + i] == (binds@[i].0, i as u8),
            decreases binds@.len() - n,
        {
            let (button, action) = binds[n];
            actions.push(action);
            let id: ActionIdType = (actions.len() - 1) as u8;
            self.binds.push((button, id));
            self.keys.push((action.key, id));
            n += 1;
        }
        self.actions = actions;
        assert(self.actions@ =~= Seq::new(binds@.len(), |i: int| binds@[i].1));
        proof {
            let made = Seq::new(binds@.len(), |i: int| (binds@[i].0, i as u8));
            assert forall|i: int| 0 <= i < self.binds@.len() implies self.binds@[i] == (had + made)[i] by {
                if i >= had.len() {
                    let k = i - had.len();
                    assert(self.binds@[had.len() + k] == (binds@[k].0, k as u8));
                }
            }
            assert(self.binds@ =~= had + made);
        }
    }

    /// The number of the action that `button` is bound to.
    pub fn find(&self, button: Button) -> (id: Option<ActionIdType>)
        ensures
            id == self.bound(button),
            self.wf() && id is Some ==> id->0 < self.actions().len(),
    {
        let mut n: usize = self.binds.len();
        proof {
            assert(self.binds@.take(n as int) =~= self.binds@);
        }
        while n > 0
            invariant
                n <= self.binds@.len(),
                bound_action(self.binds@, button) == bound_action(self.binds@.take(n as int), button),
            decreases n,
        {
            n -= 1;
            proof {
                assert(self.binds@.take(n + 1).drop_last() =~= self.binds@.take(n as int));
                assert(self.binds@.take(n + 1).last() == self.binds@[n as int]);
            }
            if self.binds[n].0 == button {
                return Some(self.binds[n].1);
            }
        }
        None
    }
}

} // verus!

use vstd::prelude::*;
use crate::gameobjtype::gameobjtype::GameObjectTypeBuilder;
use crate::gameobjtype::gameobjtype::GameObjectTypes;
use crate::gameobjtype::gameobjtype::compiled_type;
use crate::gameobjtype::gameobjtype::key_table;
use crate::gameobjtype::gameobjtype::update_table;

pub mod player;
pub mod test;
pub mod test_tile;
pub mod tree;

verus! {

/// The builders of the object types known to the program, in the order of
/// their type ids.
pub open spec fn spec_types() -> Seq<GameObjectTypeBuilder> {
    seq![
        player::spec_builder(),
        test::spec_builder(),
        test_tile::spec_builder(),
        tree::spec_builder(),
    ]
}

/// The table of the object types known to the program.
pub fn types() -> (table: Vec<GameObjectTypeBuilder>)
    ensures
        table@ == spec_types(),
{
    let table = vec![player::builder(), test::builder(), test_tile::builder(), tree::builder()];
    assert(table@ =~= spec_types());
    table
}

/// Whether `key` is the key of one of the known object types.
pub open spec fn is_known_key(key: Seq<char>) -> bool {
    key == "player"@ || key == "test"@ || key == "test_tile"@ || key == "tree"@
}

/// Whether `key` is the key of one of the known object types.
pub fn known_key(key: &str) -> (known: bool)
    ensures
        known == is_known_key(key@),
{
    crate::utils::strings::str_eq(key, "player") || crate::utils::strings::str_eq(key, "test")
        || crate::utils::strings::str_eq(key, "test_tile") || crate::utils::strings::str_eq(
        key,
        "tree",
    )
}

/// Whether the registry `registry` has the known object types under
/// their keys, with the ids 0 to 3, their initialisers and no update
/// behaviour.
pub open spec fn provides_known_types(registry: GameObjectTypes) -> bool {
    &&& registry.types().len() >= 4
    &&& forall|i: int|
        0 <= i < 4 ==> {
            &&& registry.key_ids().contains_key((#[trigger] spec_types()[i]).key@)
            &&& registry.key_ids()[spec_types()[i].key@] == i
            &&& registry.init_fns()[i] == spec_types()[i].init
            &&& registry.types()[i].update_fn_id is None
        }
}

/// Builders whose keys are not those of the known object types, put after
/// the builders of these, leave the known keys their ids.
pub proof fn lemma_known_types_first(extra: Seq<GameObjectTypeBuilder>)
    requires
        forall|j: int| 0 <= j < extra.len() ==> !is_known_key(#[trigger] extra[j].key@),
    ensures
        forall|i: int|
            0 <= i < 4 ==> {
                &&& key_table(spec_types() + extra).contains_key((#[trigger] spec_types()[i]).key@)
                &&& key_table(spec_types() + extra)[spec_types()[i].key@] == i
            },
    decreases extra.len(),
{
    lemma_types();
    let all = spec_types() + extra;
    if extra.len() == 0 {
        assert(all =~= spec_types());
    } else {
        lemma_known_types_first(extra.drop_last());
        assert(all.drop_last() =~= spec_types() + extra.drop_last());
        assert(all.last() == extra.last());
        assert(!is_known_key(extra[extra.len() - 1].key@));
    }
    assert(spec_types()[0].key@ == "player"@);
    assert(spec_types()[1].key@ == "test"@);
    assert(spec_types()[2].key@ == "test_tile"@);
    assert(spec_types()[3].key@ == "tree"@);
}

/// A registry that is compiled from the builders of the known object
/// types and then others, under other keys, provides the known object
/// types.
pub proof fn lemma_provides(registry: GameObjectTypes, extra: Seq<GameObjectTypeBuilder>)
    requires
        registry.compiled_from(spec_types() + extra),
        forall|j: int| 0 <= j < extra.len() ==> !is_known_key(#[trigger] extra[j].key@),
    ensures
        provides_known_types(registry),
{
    lemma_known_types_first(extra);
    let all = spec_types() + extra;
    assert forall|i: int| 0 <= i < 4 implies {
        &&& registry.key_ids().contains_key((#[trigger] spec_types()[i]).key@)
        &&& registry.key_ids()[spec_types()[i].key@] == i
        &&& registry.init_fns()[i] == spec_types()[i].init
        &&& registry.types()[i].update_fn_id is None
    } by {
        assert(all[i] == spec_types()[i]);
        assert(registry.types()[i] == compiled_type(all, i));
        assert(spec_types()[i].update is None);
    }
}

/// The ids and the initialisers of the known object types, and that none
/// of them has an update behaviour.
pub proof fn lemma_types()
    ensures
        spec_types().len() == 4,
        key_table(spec_types()).contains_key("player"@),
        key_table(spec_types()).contains_key("test"@),
        key_table(spec_types()).contains_key("test_tile"@),
        key_table(spec_types()).contains_key("tree"@),
        key_table(spec_types())["player"@] == 0,
        key_table(spec_types())["test"@] == 1,
        key_table(spec_types())["test_tile"@] == 2,
        key_table(spec_types())["tree"@] == 3,
        update_table(spec_types()).len() == 0,
        forall|i: int| 0 <= i < 4 ==> (#[trigger] compiled_type(spec_types(), i)).update_fn_id is None,
{
    reveal_strlit("player");
    reveal_strlit("test");
    reveal_strlit("test_tile");
    reveal_strlit("tree");
    let t4 = spec_types();
    let t3 = t4.drop_last();
    let t2 = t3.drop_last();
    let t1 = t2.drop_last();
    let t0 = t1.drop_last();
    assert(t0.len() == 0);
    assert(key_table(t0) == Map::<Seq<char>, u8>::empty());
    assert(key_table(t1) == key_table(t0).insert("player"@, 0u8));
    assert(key_table(t2) == key_table(t1).insert("test"@, 1u8));
    assert(key_table(t3) == key_table(t2).insert("test_tile"@, 2u8));
    assert(key_table(t4) == key_table(t3).insert("tree"@, 3u8));
    assert("player"@.len() == 6);
    assert("test"@.len() == 4);
    assert("test_tile"@.len() == 9);
    assert("tree"@.len() == 4);
    assert("test"@[1] == 'e');
    assert("tree"@[1] == 'r');
    assert("test"@ != "tree"@);
    assert("player"@ != "test"@);
    assert("player"@ != "tree"@);
    assert("player"@ != "test_tile"@);
    assert("test_tile"@ != "test"@);
    assert("test_tile"@ != "tree"@);
    assert(update_table(t0).len() == 0);
    assert(update_table(t1).len() == 0);
    assert(update_table(t2).len() == 0);
    assert(update_table(t3).len() == 0);
    assert(update_table(t4).len() == 0);
}

} // verus!

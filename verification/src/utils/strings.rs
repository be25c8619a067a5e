use vstd::prelude::*;

verus! {

/// Whether two string slices hold the same characters.
///
/// Calls `==` of `str`, which compares the two slices byte by byte; two
/// slices of valid UTF-8 hold the same bytes exactly when they hold the same
/// characters.
#[verifier::external_body]
pub(crate) fn str_eq(a: &str, b: &str) -> (r: bool)
    ensures
        r == (a@ == b@),
{
    a == b
}

/// The strings that occur in `names`.
pub open spec fn name_set(names: Seq<&'static str>) -> Set<Seq<char>> {
    Set::new(|k: Seq<char>| exists|i: int| 0 <= i < names.len() && #[trigger] names[i]@ == k)
}

/// Whether `key` occurs in `names`.
pub(crate) fn has_name(names: &Vec<&'static str>, key: &str) -> (r: bool)
    ensures
        r == name_set(names@).contains(key@),
{
    let mut i: usize = 0;
    while i < names.len()
        invariant
            i <= names.len(),
            forall|j: int| 0 <= j < i ==> names[j]@ != key@,
        decreases names.len() - i,
    {
        if str_eq(names[i], key) {
            return true;
        }
        i += 1;
    }
    false
}

/// The names of a sequence with one more name are those of the sequence
/// and that name.
pub proof fn lemma_name_set_push(names: Seq<&'static str>, name: &'static str)
    ensures
        name_set(names.push(name)) == name_set(names).insert(name@),
{
    let longer = names.push(name);
    assert forall|k: Seq<char>| name_set(longer).contains(k) <==> name_set(names).insert(
        name@,
    ).contains(k) by {
        if name_set(longer).contains(k) {
            let i = choose|i: int| 0 <= i < longer.len() && #[trigger] longer[i]@ == k;
            if i < names.len() {
                assert(names[i]@ == k);
            }
        }
        if name_set(names).contains(k) {
            let i = choose|i: int| 0 <= i < names.len() && #[trigger] names[i]@ == k;
            assert(longer[i]@ == k);
        }
        if k == name@ {
            assert(longer[names.len() as int]@ == k);
        }
    }
    assert(name_set(longer) =~= name_set(names).insert(name@));
}

/// No name occurs in the empty sequence.
pub proof fn lemma_name_set_empty()
    ensures
        name_set(Seq::<&'static str>::empty()) == Set::<Seq<char>>::empty(),
{
    assert(name_set(Seq::<&'static str>::empty()) =~= Set::<Seq<char>>::empty());
}

/// Adds `key` to the names of `names` unless it is one of them.
pub(crate) fn insert_name(names: &mut Vec<&'static str>, key: &'static str)
    ensures
        name_set(final(names)@) == name_set(old(names)@).insert(key@),
{
    if !has_name(names, key) {
        proof {
            lemma_name_set_push(names@, key);
        }
        names.push(key);
    } else {
        assert(name_set(names@) =~= name_set(names@).insert(key@));
    }
}

/// Takes `key` out of the names of `names`.
pub(crate) fn remove_name(names: &mut Vec<&'static str>, key: &str)
    ensures
        name_set(final(names)@) == name_set(old(names)@).remove(key@),
{
    let mut kept: Vec<&'static str> = Vec::new();
    let mut i: usize = 0;
    proof {
        lemma_name_set_empty();
        assert(names@.subrange(0, 0) =~= Seq::<&'static str>::empty());
        assert(name_set(kept@) =~= name_set(names@.subrange(0, 0)).remove(key@));
    }
    while i < names.len()
        invariant
            i <= names.len(),
            name_set(kept@) == name_set(names@.subrange(0, i as int)).remove(key@),
        decreases names.len() - i,
    {
        let name = names[i];
        proof {
            assert(names@.subrange(0, i + 1) =~= names@.subrange(0, i as int).push(name));
            lemma_name_set_push(names@.subrange(0, i as int), name);
        }
        if !str_eq(name, key) {
            proof {
                lemma_name_set_push(kept@, name);
            }
            kept.push(name);
        }
        i += 1;
        assert(name_set(kept@) =~= name_set(names@.subrange(0, i as int)).remove(key@));
    }
    proof {
        assert(names@.subrange(0, i as int) =~= names@);
    }
    *names = kept;
}

} // verus!

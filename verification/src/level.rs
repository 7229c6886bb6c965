//! How the level file's mesh names are read: which meshes are triggers, doors,
//! props or item spawns, and what the items are called.
use vstd::prelude::*;
use vstd::string::StrSliceExecFns;
use crate::obj_format::{first_index_of, lemma_first_index_of};
use crate::rng::random_index;
use crate::text::{chars_of, contains, has_infix, has_prefix, same_text, starts_with};

verus! {

/// Meshes the game does not draw: room outlines and window holes.
pub fn is_hidden_mesh(name: &str) -> (res: bool)
    ensures
        res == (has_prefix(name@, "RDC_"@) || has_prefix(name@, "H_"@)),
{
    starts_with(name, "RDC_") || starts_with(name, "H_")
}

/// The trigger volume a mesh marks: `TC_<name>` marks `<name>`, and `GhostSpawn` marks itself.
pub fn trigger_name(name: &str) -> (res: Option<String>)
    ensures
        match res {
            Some(t) => (has_prefix(name@, "TC_"@) && t@ == name@.skip(3)) || (!has_prefix(name@, "TC_"@) && name@
                == "GhostSpawn"@ && t@ == name@),
            None => !has_prefix(name@, "TC_"@) && name@ != "GhostSpawn"@,
        },
{
    if starts_with(name, "TC_") {
        proof {
            reveal_strlit("TC_");
        }
        let len = name.unicode_len();
        Some(name.substring_char(3, len).to_owned())
    } else if same_text(name, "GhostSpawn") {
        Some(name.to_owned())
    } else {
        None
    }
}

/// The room a room outline marks: `RDC_<room>` marks `<room>`.
pub fn room_name(name: &str) -> (res: Option<String>)
    ensures
        match res {
            Some(r) => has_prefix(name@, "RDC_"@) && r@ == name@.skip(4),
            None => !has_prefix(name@, "RDC_"@),
        },
{
    if starts_with(name, "RDC_") {
        proof {
            reveal_strlit("RDC_");
        }
        let len = name.unicode_len();
        Some(name.substring_char(4, len).to_owned())
    } else {
        None
    }
}

/// Doors hinged on the right: `D_` and `DR_` meshes.
pub fn is_right_door(name: &str) -> (res: bool)
    ensures
        res == (has_prefix(name@, "D_"@) || has_prefix(name@, "DR_"@)),
{
    starts_with(name, "D_") || starts_with(name, "DR_")
}

/// Doors hinged on the left: `DL_` meshes.
pub fn is_left_door(name: &str) -> (res: bool)
    ensures
        res == has_prefix(name@, "DL_"@),
{
    starts_with(name, "DL_")
}

/// Props the player can use: `I_` meshes and the singing girl.
pub fn is_prop(name: &str) -> (res: bool)
    ensures
        res == (has_prefix(name@, "I_"@) || has_prefix(name@, "B_SingingGirl"@)),
{
    starts_with(name, "I_") || starts_with(name, "B_SingingGirl")
}

/// What a usable prop becomes in the level.
#[derive(Clone, Copy, PartialEq, Eq, Structural, Debug, Hash)]
pub enum PropKind {
    /// A storage lock button: one interactable for each of the four symbols.
    StorageButton,
    /// A loose plank: only some of them are put in the house.
    LoosePlank,
    /// A library bookshelf, which does not move.
    Bookshelf,
    /// A drawer, pulled out along its front.
    Drawer,
}

/// What the prop `name` becomes.
pub fn prop_kind(name: &str) -> (res: PropKind)
    ensures
        res == if has_prefix(name@, "I_StorageButtonIcon"@) {
            PropKind::StorageButton
        } else if has_prefix(name@, "I_LoosePlank"@) {
            PropKind::LoosePlank
        } else if has_infix(name@, "BookshelfLibrary"@) {
            PropKind::Bookshelf
        } else {
            PropKind::Drawer
        },
{
    if starts_with(name, "I_StorageButtonIcon") {
        PropKind::StorageButton
    } else if starts_with(name, "I_LoosePlank") {
        PropKind::LoosePlank
    } else if contains(name, "BookshelfLibrary") {
        PropKind::Bookshelf
    } else {
        PropKind::Drawer
    }
}

/// Study keys, of which the player must find the one matching the hint: every item
/// with `StudyKey` in its name.
pub fn is_study_key(name: &str) -> (res: bool)
    ensures
        res == has_infix(name@, "StudyKey"@),
{
    contains(name, "StudyKey")
}

/// The item a `Spawn_` mesh places: the rest of the name, cut at the first `.`
/// unless it is a study key.
pub open spec fn spawned_item_name(name: Seq<char>) -> Seq<char> {
    let rest = name.skip(6);
    if has_infix(rest, "StudyKey"@) {
        rest
    } else {
        rest.take(first_index_of(rest, '.') as int)
    }
}

/// The item a mesh places, if it is a `Spawn_` mesh.
pub fn spawned_item(name: &str) -> (res: Option<String>)
    ensures
        match res {
            Some(item) => has_prefix(name@, "Spawn_"@) && item@ == spawned_item_name(name@),
            None => !has_prefix(name@, "Spawn_"@),
        },
{
    if !starts_with(name, "Spawn_") {
        return None;
    }
    proof {
        reveal_strlit("Spawn_");
    }
    let len = name.unicode_len();
    let rest = name.substring_char(6, len);
    if contains(rest, "StudyKey") {
        return Some(rest.to_owned());
    }
    let chars = chars_of(rest);
    let mut end: usize = 0;
    while end < chars.len() && chars[end] != '.'
        invariant
            end <= chars.len(),
            chars@ == rest@,
            forall|i: int| 0 <= i < end ==> chars@[i] != '.',
        decreases chars.len() - end,
    {
        end = end + 1;
    }
    proof {
        lemma_first_index_of(rest@, '.', end as int);
    }
    Some(rest.substring_char(0, end).to_owned())
}

/// Moves `count` elements, each drawn at random among those still in `pool`, from
/// `pool` to the end of `chosen`.
pub fn take_random<T>(pool: &mut Vec<T>, chosen: &mut Vec<T>, count: usize)
    requires
        count <= old(pool).len(),
    ensures
        final(pool).len() + count == old(pool).len(),
        final(chosen).len() == old(chosen).len() + count,
        final(chosen)@.take(old(chosen).len() as int) == old(chosen)@,
        old(pool)@.to_multiset() == final(pool)@.to_multiset().add(final(chosen)@.skip(old(chosen).len() as int).to_multiset()),
{
    let ghost pool0 = pool@;
    let ghost chosen0 = chosen@;
    proof {
        assert(chosen@.skip(chosen0.len() as int) =~= Seq::<T>::empty());
        assert(chosen@.take(chosen0.len() as int) =~= chosen0);
        broadcast use vstd::multiset::group_multiset_axioms;
        vstd::seq_lib::to_multiset_len(Seq::<T>::empty());
        vstd::multiset::lemma_multiset_empty_len(Seq::<T>::empty().to_multiset());
        assert(pool0.to_multiset() =~= pool@.to_multiset().add(Seq::<T>::empty().to_multiset()));
    }
    let mut n: usize = 0;
    while n < count
        invariant
            n <= count,
            count <= pool0.len(),
            pool.len() + n == pool0.len(),
            chosen.len() == chosen0.len() + n,
            chosen@.take(chosen0.len() as int) == chosen0,
            pool0.to_multiset() == pool@.to_multiset().add(chosen@.skip(chosen0.len() as int).to_multiset()),
        decreases count - n,
    {
        let i = random_index(pool.len());
        let ghost before = pool@;
        let ghost cbefore = chosen@;
        let item = pool.remove(i);
        chosen.push(item);
        proof {
            broadcast use vstd::multiset::group_multiset_axioms;
            let tail0 = cbefore.skip(chosen0.len() as int);
            let tail1 = chosen@.skip(chosen0.len() as int);
            assert(tail1 =~= tail0.push(item));
            assert(chosen@.take(chosen0.len() as int) =~= cbefore.take(chosen0.len() as int));
            vstd::seq_lib::to_multiset_remove(before, i as int);
            vstd::seq_lib::to_multiset_build(tail0, item);
            vstd::seq_lib::to_multiset_contains(before, item);
            assert(pool@ == before.remove(i as int));
            assert(before.to_multiset().count(item) > 0) by {
                assert(before.contains(item)) by {
                    assert(before[i as int] == item);
                }
            }
            assert(pool0.to_multiset() =~= pool@.to_multiset().add(tail1.to_multiset()));
        }
        n = n + 1;
    }
}

} // verus!

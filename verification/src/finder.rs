//! Choosing among what was found on disk: which candidate game directories
//! are there, and which directories of the mods folder are add-ons.

use crate::text::contains;
use crate::text::occurs_in;
use vstd::prelude::*;

verus! {

/// `paths` without those that are not there: a path stays where its flag in
/// `present`, at the same position, is set.
pub open spec fn existing(paths: Seq<Seq<char>>, present: Seq<bool>) -> Seq<Seq<char>>
    decreases paths.len(),
{
    if paths.len() == 0 {
        paths
    } else {
        let earlier = existing(paths.drop_last(), present);
        if paths.len() <= present.len() && present[paths.len() - 1] {
            earlier.push(paths.last())
        } else {
            earlier
        }
    }
}

/// The directory belongs to the injector and is no add-on.
pub open spec fn injector_dir(path: Seq<char>) -> bool {
    occurs_in(path, ".lovely"@) || occurs_in(path, "lovely"@)
}

/// The directories of `entries` that are add-ons, in their order.
pub open spec fn add_on_dirs(entries: Seq<Seq<char>>) -> Seq<Seq<char>> {
    entries.filter(|path: Seq<char>| !injector_dir(path))
}

/// The characters of each path of a list.
pub open spec fn paths_view(paths: Seq<String>) -> Seq<Seq<char>> {
    paths.map_values(|p: String| p@)
}

/// Takes out of `paths` every path that is not there. `present` says of each
/// path, by position, whether it is; a path without a flag counts as absent.
pub fn remove_unexisting_paths(paths: &mut Vec<String>, present: &Vec<bool>)
    ensures
        paths_view(final(paths)@) == existing(paths_view(old(paths)@), present@),
{
    let mut all: Vec<String> = Vec::new();
    core::mem::swap(&mut all, paths);
    let ghost source = paths_view(all@);
    let mut i: usize = 0;
    proof {
        assert(source.take(0) =~= Seq::<Seq<char>>::empty());
        assert(paths_view(paths@) =~= Seq::<Seq<char>>::empty());
    }
    while i < all.len()
        invariant
            i <= all.len(),
            source == paths_view(all@),
            paths_view(paths@) == existing(source.take(i as int), present@),
        decreases all.len() - i,
    {
        let ghost before = paths_view(paths@);
        proof {
            assert(source.take(i + 1).drop_last() =~= source.take(i as int));
            assert(source.take(i + 1).last() == all@[i as int]@);
        }
        if i < present.len() && present[i] {
            paths.push(all[i].clone());
            assert(paths_view(paths@) =~= before.push(all@[i as int]@));
        }
        i += 1;
    }
    assert(source.take(i as int) =~= source);
}

/// The installed add-ons among the directories of the mods folder: every
/// directory but those of the injector, in the order given.
pub fn get_installed_mods(entries: Vec<String>) -> (mods: Vec<String>)
    ensures
        paths_view(mods@) == add_on_dirs(paths_view(entries@)),
{
    let ghost source = paths_view(entries@);
    let ghost keep = |path: Seq<char>| !injector_dir(path);
    let mut mods: Vec<String> = Vec::new();
    let mut i: usize = 0;
    proof {
        reveal(Seq::filter);
        assert(source.take(0) =~= Seq::<Seq<char>>::empty());
        assert(paths_view(mods@) =~= source.take(0).filter(keep));
    }
    while i < entries.len()
        invariant
            i <= entries.len(),
            source == paths_view(entries@),
            keep == |path: Seq<char>| !injector_dir(path),
            paths_view(mods@) == source.take(i as int).filter(keep),
        decreases entries.len() - i,
    {
        let ghost before = paths_view(mods@);
        proof {
            assert(source.take(i + 1) =~= source.take(i as int).push(source[i as int]));
            source.take(i as int).lemma_filter_push(source[i as int], keep);
        }
        let path = entries[i].as_str();
        if !contains(path, ".lovely") && !contains(path, "lovely") {
            mods.push(entries[i].clone());
            assert(paths_view(mods@) =~= before.push(source[i as int]));
        }
        i += 1;
    }
    assert(source.take(i as int) =~= source);
    mods
}

} // verus!

//! The rules by which the two mod loaders are found, fetched and removed:
//! which repository a loader comes from, which release tags count as
//! versions, where an archive is downloaded from, and which directories of
//! the mods folder belong to a loader.

use crate::codec::texts;
use crate::text::begins_with;
use crate::text::contains;
use crate::text::occurs_in;
use crate::text::lemma_text_lt_total;
use crate::text::lemma_text_lt_trans;
use crate::text::lowercase;
use crate::text::starts_with;
use crate::text::str_lt;
use crate::text::text_lt;
use crate::text::to_lowercase;
use vstd::prelude::*;
use vstd::string::StringExecFns;

verus! {

/// A mod loader that the manager installs.
#[derive(Debug, Clone, Copy, PartialEq, Eq)]
pub enum ModType {
    Steamodded,
    Talisman,
}

/// A release of a repository, as far as the manager looks at it.
#[derive(Debug, Clone, PartialEq, Eq)]
pub struct Release {
    pub tag_name: String,
    pub prerelease: bool,
}

/// The repository that a loader comes from.
pub open spec fn repo_of(mod_type: ModType) -> Seq<char> {
    match mod_type {
        ModType::Steamodded => "Steamodded/smods"@,
        ModType::Talisman => "MathIsFun0/Talisman"@,
    }
}

/// The name of a loader.
pub open spec fn name_of(mod_type: ModType) -> Seq<char> {
    match mod_type {
        ModType::Steamodded => "Steamodded"@,
        ModType::Talisman => "Talisman"@,
    }
}

/// A directory of that name holds the loader.
pub open spec fn holds_loader(mod_type: ModType, dir_name: Seq<char>) -> bool {
    match mod_type {
        ModType::Steamodded => begins_with(dir_name, "Steamodded-smods-"@),
        ModType::Talisman => occurs_in(dir_name, "Talisman"@),
    }
}

/// One of the directories holds the loader.
pub open spec fn installed_among(mod_type: ModType, dir_names: Seq<Seq<char>>) -> bool {
    exists|i: int| 0 <= i < dir_names.len() && holds_loader(mod_type, #[trigger] dir_names[i])
}

/// A directory is one of the loader's, given its name and the name in lower
/// case: the loader's name occurs in it, whatever the case, or it begins as
/// the loader's archives do.
pub open spec fn loader_dir(lower: Seq<char>, dir_name: Seq<char>) -> bool {
    occurs_in(lower, "steamodded"@) || begins_with(dir_name, "smods-"@) || begins_with(
        dir_name,
        "Steamodded-smods-"@,
    )
}

/// Uninstalling removes a directory of that name.
pub open spec fn removed_on_uninstall(dir_name: Seq<char>) -> bool {
    loader_dir(lowercase(dir_name), dir_name)
}

/// The address that lists the releases of a loader.
pub open spec fn releases_address(mod_type: ModType) -> Seq<char> {
    "https://api.github.com/repos/"@ + repo_of(mod_type) + "/releases"@
}

/// The address that describes the repository of a loader.
pub open spec fn repository_address(mod_type: ModType) -> Seq<char> {
    "https://api.github.com/repos/"@ + repo_of(mod_type)
}

/// The address of the archive of a tagged version of a loader.
pub open spec fn tag_archive(mod_type: ModType, version: Seq<char>) -> Seq<char> {
    "https://github.com/"@ + repo_of(mod_type) + "/archive/refs/tags/"@ + version + ".zip"@
}

/// The address of the archive of a branch of a loader.
pub open spec fn branch_archive(mod_type: ModType, branch: Seq<char>) -> Seq<char> {
    "https://github.com/"@ + repo_of(mod_type) + "/archive/refs/heads/"@ + branch + ".zip"@
}

/// The tags of the releases that are no pre-releases, in their order.
pub open spec fn stable_tags(releases: Seq<(Seq<char>, bool)>) -> Seq<Seq<char>> {
    releases.filter(|r: (Seq<char>, bool)| !r.1).map_values(|r: (Seq<char>, bool)| r.0)
}

/// The tags stand from the last in order down to the first.
pub open spec fn descending(tags: Seq<Seq<char>>) -> bool {
    forall|i: int, j: int| 0 <= i < j < tags.len() ==> !text_lt(#[trigger] tags[i], #[trigger] tags[j])
}

/// Each release as its tag and whether it is a pre-release.
pub open spec fn releases_view(releases: Seq<Release>) -> Seq<(Seq<char>, bool)> {
    releases.map_values(|r: Release| (r.tag_name@, r.prerelease))
}

impl ModType {
    /// The repository that the loader comes from.
    pub fn get_repo_url(&self) -> (repo: &'static str)
        ensures
            repo@ == repo_of(*self),
    {
        match self {
            ModType::Steamodded => "Steamodded/smods",
            ModType::Talisman => "MathIsFun0/Talisman",
        }
    }

    /// The name of the loader.
    pub fn name(&self) -> (name: &'static str)
        ensures
            name@ == name_of(*self),
    {
        match self {
            ModType::Steamodded => "Steamodded",
            ModType::Talisman => "Talisman",
        }
    }

    /// Whether a directory of that name holds the loader.
    pub fn matches_dir(&self, dir_name: &str) -> (yes: bool)
        ensures
            yes == holds_loader(*self, dir_name@),
    {
        match self {
            ModType::Steamodded => starts_with(dir_name, "Steamodded-smods-"),
            ModType::Talisman => contains(dir_name, "Talisman"),
        }
    }

    /// Whether the loader is installed, given the names of the entries of
    /// the mods folder.
    pub fn check_installation(&self, dir_names: &Vec<String>) -> (yes: bool)
        ensures
            yes == installed_among(*self, texts(dir_names@)),
    {
        let mut i: usize = 0;
        while i < dir_names.len()
            invariant
                i <= dir_names.len(),
                forall|j: int| 0 <= j < i ==> !holds_loader(*self, #[trigger] texts(dir_names@)[j]),
            decreases dir_names.len() - i,
        {
            if self.matches_dir(dir_names[i].as_str()) {
                assert(holds_loader(*self, texts(dir_names@)[i as int]));
                return true;
            }
            i += 1;
        }
        false
    }

    /// The address that lists the releases of the loader.
    pub fn releases_url(&self) -> (url: String)
        ensures
            url@ == releases_address(*self),
    {
        let mut url = String::from_str("https://api.github.com/repos/");
        url.append(self.get_repo_url());
        url.append("/releases");
        url
    }

    /// The address that describes the repository of the loader.
    pub fn repository_url(&self) -> (url: String)
        ensures
            url@ == repository_address(*self),
    {
        let mut url = String::from_str("https://api.github.com/repos/");
        url.append(self.get_repo_url());
        url
    }

    /// The address of the archive of a tagged version of the loader.
    pub fn tag_archive_url(&self, version: &str) -> (url: String)
        ensures
            url@ == tag_archive(*self, version@),
    {
        let mut url = String::from_str("https://github.com/");
        url.append(self.get_repo_url());
        url.append("/archive/refs/tags/");
        url.append(version);
        url.append(".zip");
        url
    }

    /// The address of the archive of a branch of the loader.
    pub fn branch_archive_url(&self, branch: &str) -> (url: String)
        ensures
            url@ == branch_archive(*self, branch@),
    {
        let mut url = String::from_str("https://github.com/");
        url.append(self.get_repo_url());
        url.append("/archive/refs/heads/");
        url.append(branch);
        url.append(".zip");
        url
    }

    /// The directory, inside the mods folder, into which an archive of the
    /// loader is unpacked before it is moved to its place.
    pub fn temp_dir_name(&self) -> (name: &'static str)
        ensures
            name@ == match *self {
                ModType::Steamodded => "temp_smods"@,
                ModType::Talisman => "temp_talisman"@,
            },
    {
        match self {
            ModType::Steamodded => "temp_smods",
            ModType::Talisman => "temp_talisman",
        }
    }

    /// The directory, inside the mods folder, in which the loader ends up,
    /// given the name of the root directory of its archive.
    pub fn final_dir_name(&self, root_dir: &str) -> (name: String)
        ensures
            name@ == match *self {
                ModType::Steamodded => root_dir@,
                ModType::Talisman => "Talisman"@,
            },
    {
        match self {
            ModType::Steamodded => root_dir.to_owned(),
            ModType::Talisman => String::from_str("Talisman"),
        }
    }
}

/// Whether a directory is one of the loader's, given its name and the name
/// in lower case.
pub fn is_loader_dir(lower: &str, dir_name: &str) -> (yes: bool)
    ensures
        yes == loader_dir(lower@, dir_name@),
{
    contains(lower, "steamodded") || starts_with(dir_name, "smods-") || starts_with(
        dir_name,
        "Steamodded-smods-",
    )
}

/// Whether uninstalling removes a directory of that name.
pub fn is_removed_on_uninstall(dir_name: &str) -> (yes: bool)
    ensures
        yes == removed_on_uninstall(dir_name@),
{
    let lower = to_lowercase(dir_name);
    is_loader_dir(lower.as_str(), dir_name)
}

/// The tags of the releases that are no pre-releases, in their order.
pub fn stable_versions(releases: &Vec<Release>) -> (tags: Vec<String>)
    ensures
        texts(tags@) == stable_tags(releases_view(releases@)),
{
    let ghost source = releases_view(releases@);
    let ghost keep = |r: (Seq<char>, bool)| !r.1;
    let ghost tag = |r: (Seq<char>, bool)| r.0;
    let mut tags: Vec<String> = Vec::new();
    let mut i: usize = 0;
    proof {
        reveal(Seq::filter);
        assert(source.take(0) =~= Seq::<(Seq<char>, bool)>::empty());
        assert(texts(tags@) =~= source.take(0).filter(keep).map_values(tag));
    }
    while i < releases.len()
        invariant
            i <= releases.len(),
            source == releases_view(releases@),
            keep == |r: (Seq<char>, bool)| !r.1,
            tag == |r: (Seq<char>, bool)| r.0,
            texts(tags@) == source.take(i as int).filter(keep).map_values(tag),
        decreases releases.len() - i,
    {
        let ghost before = texts(tags@);
        proof {
            assert(source.take(i + 1) =~= source.take(i as int).push(source[i as int]));
            source.take(i as int).lemma_filter_push(source[i as int], keep);
        }
        if !releases[i].prerelease {
            tags.push(releases[i].tag_name.clone());
            assert(texts(tags@) =~= before.push(source[i as int].0));
            assert(source.take(i + 1).filter(keep).map_values(tag) =~= before.push(
                source[i as int].0,
            ));
        }
        i += 1;
    }
    assert(source.take(i as int) =~= source);
    tags
}

/// Puts `tag` into `sorted` where it belongs, so that the tags keep standing
/// from the last in order down to the first.
fn insert_descending(sorted: &mut Vec<String>, tag: String)
    requires
        descending(texts(old(sorted)@)),
    ensures
        descending(texts(final(sorted)@)),
        texts(final(sorted)@).to_multiset() == texts(old(sorted)@).to_multiset().insert(tag@),
{
    let ghost before = texts(sorted@);
    let mut at: usize = 0;
    while at < sorted.len() && !str_lt(sorted[at].as_str(), tag.as_str())
        invariant
            at <= sorted.len(),
            texts(sorted@) == before,
            forall|j: int| 0 <= j < at ==> !text_lt(#[trigger] before[j], tag@),
        decreases sorted.len() - at,
    {
        at += 1;
    }
    sorted.insert(at, tag);
    proof {
        let after = texts(sorted@);
        assert(after =~= before.insert(at as int, tag@));
        vstd::seq_lib::to_multiset_insert(before, at as int, tag@);
        assert forall|i: int, j: int| 0 <= i < j < after.len() implies !text_lt(
            #[trigger] after[i],
            #[trigger] after[j],
        ) by {
            if j < at {
                assert(!text_lt(before[i], before[j]));
            } else if j == at {
                assert(!text_lt(before[i], tag@));
            } else if i < at {
                assert(!text_lt(before[i], before[j - 1]));
            } else if i == at {
                // what follows the new tag comes before it
                assert(text_lt(before[at as int], tag@));
                if j - 1 > at {
                    assert(!text_lt(before[at as int], before[j - 1]));
                }
                lemma_text_lt_total(before[at as int], before[j - 1]);
                if text_lt(tag@, before[j - 1]) {
                    if before[j - 1] == before[at as int] {
                        lemma_text_lt_total(tag@, before[at as int]);
                    } else {
                        lemma_text_lt_trans(before[j - 1], before[at as int], tag@);
                        lemma_text_lt_total(tag@, before[j - 1]);
                    }
                }
            } else {
                assert(!text_lt(before[i - 1], before[j - 1]));
            }
        }
    }
}

/// The tags in descending order.
pub fn sort_descending(tags: Vec<String>) -> (sorted: Vec<String>)
    ensures
        descending(texts(sorted@)),
        texts(sorted@).to_multiset() == texts(tags@).to_multiset(),
{
    let ghost source = texts(tags@);
    let mut sorted: Vec<String> = Vec::new();
    let mut i: usize = 0;
    proof {
        assert(source.take(0) =~= Seq::<Seq<char>>::empty());
        assert(texts(sorted@) =~= Seq::<Seq<char>>::empty());
    }
    while i < tags.len()
        invariant
            i <= tags.len(),
            source == texts(tags@),
            descending(texts(sorted@)),
            texts(sorted@).to_multiset() == source.take(i as int).to_multiset(),
        decreases tags.len() - i,
    {
        proof {
            assert(source.take(i + 1) =~= source.take(i as int).push(source[i as int]));
            vstd::seq_lib::to_multiset_build(source.take(i as int), source[i as int]);
        }
        insert_descending(&mut sorted, tags[i].clone());
        i += 1;
    }
    assert(source.take(i as int) =~= source);
    sorted
}

/// The versions of a loader that can be installed: the tags of its releases
/// that are no pre-releases, from the last in order down to the first.
pub fn get_available_versions(releases: &Vec<Release>) -> (versions: Vec<String>)
    ensures
        descending(texts(versions@)),
        texts(versions@).to_multiset() == stable_tags(releases_view(releases@)).to_multiset(),
{
    sort_descending(stable_versions(releases))
}

/// The latest release among the versions that can be installed: the first
/// of them, if there is any.
pub fn get_latest_release(versions: &Vec<String>) -> (latest: Option<String>)
    ensures
        match latest {
            Some(version) => versions@.len() > 0 && version@ == versions@[0]@,
            None => versions@.len() == 0,
        },
{
    if versions.len() > 0 {
        Some(versions[0].clone())
    } else {
        None
    }
}

} // verus!

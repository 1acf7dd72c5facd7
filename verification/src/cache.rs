//! The cache of remote data: the add-on catalog and the version lists of the
//! mod loaders, each kept for a quarter of an hour.
//!
//! A cache file is a gzip stream of an envelope: a format version, the time
//! of writing in seconds, and the payload. The library turns a payload into
//! the bytes of such a file and the bytes back into the payload; reading the
//! clock and the file is left to whoever embeds it. A file that cannot be
//! read for any reason, or is too old, is a miss and never an error.

use crate::codec::catalog_decoding;
use crate::codec::catalog_encoding;
use crate::codec::decode_catalog;
use crate::codec::decode_versions;
use crate::codec::encode_catalog;
use crate::codec::encode_versions;
use crate::codec::gunzip;
use crate::codec::gzip;
use crate::codec::gzip_content;
use crate::codec::gzip_stream;
use crate::codec::opt_text;
use crate::codec::row_view;
use crate::codec::rows_view;
use crate::codec::texts;
use crate::codec::versions_decoding;
use crate::codec::versions_encoding;
use crate::codec::ModRow;
use crate::codec::ModRowView;
use crate::codec::MAX_ENCODED_LEN;
use crate::errors::AppError;
use crate::errors::ErrorView;
use crate::text::copy_opt;
use crate::text::str_eq;
use vstd::prelude::*;
use vstd::string::StringExecFns;

verus! {

/// How long a cache file is good for, in seconds.
pub const CACHE_DURATION: u64 = 900;

/// The format version of the envelopes that this library reads and writes.
pub const CACHE_VERSION: u32 = 1;

/// The directory that holds the cache files, inside the cache directory.
pub const CACHE_DIR_NAME: &'static str = "bromomethane";

/// The file that holds the catalog.
pub const MODS_CACHE_FILE: &'static str = "mods.cache.bin.gz";

/// What an add-on is about.
#[derive(Debug, Clone, Copy, PartialEq, Eq, Hash)]
pub enum Category {
    Content,
    Joker,
    QualityOfLife,
    Technical,
    Miscellaneous,
    ResourcePacks,
    API,
}

/// The two colors in which an add-on is shown.
#[derive(Debug, Clone, PartialEq, Eq)]
pub struct ColorPair {
    pub color1: String,
    pub color2: String,
}

/// An entry of the catalog. Its categories are a set: the order in which
/// they stand says nothing, and none stands twice.
#[derive(Debug, Clone, PartialEq, Eq)]
pub struct Mod {
    pub title: String,
    pub description: String,
    pub image: Option<String>,
    pub categories: Vec<Category>,
    pub colors: ColorPair,
    pub installed: bool,
    pub requires_steamodded: bool,
    pub requires_talisman: bool,
    pub publisher: String,
    pub repo: String,
    pub download_url: String,
    pub folder_name: Option<String>,
    pub version: Option<String>,
    pub last_updated: u64,
}

/// A [`Mod`] with each text as its characters.
pub struct ModView {
    pub title: Seq<char>,
    pub description: Seq<char>,
    pub image: Option<Seq<char>>,
    pub categories: Seq<Category>,
    pub colors: (Seq<char>, Seq<char>),
    pub installed: bool,
    pub requires_steamodded: bool,
    pub requires_talisman: bool,
    pub publisher: Seq<char>,
    pub repo: Seq<char>,
    pub download_url: Seq<char>,
    pub folder_name: Option<Seq<char>>,
    pub version: Option<Seq<char>>,
    pub last_updated: u64,
}

impl View for Mod {
    type V = ModView;

    open spec fn view(&self) -> ModView {
        ModView {
            title: self.title@,
            description: self.description@,
            image: opt_text(self.image),
            categories: self.categories@,
            colors: (self.colors.color1@, self.colors.color2@),
            installed: self.installed,
            requires_steamodded: self.requires_steamodded,
            requires_talisman: self.requires_talisman,
            publisher: self.publisher@,
            repo: self.repo@,
            download_url: self.download_url@,
            folder_name: opt_text(self.folder_name),
            version: opt_text(self.version),
            last_updated: self.last_updated,
        }
    }
}

/// Each entry of a list with each text as its characters.
pub open spec fn mods_view(mods: Seq<Mod>) -> Seq<ModView> {
    mods.map_values(|m: Mod| m@)
}

/// The number that stands for a category in a cache file.
pub open spec fn category_index(category: Category) -> u32 {
    match category {
        Category::Content => 0,
        Category::Joker => 1,
        Category::QualityOfLife => 2,
        Category::Technical => 3,
        Category::Miscellaneous => 4,
        Category::ResourcePacks => 5,
        Category::API => 6,
    }
}

/// The category that a number stands for, if it stands for one.
pub open spec fn category_at(index: int) -> Option<Category> {
    if index == 0 {
        Some(Category::Content)
    } else if index == 1 {
        Some(Category::Joker)
    } else if index == 2 {
        Some(Category::QualityOfLife)
    } else if index == 3 {
        Some(Category::Technical)
    } else if index == 4 {
        Some(Category::Miscellaneous)
    } else if index == 5 {
        Some(Category::ResourcePacks)
    } else if index == 6 {
        Some(Category::API)
    } else {
        None
    }
}

/// The category that a name stands for, if it stands for one.
pub open spec fn category_named(name: Seq<char>) -> Option<Category> {
    if name == "Content"@ {
        Some(Category::Content)
    } else if name == "Joker"@ {
        Some(Category::Joker)
    } else if name == "Quality of Life"@ {
        Some(Category::QualityOfLife)
    } else if name == "Technical"@ {
        Some(Category::Technical)
    } else if name == "Miscellaneous"@ {
        Some(Category::Miscellaneous)
    } else if name == "Resource Packs"@ {
        Some(Category::ResourcePacks)
    } else if name == "API"@ {
        Some(Category::API)
    } else {
        None
    }
}

/// The categories that a list of numbers stands for, if each stands for one.
pub open spec fn categories_of(indices: Seq<u32>) -> Option<Seq<Category>>
    decreases indices.len(),
{
    if indices.len() == 0 {
        Some(Seq::empty())
    } else {
        match (categories_of(indices.drop_last()), category_at(indices.last() as int)) {
            (Some(earlier), Some(category)) => Some(earlier.push(category)),
            _ => None,
        }
    }
}

/// `categories` with each category kept where it stands first.
pub open spec fn deduped(categories: Seq<Category>) -> Seq<Category>
    decreases categories.len(),
{
    if categories.len() == 0 {
        categories
    } else {
        let earlier = deduped(categories.drop_last());
        if categories.drop_last().contains(categories.last()) {
            earlier
        } else {
            earlier.push(categories.last())
        }
    }
}

/// The entry can be written to a cache file and read back unchanged: none of
/// its categories stands twice.
pub open spec fn sound(entry: ModView) -> bool {
    entry.categories.no_duplicates()
}

/// Every entry of the catalog can be written and read back unchanged.
pub open spec fn catalog_sound(mods: Seq<ModView>) -> bool {
    forall|i: int| 0 <= i < mods.len() ==> sound(#[trigger] mods[i])
}

/// The row that is written for an entry.
pub open spec fn mod_row(entry: ModView) -> ModRowView {
    (
        (
            entry.title,
            entry.description,
            entry.image,
            entry.categories.map_values(|c: Category| category_index(c)),
        ),
        entry.colors,
        (entry.installed, entry.requires_steamodded, entry.requires_talisman),
        (entry.publisher, entry.repo, entry.download_url),
        (entry.folder_name, entry.version, entry.last_updated),
    )
}

/// The entry that a row is read as: nothing where one of its numbers stands
/// for no category.
pub open spec fn row_mod(row: ModRowView) -> Option<ModView> {
    match categories_of(row.0.3) {
        Some(categories) => Some(
            ModView {
                title: row.0.0,
                description: row.0.1,
                image: row.0.2,
                categories: deduped(categories),
                colors: row.1,
                installed: row.2.0,
                requires_steamodded: row.2.1,
                requires_talisman: row.2.2,
                publisher: row.3.0,
                repo: row.3.1,
                download_url: row.3.2,
                folder_name: row.4.0,
                version: row.4.1,
                last_updated: row.4.2,
            },
        ),
        None => None,
    }
}

/// The rows that are written for a catalog.
pub open spec fn mod_rows(mods: Seq<ModView>) -> Seq<ModRowView> {
    mods.map_values(|m: ModView| mod_row(m))
}

/// The catalog that rows are read as, if each row can be read.
pub open spec fn row_mods(rows: Seq<ModRowView>) -> Option<Seq<ModView>>
    decreases rows.len(),
{
    if rows.len() == 0 {
        Some(Seq::empty())
    } else {
        match (row_mods(rows.drop_last()), row_mod(rows.last())) {
            (Some(earlier), Some(entry)) => Some(earlier.push(entry)),
            _ => None,
        }
    }
}

/// The entry as it is read back from a cache file: with each of its
/// categories kept where it stands first.
pub open spec fn as_read(entry: ModView) -> ModView {
    ModView { categories: deduped(entry.categories), ..entry }
}

/// The catalog as it is read back from a cache file.
pub open spec fn catalog_as_read(mods: Seq<ModView>) -> Seq<ModView> {
    mods.map_values(|m: ModView| as_read(m))
}

/// The envelope is not too old at the time `now`: no more than
/// [`CACHE_DURATION`] seconds have passed since it was written.
pub open spec fn fresh(timestamp: u64, now: u64) -> bool {
    now - timestamp <= CACHE_DURATION
}

/// The envelope can be used at the time `now`: it has the format version of
/// this library and is not too old.
pub open spec fn usable(version: u32, timestamp: u64, now: u64) -> bool {
    version == CACHE_VERSION && fresh(timestamp, now)
}

/// What a catalog cache file gives at the time `now`: the catalog and the
/// time at which it was written, or nothing.
pub open spec fn cached_catalog(file: Seq<u8>, now: u64) -> Option<(Seq<ModView>, u64)> {
    match gzip_content(file) {
        Some(raw) => match catalog_decoding(raw) {
            Some((version, timestamp, rows)) => if usable(version, timestamp, now) {
                match row_mods(rows) {
                    Some(mods) => Some((mods, timestamp)),
                    None => None,
                }
            } else {
                None
            },
            None => None,
        },
        None => None,
    }
}

/// What a version cache file gives at the time `now`: the version tags, or
/// nothing.
pub open spec fn cached_versions(file: Seq<u8>, now: u64) -> Option<Seq<Seq<char>>> {
    match gzip_content(file) {
        Some(raw) => match versions_decoding(raw) {
            Some((version, timestamp, items)) => if usable(version, timestamp, now) {
                Some(items)
            } else {
                None
            },
            None => None,
        },
        None => None,
    }
}

/// The bytes of the cache file of a catalog written at the time `now`:
/// the encoded envelope, compressed; nothing where it cannot be compressed.
pub open spec fn catalog_file(mods: Seq<ModView>, now: u64) -> Option<Seq<u8>> {
    gzip_stream(catalog_encoding(CACHE_VERSION, now, mod_rows(mods)))
}

/// The bytes of the cache file of a list of version tags written at the time
/// `now`: the encoded envelope, compressed; nothing where it cannot be
/// compressed.
pub open spec fn versions_file(items: Seq<Seq<char>>, now: u64) -> Option<Seq<u8>> {
    gzip_stream(versions_encoding(CACHE_VERSION, now, items))
}

/// The encoded envelope of a catalog written at the time `now` is short
/// enough to be read back: no longer than [`MAX_ENCODED_LEN`].
pub open spec fn catalog_readable(mods: Seq<ModView>, now: u64) -> bool {
    catalog_encoding(CACHE_VERSION, now, mod_rows(mods)).len() <= MAX_ENCODED_LEN
}

/// The encoded envelope of a list of version tags written at the time `now`
/// is short enough to be read back: no longer than [`MAX_ENCODED_LEN`].
pub open spec fn versions_readable(items: Seq<Seq<char>>, now: u64) -> bool {
    versions_encoding(CACHE_VERSION, now, items).len() <= MAX_ENCODED_LEN
}

/// The name of the file that holds the version list of a mod loader.
pub open spec fn versions_file_name(mod_type: Seq<char>) -> Seq<char> {
    "versions-"@ + mod_type + ".cache.bin.gz"@
}

/// The place of a cache file inside the cache directory.
pub open spec fn cache_path(cache_dir: Seq<char>, file_name: Seq<char>) -> Seq<char> {
    cache_dir + "/"@ + CACHE_DIR_NAME@ + "/"@ + file_name
}

/// The numbers written for a list of categories are read back as the list.
pub proof fn lemma_categories_round_trip(categories: Seq<Category>)
    ensures
        categories_of(categories.map_values(|c: Category| category_index(c))) == Some(categories),
    decreases categories.len(),
{
    let indices = categories.map_values(|c: Category| category_index(c));
    if categories.len() == 0 {
        assert(categories =~= Seq::empty());
    } else {
        lemma_categories_round_trip(categories.drop_last());
        assert(indices.drop_last() =~= categories.drop_last().map_values(
            |c: Category| category_index(c),
        ));
        assert(category_at(indices.last() as int) == Some(categories.last()));
        assert(categories.drop_last().push(categories.last()) =~= categories);
    }
}

/// A list in which nothing stands twice is its own deduplication.
pub proof fn lemma_deduped_distinct(categories: Seq<Category>)
    requires
        categories.no_duplicates(),
    ensures
        deduped(categories) == categories,
    decreases categories.len(),
{
    if categories.len() > 0 {
        let init = categories.drop_last();
        lemma_deduped_distinct(init);
        if init.contains(categories.last()) {
            let i = choose|i: int| 0 <= i < init.len() && init[i] == categories.last();
            assert(categories[i] == categories[categories.len() - 1]);
        }
        assert(init.push(categories.last()) =~= categories);
    }
}

/// What is read as deduplicated holds nothing twice.
pub proof fn lemma_deduped_sound(categories: Seq<Category>)
    ensures
        deduped(categories).no_duplicates(),
        forall|c: Category| deduped(categories).contains(c) <==> categories.contains(c),
    decreases categories.len(),
{
    if categories.len() > 0 {
        let init = categories.drop_last();
        let last = categories.last();
        let d = deduped(categories);
        lemma_deduped_sound(init);
        assert forall|c: Category| d.contains(c) <==> categories.contains(c) by {
            if categories.contains(c) {
                let i = choose|i: int| 0 <= i < categories.len() && categories[i] == c;
                if i < init.len() {
                    assert(init[i] == c);
                    assert(init.contains(c));
                    assert(deduped(init).contains(c));
                    let j = choose|j: int| 0 <= j < deduped(init).len() && deduped(init)[j] == c;
                    assert(d[j] == c);
                } else {
                    assert(c == last);
                    if init.contains(last) {
                        assert(deduped(init).contains(c));
                        let j = choose|j: int| 0 <= j < deduped(init).len() && deduped(init)[j] == c;
                        assert(d[j] == c);
                    } else {
                        assert(d[d.len() - 1] == c);
                    }
                }
            }
            if d.contains(c) {
                let j = choose|j: int| 0 <= j < d.len() && d[j] == c;
                if j < deduped(init).len() {
                    assert(deduped(init)[j] == c);
                    assert(deduped(init).contains(c));
                    assert(init.contains(c));
                    let i = choose|i: int| 0 <= i < init.len() && init[i] == c;
                    assert(init[i] == categories[i]);
                    assert(categories[i] == c);
                } else {
                    assert(categories[categories.len() - 1] == c);
                }
            }
        }
        if !init.contains(last) {
            assert forall|a: int, b: int| 0 <= a < d.len() && 0 <= b < d.len() && a != b implies d[a]
                != d[b] by {
                if a < deduped(init).len() && b < deduped(init).len() {
                    assert(deduped(init)[a] != deduped(init)[b]);
                } else if a < deduped(init).len() {
                    assert(deduped(init).contains(deduped(init)[a]));
                } else {
                    assert(deduped(init).contains(deduped(init)[b]));
                }
            }
        }
    }
}

/// The row written for an entry is read back as the entry, with each of its
/// categories kept where it stands first.
pub proof fn lemma_row_round_trip(entry: ModView)
    ensures
        row_mod(mod_row(entry)) == Some(as_read(entry)),
{
    lemma_categories_round_trip(entry.categories);
}

/// The rows written for a catalog are read back as the catalog, entry by
/// entry.
pub proof fn lemma_rows_round_trip(mods: Seq<ModView>)
    ensures
        row_mods(mod_rows(mods)) == Some(catalog_as_read(mods)),
    decreases mods.len(),
{
    if mods.len() == 0 {
        assert(catalog_as_read(mods) =~= Seq::empty());
    } else {
        let init = mods.drop_last();
        lemma_rows_round_trip(init);
        assert(mod_rows(mods).drop_last() =~= mod_rows(init));
        lemma_row_round_trip(mods.last());
        assert(catalog_as_read(init).push(as_read(mods.last())) =~= catalog_as_read(mods));
    }
}

/// A catalog in which no entry holds a category twice is read back
/// unchanged.
pub proof fn lemma_sound_catalog_is_read_unchanged(mods: Seq<ModView>)
    requires
        catalog_sound(mods),
    ensures
        catalog_as_read(mods) == mods,
{
    assert forall|i: int| 0 <= i < mods.len() implies as_read(#[trigger] mods[i]) == mods[i] by {
        assert(sound(mods[i]));
        lemma_deduped_distinct(mods[i].categories);
    }
    assert(catalog_as_read(mods) =~= mods);
}

/// An envelope of another format version is never used, whatever its age.
pub proof fn lemma_version_gate(version: u32, timestamp: u64, now: u64)
    requires
        version != CACHE_VERSION,
    ensures
        !usable(version, timestamp, now),
{
}

/// A catalog cache file whose envelope has another format version gives
/// nothing, whatever its age.
pub proof fn lemma_other_version_misses(file: Seq<u8>, now: u64)
    requires
        gzip_content(file) matches Some(raw) && (catalog_decoding(raw) matches Some(envelope)
            && envelope.0 != CACHE_VERSION),
    ensures
        cached_catalog(file, now) is None,
{
}

/// A version cache file whose envelope has another format version gives
/// nothing, whatever its age.
pub proof fn lemma_other_version_misses_versions(file: Seq<u8>, now: u64)
    requires
        gzip_content(file) matches Some(raw) && (versions_decoding(raw) matches Some(envelope)
            && envelope.0 != CACHE_VERSION),
    ensures
        cached_versions(file, now) is None,
{
}

/// An envelope of the current format version is used until
/// [`CACHE_DURATION`] seconds have passed since it was written, that second
/// included, and never after.
pub proof fn lemma_expiry(timestamp: u64, now: u64)
    ensures
        now > timestamp + CACHE_DURATION ==> !usable(CACHE_VERSION, timestamp, now),
        now <= timestamp + CACHE_DURATION ==> usable(CACHE_VERSION, timestamp, now),
{
}

impl Category {
    /// The number that stands for the category in a cache file.
    pub fn index(&self) -> (i: u32)
        ensures
            i == category_index(*self),
            category_at(i as int) == Some(*self),
    {
        match self {
            Category::Content => 0,
            Category::Joker => 1,
            Category::QualityOfLife => 2,
            Category::Technical => 3,
            Category::Miscellaneous => 4,
            Category::ResourcePacks => 5,
            Category::API => 6,
        }
    }

    /// The category that a number stands for, if it stands for one. The
    /// seven numbers from 0 to 6 stand for the seven categories, one each;
    /// a number below or above them stands for none.
    pub fn try_from_index(value: i32) -> (category: Option<Category>)
        ensures
            category == category_at(value as int),
    {
        if value == 0 {
            Some(Category::Content)
        } else if value == 1 {
            Some(Category::Joker)
        } else if value == 2 {
            Some(Category::QualityOfLife)
        } else if value == 3 {
            Some(Category::Technical)
        } else if value == 4 {
            Some(Category::Miscellaneous)
        } else if value == 5 {
            Some(Category::ResourcePacks)
        } else if value == 6 {
            Some(Category::API)
        } else {
            None
        }
    }

    /// The category that a number from 0 to 6 stands for. It is the
    /// category whose own number is `value`.
    pub fn from_index(value: i32) -> (category: Category)
        requires
            0 <= value <= 6,
        ensures
            category_at(value as int) == Some(category),
            category_index(category) == value,
    {
        if value == 0 {
            Category::Content
        } else if value == 1 {
            Category::Joker
        } else if value == 2 {
            Category::QualityOfLife
        } else if value == 3 {
            Category::Technical
        } else if value == 4 {
            Category::Miscellaneous
        } else if value == 5 {
            Category::ResourcePacks
        } else {
            Category::API
        }
    }

    /// The category that a name stands for, if it stands for one. A text
    /// that is not the name of one of the seven categories, letter for
    /// letter, stands for none.
    pub fn try_from_name(value: &str) -> (category: Option<Category>)
        ensures
            category == category_named(value@),
    {
        if str_eq(value, "Content") {
            Some(Category::Content)
        } else if str_eq(value, "Joker") {
            Some(Category::Joker)
        } else if str_eq(value, "Quality of Life") {
            Some(Category::QualityOfLife)
        } else if str_eq(value, "Technical") {
            Some(Category::Technical)
        } else if str_eq(value, "Miscellaneous") {
            Some(Category::Miscellaneous)
        } else if str_eq(value, "Resource Packs") {
            Some(Category::ResourcePacks)
        } else if str_eq(value, "API") {
            Some(Category::API)
        } else {
            None
        }
    }

    /// The category that one of the seven category names stands for.
    pub fn from_name(value: &str) -> (category: Category)
        requires
            category_named(value@) is Some,
        ensures
            category_named(value@) == Some(category),
    {
        if str_eq(value, "Content") {
            Category::Content
        } else if str_eq(value, "Joker") {
            Category::Joker
        } else if str_eq(value, "Quality of Life") {
            Category::QualityOfLife
        } else if str_eq(value, "Technical") {
            Category::Technical
        } else if str_eq(value, "Miscellaneous") {
            Category::Miscellaneous
        } else if str_eq(value, "Resource Packs") {
            Category::ResourcePacks
        } else {
            Category::API
        }
    }
}

/// The category that a number of a cache file stands for.
fn category_of(index: u32) -> (category: Option<Category>)
    ensures
        category == category_at(index as int),
{
    if index == 0 {
        Some(Category::Content)
    } else if index == 1 {
        Some(Category::Joker)
    } else if index == 2 {
        Some(Category::QualityOfLife)
    } else if index == 3 {
        Some(Category::Technical)
    } else if index == 4 {
        Some(Category::Miscellaneous)
    } else if index == 5 {
        Some(Category::ResourcePacks)
    } else if index == 6 {
        Some(Category::API)
    } else {
        None
    }
}

/// Whether `category` stands in `categories`.
fn holds(categories: &Vec<Category>, category: Category) -> (found: bool)
    ensures
        found == categories@.contains(category),
{
    let wanted = category.index();
    let mut i: usize = 0;
    while i < categories.len()
        invariant
            i <= categories.len(),
            wanted == category_index(category),
            forall|j: int| 0 <= j < i ==> categories@[j] != category,
        decreases categories.len() - i,
    {
        if categories[i].index() == wanted {
            assert(categories@[i as int] == category);
            return true;
        }
        i += 1;
    }
    false
}

/// The numbers that are written for a list of categories.
fn indices_of(categories: &Vec<Category>) -> (indices: Vec<u32>)
    ensures
        indices@ == categories@.map_values(|c: Category| category_index(c)),
{
    let mut indices: Vec<u32> = Vec::new();
    let mut i: usize = 0;
    while i < categories.len()
        invariant
            i <= categories.len(),
            indices@ == categories@.take(i as int).map_values(|c: Category| category_index(c)),
        decreases categories.len() - i,
    {
        indices.push(categories[i].index());
        assert(indices@ =~= categories@.take(i + 1).map_values(|c: Category| category_index(c)));
        i += 1;
    }
    assert(categories@.take(i as int) =~= categories@);
    indices
}

/// The categories that a list of numbers is read as, each kept where it
/// stands first.
fn categories_read(indices: &Vec<u32>) -> (categories: Option<Vec<Category>>)
    ensures
        match categories {
            Some(read) => categories_of(indices@) matches Some(all) && read@ == deduped(all),
            None => categories_of(indices@) is None,
        },
{
    let mut read: Vec<Category> = Vec::new();
    let ghost mut all: Seq<Category> = Seq::empty();
    let mut i: usize = 0;
    proof {
        assert(indices@.take(0) =~= Seq::<u32>::empty());
    }
    while i < indices.len()
        invariant
            i <= indices.len(),
            categories_of(indices@.take(i as int)) == Some(all),
            read@ == deduped(all),
            all.len() == i,
        decreases indices.len() - i,
    {
        proof {
            assert(indices@.take(i + 1).drop_last() =~= indices@.take(i as int));
            assert(indices@.take(i + 1).last() == indices@[i as int]);
        }
        match category_of(indices[i]) {
            Some(category) => {
                proof {
                    lemma_deduped_sound(all);
                    assert(all.push(category).drop_last() =~= all);
                }
                if !holds(&read, category) {
                    read.push(category);
                }
                proof {
                    all = all.push(category);
                }
            },
            None => {
                proof {
                    lemma_categories_stay_unreadable(indices@, i + 1);
                }
                return None;
            },
        }
        i += 1;
    }
    assert(indices@.take(i as int) =~= indices@);
    Some(read)
}

/// Numbers that cannot be read as categories stay so when more numbers follow.
proof fn lemma_categories_stay_unreadable(indices: Seq<u32>, n: int)
    requires
        0 <= n <= indices.len(),
        categories_of(indices.take(n)) is None,
    ensures
        categories_of(indices) is None,
    decreases indices.len() - n,
{
    if n == indices.len() {
        assert(indices.take(n) =~= indices);
    } else {
        assert(indices.take(n + 1).drop_last() =~= indices.take(n));
        lemma_categories_stay_unreadable(indices, n + 1);
    }
}

/// Rows that cannot be read as entries stay so when more rows follow.
proof fn lemma_rows_stay_unreadable(rows: Seq<ModRowView>, n: int)
    requires
        0 <= n <= rows.len(),
        row_mods(rows.take(n)) is None,
    ensures
        row_mods(rows) is None,
    decreases rows.len() - n,
{
    if n == rows.len() {
        assert(rows.take(n) =~= rows);
    } else {
        assert(rows.take(n + 1).drop_last() =~= rows.take(n));
        lemma_rows_stay_unreadable(rows, n + 1);
    }
}

impl Mod {
    /// The row that is written for the entry.
    pub fn to_row(&self) -> (row: ModRow)
        ensures
            row_view(row) == mod_row(self@),
    {
        (
            (
                self.title.clone(),
                self.description.clone(),
                copy_opt(&self.image),
                indices_of(&self.categories),
            ),
            (self.colors.color1.clone(), self.colors.color2.clone()),
            (self.installed, self.requires_steamodded, self.requires_talisman),
            (self.publisher.clone(), self.repo.clone(), self.download_url.clone()),
            (copy_opt(&self.folder_name), copy_opt(&self.version), self.last_updated),
        )
    }

    /// The entry that a row is read as: nothing where one of its numbers
    /// stands for no category.
    pub fn from_row(row: &ModRow) -> (entry: Option<Mod>)
        ensures
            match entry {
                Some(m) => row_mod(row_view(*row)) == Some(m@),
                None => row_mod(row_view(*row)) is None,
            },
    {
        match categories_read(&row.0.3) {
            Some(categories) => Some(
                Mod {
                    title: row.0.0.clone(),
                    description: row.0.1.clone(),
                    image: copy_opt(&row.0.2),
                    categories,
                    colors: ColorPair { color1: row.1.0.clone(), color2: row.1.1.clone() },
                    installed: row.2.0,
                    requires_steamodded: row.2.1,
                    requires_talisman: row.2.2,
                    publisher: row.3.0.clone(),
                    repo: row.3.1.clone(),
                    download_url: row.3.2.clone(),
                    folder_name: copy_opt(&row.4.0),
                    version: copy_opt(&row.4.1),
                    last_updated: row.4.2,
                },
            ),
            None => None,
        }
    }
}

/// The rows that are written for a catalog.
pub fn rows_of(mods: &[Mod]) -> (rows: Vec<ModRow>)
    ensures
        rows_view(rows@) == mod_rows(mods_view(mods@)),
{
    let mut rows: Vec<ModRow> = Vec::new();
    let mut i: usize = 0;
    while i < mods.len()
        invariant
            i <= mods.len(),
            rows@.len() == i,
            forall|j: int| 0 <= j < i ==> row_view(#[trigger] rows@[j]) == mod_row(mods@[j]@),
        decreases mods.len() - i,
    {
        rows.push(mods[i].to_row());
        i += 1;
    }
    assert(rows_view(rows@) =~= mod_rows(mods_view(mods@)));
    rows
}

/// The catalog that rows are read as, if each row can be read.
pub fn mods_of(rows: &Vec<ModRow>) -> (mods: Option<Vec<Mod>>)
    ensures
        match mods {
            Some(read) => row_mods(rows_view(rows@)) == Some(mods_view(read@)),
            None => row_mods(rows_view(rows@)) is None,
        },
{
    let ghost all = rows_view(rows@);
    let mut read: Vec<Mod> = Vec::new();
    let mut i: usize = 0;
    proof {
        assert(all.take(0) =~= Seq::<ModRowView>::empty());
        assert(mods_view(read@) =~= Seq::<ModView>::empty());
    }
    while i < rows.len()
        invariant
            i <= rows.len(),
            all == rows_view(rows@),
            row_mods(all.take(i as int)) == Some(mods_view(read@)),
        decreases rows.len() - i,
    {
        let ghost before = mods_view(read@);
        proof {
            assert(all.take(i + 1).drop_last() =~= all.take(i as int));
            assert(all.take(i + 1).last() == row_view(rows@[i as int]));
        }
        match Mod::from_row(&rows[i]) {
            Some(entry) => {
                let ghost added = entry@;
                read.push(entry);
                assert(mods_view(read@) =~= before.push(added));
            },
            None => {
                proof {
                    lemma_rows_stay_unreadable(all, i + 1);
                }
                return None;
            },
        }
        i += 1;
    }
    assert(all.take(i as int) =~= all);
    Some(read)
}

/// Whether an envelope can be used at the time `now`: it has the format
/// version of this library, and no more than [`CACHE_DURATION`] seconds have
/// passed since it was written.
pub fn is_usable(version: u32, timestamp: u64, now: u64) -> (yes: bool)
    ensures
        yes == usable(version, timestamp, now),
{
    version == CACHE_VERSION && (now <= timestamp || now - timestamp <= CACHE_DURATION)
}

/// The bytes of the catalog cache file for `mods`, written at the time `now`.
///
/// This succeeds for every catalog that can be compressed, and fails with
/// `FileWrite` for the others. Reading the file then gives the catalog and
/// `now` back for as long as the file is fresh, and nothing after that; an
/// entry that holds a category twice comes back with it once. This is so
/// for every catalog whose encoded envelope is no longer than
/// [`MAX_ENCODED_LEN`].
pub fn save_cache(mods: &[Mod], now: u64) -> (r: Result<Vec<u8>, AppError>)
    ensures
        match r {
            Ok(file) => {
                &&& catalog_file(mods_view(mods@), now) == Some(file@)
                &&& catalog_readable(mods_view(mods@), now) ==> forall|later: u64|
                    #[trigger] cached_catalog(file@, later) == if fresh(now, later) {
                        Some((catalog_as_read(mods_view(mods@)), now))
                    } else {
                        None
                    }
            },
            Err(e) => {
                &&& catalog_file(mods_view(mods@), now) is None
                &&& e@ matches ErrorView::FileWrite { path, .. } && path == MODS_CACHE_FILE@
            },
        },
{
    let rows = rows_of(mods);
    let raw = match encode_catalog(CACHE_VERSION, now, &rows) {
        Ok(raw) => raw,
        Err(e) => {
            return Err(
                AppError::Serialization {
                    format: String::from_str("bincode"),
                    source: e.to_string(),
                },
            );
        },
    };
    match gzip(raw.as_slice()) {
        Ok(file) => {
            proof {
                lemma_rows_round_trip(mods_view(mods@));
            }
            Ok(file)
        },
        Err(e) => Err(
            AppError::FileWrite { path: String::from_str(MODS_CACHE_FILE), source: e.to_string() },
        ),
    }
}

/// Reads a catalog cache file at the time `now`: the catalog and the time at
/// which it was written. A file that is no gzip stream, holds no envelope of
/// a catalog, has another format version or is too old gives nothing.
pub fn load_cache(file: &[u8], now: u64) -> (r: Option<(Vec<Mod>, u64)>)
    ensures
        match r {
            Some(hit) => cached_catalog(file@, now) == Some((mods_view(hit.0@), hit.1)),
            None => cached_catalog(file@, now) is None,
        },
{
    let raw = match gunzip(file) {
        Ok(raw) => raw,
        Err(_) => {
            return None;
        },
    };
    let read = match decode_catalog(raw.as_slice()) {
        Ok(read) => read,
        Err(_) => {
            return None;
        },
    };
    let (((version, timestamp), rows), _) = read;
    if !is_usable(version, timestamp, now) {
        return None;
    }
    match mods_of(&rows) {
        Some(mods) => Some((mods, timestamp)),
        None => None,
    }
}

/// The bytes of the version cache file for `versions`, written at the time
/// `now`.
///
/// This succeeds for every list that can be compressed, and fails with
/// `FileWrite`, under the name of the loader's cache file, for the others.
/// Reading the file then gives `versions` back for as long as the file is
/// fresh, and nothing after that. This is so for every list whose encoded
/// envelope is no longer than [`MAX_ENCODED_LEN`].
pub fn save_versions_cache(mod_type: &str, versions: &[String], now: u64) -> (r: Result<
    Vec<u8>,
    AppError,
>)
    ensures
        match r {
            Ok(file) => {
                &&& versions_file(texts(versions@), now) == Some(file@)
                &&& versions_readable(texts(versions@), now) ==> forall|later: u64|
                    #[trigger] cached_versions(file@, later) == if fresh(now, later) {
                        Some(texts(versions@))
                    } else {
                        None
                    }
            },
            Err(e) => {
                &&& versions_file(texts(versions@), now) is None
                &&& e@ matches ErrorView::FileWrite { path, .. } && path == versions_file_name(
                    mod_type@,
                )
            },
        },
{
    let raw = match encode_versions(CACHE_VERSION, now, versions) {
        Ok(raw) => raw,
        Err(e) => {
            return Err(
                AppError::Serialization {
                    format: String::from_str("bincode"),
                    source: e.to_string(),
                },
            );
        },
    };
    match gzip(raw.as_slice()) {
        Ok(file) => Ok(file),
        Err(e) => Err(
            AppError::FileWrite { path: versions_cache_file(mod_type), source: e.to_string() },
        ),
    }
}

/// Reads a version cache file at the time `now`. A file that is no gzip
/// stream, holds no envelope of a version list, has another format version
/// or is too old gives nothing.
pub fn load_versions_cache(file: &[u8], now: u64) -> (r: Option<Vec<String>>)
    ensures
        match r {
            Some(versions) => cached_versions(file@, now) == Some(texts(versions@)),
            None => cached_versions(file@, now) is None,
        },
{
    let raw = match gunzip(file) {
        Ok(raw) => raw,
        Err(_) => {
            return None;
        },
    };
    let read = match decode_versions(raw.as_slice()) {
        Ok(read) => read,
        Err(_) => {
            return None;
        },
    };
    let (((version, timestamp), versions), _) = read;
    if !is_usable(version, timestamp, now) {
        return None;
    }
    Some(versions)
}

/// The name of the file that holds the version list of a mod loader.
pub fn versions_cache_file(mod_type: &str) -> (name: String)
    ensures
        name@ == versions_file_name(mod_type@),
{
    let mut name = String::from_str("versions-");
    name.append(mod_type);
    name.append(".cache.bin.gz");
    name
}

/// The place of a cache file inside the cache directory `cache_dir`.
fn path_in(cache_dir: &str, file_name: &str) -> (path: String)
    ensures
        path@ == cache_path(cache_dir@, file_name@),
{
    let mut path = cache_dir.to_owned();
    path.append("/");
    path.append(CACHE_DIR_NAME);
    path.append("/");
    path.append(file_name);
    path
}

/// The place of the catalog cache file inside the cache directory
/// `cache_dir`.
pub fn get_cache_path(cache_dir: &str) -> (path: String)
    ensures
        path@ == cache_path(cache_dir@, MODS_CACHE_FILE@),
{
    path_in(cache_dir, MODS_CACHE_FILE)
}

/// The place of the version cache file of a mod loader inside the cache
/// directory `cache_dir`.
pub fn get_versions_cache_path(cache_dir: &str, mod_type: &str) -> (path: String)
    ensures
        path@ == cache_path(cache_dir@, versions_file_name(mod_type@)),
{
    let name = versions_cache_file(mod_type);
    path_in(cache_dir, name.as_str())
}

/// The cache files that clearing the cache deletes where they are there: the
/// catalog, and the version lists of the two mod loaders.
pub fn clear_cache(cache_dir: &str) -> (paths: Vec<String>)
    ensures
        paths@.len() == 3,
        paths@[0]@ == cache_path(cache_dir@, MODS_CACHE_FILE@),
        paths@[1]@ == cache_path(cache_dir@, versions_file_name("steamodded"@)),
        paths@[2]@ == cache_path(cache_dir@, versions_file_name("talisman"@)),
{
    let mut paths: Vec<String> = Vec::new();
    paths.push(get_cache_path(cache_dir));
    paths.push(get_versions_cache_path(cache_dir, "steamodded"));
    paths.push(get_versions_cache_path(cache_dir, "talisman"));
    paths
}

} // verus!

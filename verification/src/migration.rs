//! Bringing a store of an earlier schema forward.
//!
//! A store is never changed in place. What an old store file holds is read
//! as a [`StoreImage`]; a fresh store is initialized, the old settings and
//! add-ons are carried into it, and only then does the new file take the
//! place of the old one. This module holds the part that works on values:
//! deciding whether a store is stale, and what the fresh store holds.

use crate::database::initialized;
use crate::database::Database;
use crate::database::DatabaseView;
use crate::database::ModRecord;
use crate::database::ModRecordView;
use crate::database::CURRENT_DB_VERSION;
use crate::database::DB_VERSION_KEY;
use crate::database::SECURITY_WARNING_KEY;
use crate::table::distinct_keys;
use crate::table::lemma_distinct_drop_last;
use crate::table::lemma_with;
use crate::table::lemma_without_absent;
use crate::table::value_of;
use crate::table::with;
use crate::table::Table;
use crate::text::str_eq;
use vstd::prelude::*;

verus! {

/// What a store file holds, table by table; a table that the file lacks, or
/// that could not be read, is absent.
pub struct StoreImage {
    pub settings: Option<Table<String>>,
    pub installed_mods: Option<Table<ModRecord>>,
}

/// A [`StoreImage`] as sequences of entries.
pub struct StoreImageView {
    pub settings: Option<Seq<(Seq<char>, Seq<char>)>>,
    pub installed_mods: Option<Seq<(Seq<char>, ModRecordView)>>,
}

impl View for StoreImage {
    type V = StoreImageView;

    open spec fn view(&self) -> StoreImageView {
        StoreImageView {
            settings: match self.settings {
                Some(t) => Some(t@),
                None => None,
            },
            installed_mods: match self.installed_mods {
                Some(t) => Some(t@),
                None => None,
            },
        }
    }
}

/// The store must be migrated: it has no settings table, or no schema
/// version among its settings, or another version than the current one.
pub open spec fn stale(image: StoreImageView) -> bool {
    match image.settings {
        None => true,
        Some(settings) => value_of(settings, DB_VERSION_KEY@) != Some(CURRENT_DB_VERSION@),
    }
}

/// `target` after every setting of `source` but the schema version was
/// written into it, oldest first.
pub open spec fn carried_settings(
    target: Seq<(Seq<char>, Seq<char>)>,
    source: Seq<(Seq<char>, Seq<char>)>,
) -> Seq<(Seq<char>, Seq<char>)>
    decreases source.len(),
{
    if source.len() == 0 {
        target
    } else {
        let earlier = carried_settings(target, source.drop_last());
        if source.last().0 == DB_VERSION_KEY@ {
            earlier
        } else {
            with(earlier, source.last().0, source.last().1)
        }
    }
}

/// `target` after every add-on of `source` was written into it, oldest first.
pub open spec fn carried_mods(
    target: Seq<(Seq<char>, ModRecordView)>,
    source: Seq<(Seq<char>, ModRecordView)>,
) -> Seq<(Seq<char>, ModRecordView)>
    decreases source.len(),
{
    if source.len() == 0 {
        target
    } else {
        with(carried_mods(target, source.drop_last()), source.last().0, source.last().1)
    }
}

/// What the fresh store holds after a migration: the settings of a newly
/// initialized store with the old settings carried over them, and the old
/// add-ons.
pub open spec fn migrated(image: StoreImageView) -> DatabaseView {
    DatabaseView {
        settings: match image.settings {
            Some(settings) => carried_settings(initialized(Seq::empty()), settings),
            None => initialized(Seq::empty()),
        },
        installed_mods: match image.installed_mods {
            Some(mods) => carried_mods(Seq::empty(), mods),
            None => Seq::empty(),
        },
    }
}

/// What a program works on after opening a store: a newly initialized store
/// where no file was there, the migrated store where the file was stale, and
/// else what the file holds.
pub open spec fn opened(stored: Option<StoreImageView>) -> DatabaseView {
    match stored {
        None => DatabaseView { settings: initialized(Seq::empty()), installed_mods: Seq::empty() },
        Some(image) => if stale(image) {
            migrated(image)
        } else {
            DatabaseView {
                settings: image.settings->0,
                installed_mods: match image.installed_mods {
                    Some(mods) => mods,
                    None => Seq::empty(),
                },
            }
        },
    }
}

/// What was found where a store file is looked for, as sequences of entries.
pub open spec fn found_view(stored: Option<StoreImage>) -> Option<StoreImageView> {
    match stored {
        Some(image) => Some(image@),
        None => None,
    }
}

/// What the file of a store holds.
pub open spec fn image_of(db: DatabaseView) -> StoreImageView {
    StoreImageView { settings: Some(db.settings), installed_mods: Some(db.installed_mods) }
}

/// The two settings that initializing writes have different names.
proof fn lemma_reserved_keys_differ()
    ensures
        DB_VERSION_KEY@ != SECURITY_WARNING_KEY@,
{
    reveal_strlit("db_version");
    reveal_strlit("security_warning_acknowledged");
    assert(DB_VERSION_KEY@.len() != SECURITY_WARNING_KEY@.len());
}

/// An initialized store carries the current schema version.
pub proof fn lemma_initialized_is_current(settings: Seq<(Seq<char>, Seq<char>)>)
    ensures
        value_of(initialized(settings), DB_VERSION_KEY@) == Some(CURRENT_DB_VERSION@),
{
    lemma_reserved_keys_differ();
    let first = with(settings, DB_VERSION_KEY@, CURRENT_DB_VERSION@);
    lemma_with(settings, DB_VERSION_KEY@, CURRENT_DB_VERSION@);
    lemma_with(first, SECURITY_WARNING_KEY@, "no"@);
}

/// Carrying settings over: the schema version of the target stays, every
/// other setting of the source wins over the target's, and what the source
/// lacks stays as the target had it.
pub proof fn lemma_carried_settings(
    target: Seq<(Seq<char>, Seq<char>)>,
    source: Seq<(Seq<char>, Seq<char>)>,
    key: Seq<char>,
)
    ensures
        value_of(carried_settings(target, source), key) == if key == DB_VERSION_KEY@ {
            value_of(target, key)
        } else {
            match value_of(source, key) {
                Some(v) => Some(v),
                None => value_of(target, key),
            }
        },
    decreases source.len(),
{
    if source.len() > 0 {
        let earlier = carried_settings(target, source.drop_last());
        lemma_carried_settings(target, source.drop_last(), key);
        if source.last().0 != DB_VERSION_KEY@ {
            lemma_with(earlier, source.last().0, source.last().1);
        }
    }
}

/// Carrying add-ons over into an empty table gives the same rows in the same
/// order, where no name occurs twice among them.
pub proof fn lemma_carried_mods(source: Seq<(Seq<char>, ModRecordView)>)
    requires
        distinct_keys(source),
    ensures
        carried_mods(Seq::empty(), source) == source,
    decreases source.len(),
{
    if source.len() > 0 {
        let init = source.drop_last();
        lemma_distinct_drop_last(source);
        lemma_carried_mods(init);
        lemma_without_absent(init, source.last().0);
        assert(init.push((source.last().0, source.last().1)) =~= source);
    }
}

/// A store that was just opened is not stale: checking it again asks for no
/// second migration.
pub proof fn lemma_opened_is_current(stored: Option<StoreImageView>)
    ensures
        !stale(image_of(opened(stored))),
{
    lemma_initialized_is_current(Seq::empty());
    match stored {
        Some(image) => {
            if stale(image) {
                match image.settings {
                    Some(settings) => {
                        lemma_carried_settings(
                            initialized(Seq::empty()),
                            settings,
                            DB_VERSION_KEY@,
                        );
                    },
                    None => {},
                }
            }
        },
        None => {},
    }
}

/// Opening a store that was just opened changes nothing.
pub proof fn lemma_open_twice(stored: Option<StoreImageView>)
    ensures
        opened(Some(image_of(opened(stored)))) == opened(stored),
{
    lemma_opened_is_current(stored);
}

/// A migration keeps every setting but the schema version as it was.
pub proof fn lemma_migration_keeps_settings(image: StoreImageView, key: Seq<char>)
    requires
        image.settings is Some,
        key != DB_VERSION_KEY@,
        value_of(image.settings->0, key) is Some,
    ensures
        value_of(migrated(image).settings, key) == value_of(image.settings->0, key),
{
    lemma_carried_settings(initialized(Seq::empty()), image.settings->0, key);
}

/// A migration leaves the store with the current schema version.
pub proof fn lemma_migration_sets_version(image: StoreImageView)
    ensures
        value_of(migrated(image).settings, DB_VERSION_KEY@) == Some(CURRENT_DB_VERSION@),
{
    lemma_opened_is_current(Some(image));
    lemma_initialized_is_current(Seq::empty());
    match image.settings {
        Some(settings) => {
            lemma_carried_settings(initialized(Seq::empty()), settings, DB_VERSION_KEY@);
        },
        None => {},
    }
}

/// A migration keeps every installed add-on, row for row, where no name
/// occurs twice among them.
pub proof fn lemma_migration_keeps_mods(image: StoreImageView)
    requires
        image.installed_mods is Some,
        distinct_keys(image.installed_mods->0),
    ensures
        migrated(image).installed_mods == image.installed_mods->0,
{
    lemma_carried_mods(image.installed_mods->0);
}

/// Whether the store must be migrated.
pub fn needs_migration(image: &StoreImage) -> (needed: bool)
    ensures
        needed == stale(image@),
{
    match &image.settings {
        None => true,
        Some(settings) => match settings.get(DB_VERSION_KEY) {
            None => true,
            Some(version) => !str_eq(version.as_str(), CURRENT_DB_VERSION),
        },
    }
}

/// Carries every setting of the old store but its schema version into the
/// new one.
pub fn migrate_settings(old_settings: &Table<String>, new_settings: &mut Table<String>)
    ensures
        final(new_settings)@ == carried_settings(old(new_settings)@, old_settings@),
{
    let rows = old_settings.entries();
    let ghost source = old_settings@;
    let ghost target = new_settings@;
    let mut i: usize = 0;
    while i < rows.len()
        invariant
            i <= rows.len(),
            rows@.len() == source.len(),
            forall|j: int|
                0 <= j < rows@.len() ==> (#[trigger] rows@[j]).0@ == source[j].0 && rows@[j].1@
                    == source[j].1,
            new_settings@ == carried_settings(target, source.take(i as int)),
        decreases rows.len() - i,
    {
        proof {
            assert(source.take(i + 1).drop_last() =~= source.take(i as int));
            assert(source.take(i + 1).last() == source[i as int]);
        }
        if !str_eq(rows[i].0.as_str(), DB_VERSION_KEY) {
            new_settings.insert(rows[i].0.clone(), rows[i].1.clone());
        }
        i += 1;
    }
    assert(source.take(i as int) =~= source);
}

/// A copy of a record.
fn copy_record(record: &ModRecord) -> (r: ModRecord)
    ensures
        r@ == record@,
{
    ModRecord {
        path: record.path.clone(),
        dependencies: record.dependencies.clone(),
        current_version: match &record.current_version {
            Some(v) => Some(v.clone()),
            None => None,
        },
    }
}

/// Carries every installed add-on of the old store into the new one, its
/// record unchanged.
pub fn migrate_installed_mods(old_mods: &Table<ModRecord>, new_mods: &mut Table<ModRecord>)
    ensures
        final(new_mods)@ == carried_mods(old(new_mods)@, old_mods@),
{
    let rows = old_mods.entries();
    let ghost source = old_mods@;
    let ghost target = new_mods@;
    let mut i: usize = 0;
    while i < rows.len()
        invariant
            i <= rows.len(),
            rows@.len() == source.len(),
            forall|j: int|
                0 <= j < rows@.len() ==> (#[trigger] rows@[j]).0@ == source[j].0 && rows@[j].1@
                    == source[j].1,
            new_mods@ == carried_mods(target, source.take(i as int)),
        decreases rows.len() - i,
    {
        proof {
            assert(source.take(i + 1).drop_last() =~= source.take(i as int));
            assert(source.take(i + 1).last() == source[i as int]);
        }
        new_mods.insert(rows[i].0.clone(), copy_record(&rows[i].1));
        i += 1;
    }
    assert(source.take(i as int) =~= source);
}

/// Builds the store that takes the place of a stale one: a newly initialized
/// store into which the old settings and add-ons are carried.
pub fn migrate_database(image: &StoreImage) -> (db: Database)
    ensures
        db@ == migrated(image@),
        !stale(image_of(db@)),
{
    let mut db = Database::empty();
    db.initialize_database();
    match &image.settings {
        Some(settings) => {
            migrate_settings(settings, &mut db.settings);
        },
        None => {},
    }
    match &image.installed_mods {
        Some(mods) => {
            migrate_installed_mods(mods, &mut db.installed_mods);
        },
        None => {},
    }
    proof {
        lemma_opened_is_current(Some(image@));
        lemma_migration_sets_version(image@);
    }
    db
}

impl Database {
    /// The store that a program works on, given what its file held when the
    /// program started (`None` where there was no file): a newly initialized
    /// store, the migrated store where the file was stale, or the store as
    /// the file holds it.
    pub fn new(stored: Option<StoreImage>) -> (db: Database)
        ensures
            db@ == opened(found_view(stored)),
            !stale(image_of(db@)),
    {
        proof {
            lemma_opened_is_current(found_view(stored));
        }
        match stored {
            None => {
                let mut db = Database::empty();
                db.initialize_database();
                db
            },
            Some(image) => {
                if needs_migration(&image) {
                    migrate_database(&image)
                } else {
                    let StoreImage { settings, installed_mods } = image;
                    Database {
                        settings: settings.unwrap(),
                        installed_mods: match installed_mods {
                            Some(mods) => mods,
                            None => Table::new(),
                        },
                    }
                }
            },
        }
    }
}

} // verus!

//! The store: a table of settings and a table of installed add-ons, with the
//! operations that read and change them.
//!
//! A [`Database`] is the content of the store as values. Whoever embeds the
//! library reads it from the store file when the program starts and writes
//! each change back; what an operation means is stated and proved here.

use crate::codec::json_array_items;
use crate::codec::json_array_text;
use crate::codec::json_read_strings;
use crate::codec::json_write_strings;
use crate::codec::opt_text;
use crate::codec::texts;
use crate::errors::AppError;
use crate::errors::ErrorView;
use crate::table::distinct_keys;
use crate::table::has_key;
use crate::table::lemma_with;
use crate::table::lemma_without_absent;
use crate::table::lemma_without_at;
use crate::table::lemma_value_of_has_key;
use crate::table::replaced;
use crate::table::value_of;
use crate::table::with;
use crate::table::without;
use crate::table::Table;
use crate::text::copy_opt;
use crate::text::decimal;
use crate::text::decimal_to_u64;
use crate::text::lemma_parse_decimal;
use crate::text::parsed_u64;
use crate::text::str_eq;
use crate::text::trim_quotes;
use crate::text::u64_to_decimal;
use crate::text::unquoted_eq;
use vstd::prelude::*;
use vstd::string::StringExecFns;

verus! {

/// The schema version that this library reads and writes.
pub const CURRENT_DB_VERSION: &'static str = "1.1";

/// The setting that holds the schema version of a store.
pub const DB_VERSION_KEY: &'static str = "db_version";

/// The setting that holds the time of the last catalog fetch.
pub const LAST_FETCHED_KEY: &'static str = "last_fetched";

/// The setting that holds the path of the game installation.
pub const INSTALLATION_PATH_KEY: &'static str = "installation_path";

/// The setting that says whether the background is animated.
pub const BACKGROUND_ENABLED_KEY: &'static str = "background_enabled";

/// The setting that says whether the injector opens a console.
pub const LOVELY_CONSOLE_KEY: &'static str = "lovely_console";

/// The setting that says whether the security warning was acknowledged.
pub const SECURITY_WARNING_KEY: &'static str = "security_warning_acknowledged";

/// What the store keeps of one installed add-on, under the add-on's name.
/// The dependencies are kept as the JSON text of a list of names.
#[derive(Debug, Clone, PartialEq, Eq)]
pub struct ModRecord {
    pub path: String,
    pub dependencies: String,
    pub current_version: Option<String>,
}

/// A [`ModRecord`] with each text as its characters.
pub struct ModRecordView {
    pub path: Seq<char>,
    pub dependencies: Seq<char>,
    pub current_version: Option<Seq<char>>,
}

impl View for ModRecord {
    type V = ModRecordView;

    open spec fn view(&self) -> ModRecordView {
        ModRecordView {
            path: self.path@,
            dependencies: self.dependencies@,
            current_version: opt_text(self.current_version),
        }
    }
}

/// An installed add-on as callers see it, with its dependencies as a list.
#[derive(Debug, Clone, PartialEq, Eq)]
pub struct InstalledMod {
    pub name: String,
    pub path: String,
    pub dependencies: Vec<String>,
    pub current_version: Option<String>,
}

/// An [`InstalledMod`] with each text as its characters.
pub struct InstalledModView {
    pub name: Seq<char>,
    pub path: Seq<char>,
    pub dependencies: Seq<Seq<char>>,
    pub current_version: Option<Seq<char>>,
}

impl View for InstalledMod {
    type V = InstalledModView;

    open spec fn view(&self) -> InstalledModView {
        InstalledModView {
            name: self.name@,
            path: self.path@,
            dependencies: texts(self.dependencies@),
            current_version: opt_text(self.current_version),
        }
    }
}

/// The settings and the installed add-ons of a store.
pub struct Database {
    pub settings: Table<String>,
    pub installed_mods: Table<ModRecord>,
}

/// A [`Database`] as two sequences of entries, each oldest first.
pub struct DatabaseView {
    pub settings: Seq<(Seq<char>, Seq<char>)>,
    pub installed_mods: Seq<(Seq<char>, ModRecordView)>,
}

impl View for Database {
    type V = DatabaseView;

    open spec fn view(&self) -> DatabaseView {
        DatabaseView { settings: self.settings@, installed_mods: self.installed_mods@ }
    }
}

/// `settings` after a store is initialized over them: the schema version and
/// the security acknowledgement are written anew, the rest stays.
pub open spec fn initialized(settings: Seq<(Seq<char>, Seq<char>)>) -> Seq<(Seq<char>, Seq<char>)> {
    with(with(settings, DB_VERSION_KEY@, CURRENT_DB_VERSION@), SECURITY_WARNING_KEY@, "no"@)
}

/// What an installed add-on reads as, given its name and its record: nothing
/// where the dependencies are no JSON list of strings.
pub open spec fn mod_of(name: Seq<char>, record: ModRecordView) -> Option<InstalledModView> {
    match json_array_items(record.dependencies) {
        Some(dependencies) => Some(
            InstalledModView {
                name,
                path: record.path,
                dependencies,
                current_version: record.current_version,
            },
        ),
        None => None,
    }
}

/// The record that is stored for an add-on installed at `path` with these
/// dependencies and this version, if it has one.
pub open spec fn installed_record(
    path: Seq<char>,
    dependencies: Seq<Seq<char>>,
    current_version: Option<Seq<char>>,
) -> ModRecordView {
    ModRecordView { path, dependencies: json_array_text(dependencies), current_version }
}

/// The version that is recorded for `name` among `rows`: the empty text
/// where no add-on has that name, or the add-on has no version.
pub open spec fn last_version(rows: Seq<(Seq<char>, ModRecordView)>, name: Seq<char>) -> Seq<
    char,
> {
    match value_of(rows, name) {
        Some(record) => match record.current_version {
            Some(version) => version,
            None => Seq::empty(),
        },
        None => Seq::empty(),
    }
}

/// Every record of `rows` can be read.
pub open spec fn all_readable(rows: Seq<(Seq<char>, ModRecordView)>) -> bool {
    forall|i: int| 0 <= i < rows.len() ==> mod_of((#[trigger] rows[i]).0, rows[i].1) is Some
}

/// One of `dependencies`, with the double quotes at its ends taken off, reads
/// `name`.
pub open spec fn names(dependencies: Seq<Seq<char>>, name: Seq<char>) -> bool {
    exists|i: int| 0 <= i < dependencies.len() && trim_quotes(#[trigger] dependencies[i]) == name
}

/// The record depends on `name`.
pub open spec fn depends_on(record: ModRecordView, name: Seq<char>) -> bool {
    match json_array_items(record.dependencies) {
        Some(dependencies) => names(dependencies, name),
        None => false,
    }
}

/// The names of the add-ons of `rows` that depend on `name`, in the order of
/// their rows.
pub open spec fn dependents_of(rows: Seq<(Seq<char>, ModRecordView)>, name: Seq<char>) -> Seq<
    Seq<char>,
> {
    rows.filter(|row: (Seq<char>, ModRecordView)| depends_on(row.1, name)).map_values(
        |row: (Seq<char>, ModRecordView)| row.0,
    )
}

/// The message of a lookup that found no add-on of that name.
pub open spec fn not_found_message(name: Seq<char>) -> Seq<char> {
    "Mod "@ + name + " not found"@
}

/// The text under which a flag is stored with the words "enabled" and
/// "disabled".
pub open spec fn enabled_text(enabled: bool) -> Seq<char> {
    if enabled {
        "enabled"@
    } else {
        "disabled"@
    }
}

/// The text under which a flag is stored with the words "yes" and "no".
pub open spec fn yes_text(yes: bool) -> Seq<char> {
    if yes {
        "yes"@
    } else {
        "no"@
    }
}

/// Installing under a name that is taken replaces the add-on that was there:
/// afterwards the name stands for the new record, every other add-on is as it
/// was, and still no name occurs twice among the rows.
pub proof fn lemma_install_replaces(
    rows: Seq<(Seq<char>, ModRecordView)>,
    name: Seq<char>,
    record: ModRecordView,
)
    requires
        distinct_keys(rows),
    ensures
        distinct_keys(with(rows, name, record)),
        value_of(with(rows, name, record), name) == Some(record),
        forall|other: Seq<char>|
            other != name ==> #[trigger] value_of(with(rows, name, record), other) == value_of(
                rows,
                other,
            ),
        with(rows, name, record).len() == if has_key(rows, name) {
            rows.len()
        } else {
            rows.len() + 1
        },
{
    lemma_with(rows, name, record);
    if has_key(rows, name) {
        let i = choose|i: int| 0 <= i < rows.len() && (#[trigger] rows[i]).0 == name;
        lemma_without_at(rows, i);
    } else {
        lemma_without_absent(rows, name);
    }
}

/// The time of the last fetch that was recorded is the time that is read.
pub proof fn lemma_last_fetched_round_trip(settings: Seq<(Seq<char>, Seq<char>)>, timestamp: u64)
    ensures
        value_of(with(settings, LAST_FETCHED_KEY@, decimal(timestamp as nat)), LAST_FETCHED_KEY@)
            matches Some(text) && parsed_u64(text) == Some(timestamp),
{
    lemma_with(settings, LAST_FETCHED_KEY@, decimal(timestamp as nat));
    lemma_parse_decimal(timestamp);
}

/// Whether one of `dependencies`, with the double quotes at its ends taken
/// off, reads `name`.
pub fn names_dependency(dependencies: &Vec<String>, name: &str) -> (found: bool)
    ensures
        found == names(texts(dependencies@), name@),
{
    let mut i: usize = 0;
    while i < dependencies.len()
        invariant
            i <= dependencies.len(),
            forall|j: int|
                0 <= j < i ==> trim_quotes(#[trigger] texts(dependencies@)[j]) != name@,
        decreases dependencies.len() - i,
    {
        if unquoted_eq(dependencies[i].as_str(), name) {
            assert(trim_quotes(texts(dependencies@)[i as int]) == name@);
            return true;
        }
        i += 1;
    }
    false
}

/// Writes a list of dependencies as the JSON text that the store keeps.
/// This succeeds for every list, and the text reads back as the list.
pub fn encode_dependencies(dependencies: &[String]) -> (r: Result<String, AppError>)
    ensures
        r matches Ok(text) && text@ == json_array_text(texts(dependencies@)) && json_array_items(
            text@,
        ) == Some(texts(dependencies@)),
{
    match json_write_strings(dependencies) {
        Ok(text) => Ok(text),
        Err(e) => Err(
            AppError::Serialization { format: String::from_str("json"), source: e.to_string() },
        ),
    }
}

/// Reads the JSON text that the store keeps back into a list of dependencies.
pub fn decode_dependencies(text: &str) -> (r: Result<Vec<String>, AppError>)
    ensures
        match r {
            Ok(items) => json_array_items(text@) == Some(texts(items@)),
            Err(e) => json_array_items(text@) is None && (e@ matches ErrorView::Serialization {
                format,
                ..
            } && format == "json"@),
        },
{
    match json_read_strings(text) {
        Ok(items) => Ok(items),
        Err(e) => Err(
            AppError::Serialization { format: String::from_str("json"), source: e.to_string() },
        ),
    }
}

/// The add-on that a record, once its dependencies are read, stands for.
pub fn installed_mod(name: &str, record: &ModRecord, dependencies: Vec<String>) -> (m: InstalledMod)
    ensures
        m@ == (InstalledModView {
            name: name@,
            path: record@.path,
            dependencies: texts(dependencies@),
            current_version: record@.current_version,
        }),
{
    InstalledMod {
        name: name.to_owned(),
        path: record.path.clone(),
        dependencies,
        current_version: copy_opt(&record.current_version),
    }
}

impl Database {
    /// A store that holds nothing, not even a schema version.
    pub fn empty() -> (db: Database)
        ensures
            db@.settings == Seq::<(Seq<char>, Seq<char>)>::empty(),
            db@.installed_mods == Seq::<(Seq<char>, ModRecordView)>::empty(),
    {
        Database { settings: Table::new(), installed_mods: Table::new() }
    }

    /// Initializes the store: writes the current schema version, and the
    /// security warning as not acknowledged. Everything else stays.
    pub fn initialize_database(&mut self)
        ensures
            final(self)@.settings == initialized(old(self)@.settings),
            final(self)@.installed_mods == old(self)@.installed_mods,
    {
        self.settings.insert(
            String::from_str(DB_VERSION_KEY),
            String::from_str(CURRENT_DB_VERSION),
        );
        self.settings.insert(String::from_str(SECURITY_WARNING_KEY), String::from_str("no"));
    }

    /// The value of a setting, or `default` where the setting is absent.
    pub fn get_setting(&self, key: &str, default: &str) -> (value: String)
        ensures
            value@ == match value_of(self@.settings, key@) {
                Some(v) => v,
                None => default@,
            },
    {
        match self.settings.get(key) {
            Some(v) => v.clone(),
            None => default.to_owned(),
        }
    }

    /// Writes a setting, in place of its earlier value if it had one.
    pub fn set_setting(&mut self, key: &str, value: &str)
        ensures
            final(self)@.settings == with(old(self)@.settings, key@, value@),
            final(self)@.installed_mods == old(self)@.installed_mods,
    {
        self.settings.insert(key.to_owned(), value.to_owned());
    }

    /// The add-on installed under `mod_name`.
    ///
    /// Fails with `InvalidState` where none is installed under that name, and
    /// with `Serialization` where its stored dependencies cannot be read.
    pub fn get_mod_details(&self, mod_name: &str) -> (r: Result<InstalledMod, AppError>)
        ensures
            match value_of(self@.installed_mods, mod_name@) {
                None => r matches Err(e) && e@ == ErrorView::InvalidState(
                    not_found_message(mod_name@),
                ),
                Some(record) => match mod_of(mod_name@, record) {
                    Some(found) => r matches Ok(m) && m@ == found,
                    None => r matches Err(e) && e@ is Serialization,
                },
            },
    {
        match self.installed_mods.get(mod_name) {
            None => {
                let mut message = String::from_str("Mod ");
                message.append(mod_name);
                message.append(" not found");
                Err(AppError::InvalidState(message))
            },
            Some(record) => {
                match decode_dependencies(record.dependencies.as_str()) {
                    Ok(dependencies) => Ok(installed_mod(mod_name, record, dependencies)),
                    Err(e) => Err(e),
                }
            },
        }
    }

    /// Records the time of the last catalog fetch, in seconds.
    pub fn set_last_fetched(&mut self, timestamp: u64)
        ensures
            final(self)@.settings == with(
                old(self)@.settings,
                LAST_FETCHED_KEY@,
                decimal(timestamp as nat),
            ),
            final(self)@.installed_mods == old(self)@.installed_mods,
    {
        self.settings.insert(String::from_str(LAST_FETCHED_KEY), u64_to_decimal(timestamp));
    }

    /// The time of the last catalog fetch: zero where none was recorded.
    /// Fails with `InvalidState` where the recorded text is no number.
    pub fn get_last_fetched(&self) -> (r: Result<u64, AppError>)
        ensures
            match value_of(self@.settings, LAST_FETCHED_KEY@) {
                None => r == Ok::<u64, AppError>(0),
                Some(text) => match parsed_u64(text) {
                    Some(n) => r == Ok::<u64, AppError>(n),
                    None => r matches Err(e) && e@ == ErrorView::InvalidState(
                        "Invalid timestamp format"@,
                    ),
                },
            },
    {
        match self.settings.get(LAST_FETCHED_KEY) {
            None => Ok(0),
            Some(text) => match decimal_to_u64(text.as_str()) {
                Some(n) => Ok(n),
                None => Err(AppError::InvalidState(String::from_str("Invalid timestamp format"))),
            },
        }
    }

    /// Every installed add-on, in the order of the store's rows.
    ///
    /// Fails with `Serialization` where the stored dependencies of some
    /// add-on cannot be read.
    pub fn get_installed_mods(&self) -> (r: Result<Vec<InstalledMod>, AppError>)
        ensures
            match r {
                Ok(mods) => {
                    &&& all_readable(self@.installed_mods)
                    &&& mods@.len() == self@.installed_mods.len()
                    &&& forall|i: int|
                        0 <= i < mods@.len() ==> Some((#[trigger] mods@[i])@) == mod_of(
                            self@.installed_mods[i].0,
                            self@.installed_mods[i].1,
                        )
                    &&& forall|i: int, j: int|
                        0 <= i < j < mods@.len() ==> (#[trigger] mods@[i]).name@ != (
                        #[trigger] mods@[j]).name@
                },
                Err(e) => !all_readable(self@.installed_mods) && e@ is Serialization,
            },
    {
        let rows = self.installed_mods.entries();
        let ghost view = self@.installed_mods;
        let mut mods: Vec<InstalledMod> = Vec::new();
        let mut i: usize = 0;
        while i < rows.len()
            invariant
                i <= rows.len(),
                view == self@.installed_mods,
                distinct_keys(view),
                rows@.len() == view.len(),
                forall|j: int|
                    0 <= j < rows@.len() ==> (#[trigger] rows@[j]).0@ == view[j].0 && rows@[j].1@
                        == view[j].1,
                mods@.len() == i,
                forall|j: int|
                    0 <= j < i ==> Some((#[trigger] mods@[j])@) == mod_of(view[j].0, view[j].1),
            decreases rows.len() - i,
        {
            match decode_dependencies(rows[i].1.dependencies.as_str()) {
                Ok(dependencies) => {
                    mods.push(installed_mod(rows[i].0.as_str(), &rows[i].1, dependencies));
                },
                Err(e) => {
                    assert(mod_of(view[i as int].0, view[i as int].1) is None);
                    return Err(e);
                },
            }
            i += 1;
        }
        assert forall|j: int| 0 <= j < view.len() implies mod_of(
            (#[trigger] view[j]).0,
            view[j].1,
        ) is Some by {
            assert(Some(mods@[j]@) == mod_of(view[j].0, view[j].1));
        }
        assert forall|a: int, b: int| 0 <= a < b < mods@.len() implies (#[trigger] mods@[a]).name@
            != (#[trigger] mods@[b]).name@ by {
            assert(Some(mods@[a]@) == mod_of(view[a].0, view[a].1));
            assert(Some(mods@[b]@) == mod_of(view[b].0, view[b].1));
            assert(view[a].0 != view[b].0);
        }
        Ok(mods)
    }

    /// Writes a record under `name`, in place of the add-on that was
    /// installed under that name, if any.
    pub fn insert_record(&mut self, name: &str, record: ModRecord)
        ensures
            final(self)@.installed_mods == with(old(self)@.installed_mods, name@, record@),
            final(self)@.settings == old(self)@.settings,
    {
        self.installed_mods.insert(name.to_owned(), record);
    }

    /// Installs an add-on, in place of the one that was installed under the
    /// same name, if any. This succeeds on every input; an add-on that is
    /// installed without a version is stored without one.
    pub fn add_installed_mod(
        &mut self,
        name: &str,
        path: &str,
        dependencies: &[String],
        current_version: Option<String>,
    ) -> (r: Result<(), AppError>)
        ensures
            r is Ok,
            final(self)@.settings == old(self)@.settings,
            final(self)@.installed_mods == with(
                old(self)@.installed_mods,
                name@,
                installed_record(path@, texts(dependencies@), opt_text(current_version)),
            ),
            mod_of(
                name@,
                installed_record(path@, texts(dependencies@), opt_text(current_version)),
            ) == Some(
                InstalledModView {
                    name: name@,
                    path: path@,
                    dependencies: texts(dependencies@),
                    current_version: opt_text(current_version),
                },
            ),
    {
        let text = encode_dependencies(dependencies)?;
        let record = ModRecord { path: path.to_owned(), dependencies: text, current_version };
        self.insert_record(name, record);
        Ok(())
    }

    /// The names of the installed add-ons that depend on `mod_name`, in the
    /// order of the store's rows.
    ///
    /// Fails with `Serialization` where the stored dependencies of some
    /// add-on cannot be read.
    pub fn get_dependents(&self, mod_name: &str) -> (r: Result<Vec<String>, AppError>)
        ensures
            match r {
                Ok(found) => all_readable(self@.installed_mods) && texts(found@) == dependents_of(
                    self@.installed_mods,
                    mod_name@,
                ),
                Err(e) => !all_readable(self@.installed_mods) && e@ is Serialization,
            },
    {
        let rows = self.installed_mods.entries();
        let ghost view = self@.installed_mods;
        let ghost wanted = |row: (Seq<char>, ModRecordView)| depends_on(row.1, mod_name@);
        let ghost key = |row: (Seq<char>, ModRecordView)| row.0;
        let mut found: Vec<String> = Vec::new();
        let mut i: usize = 0;
        proof {
            reveal(Seq::filter);
            assert(view.take(0) =~= Seq::<(Seq<char>, ModRecordView)>::empty());
            assert(texts(found@) =~= view.take(0).filter(wanted).map_values(key));
        }
        while i < rows.len()
            invariant
                i <= rows.len(),
                view == self@.installed_mods,
                rows@.len() == view.len(),
                wanted == |row: (Seq<char>, ModRecordView)| depends_on(row.1, mod_name@),
                key == |row: (Seq<char>, ModRecordView)| row.0,
                forall|j: int|
                    0 <= j < rows@.len() ==> (#[trigger] rows@[j]).0@ == view[j].0 && rows@[j].1@
                        == view[j].1,
                forall|j: int| 0 <= j < i ==> mod_of((#[trigger] view[j]).0, view[j].1) is Some,
                texts(found@) == view.take(i as int).filter(wanted).map_values(key),
            decreases rows.len() - i,
        {
            let ghost before = texts(found@);
            match decode_dependencies(rows[i].1.dependencies.as_str()) {
                Ok(dependencies) => {
                    let hit = names_dependency(&dependencies, mod_name);
                    proof {
                        let head = view.take(i as int);
                        assert(view.take(i + 1) =~= head.push(view[i as int]));
                        head.lemma_filter_push(view[i as int], wanted);
                        assert(hit == wanted(view[i as int]));
                    }
                    if hit {
                        found.push(rows[i].0.clone());
                        assert(texts(found@) =~= before.push(view[i as int].0));
                        assert(view.take(i + 1).filter(wanted).map_values(key) =~= before.push(
                            view[i as int].0,
                        ));
                    }
                },
                Err(e) => {
                    assert(mod_of(view[i as int].0, view[i as int].1) is None);
                    return Err(e);
                },
            }
            i += 1;
        }
        assert(view.take(i as int) =~= view);
        Ok(found)
    }

    /// Takes the add-on installed under `name` out of the store, if there is
    /// one.
    pub fn remove_installed_mod(&mut self, name: &str)
        ensures
            final(self)@.installed_mods == without(old(self)@.installed_mods, name@),
            final(self)@.settings == old(self)@.settings,
    {
        self.installed_mods.remove(name);
    }

    /// The recorded path of the game installation, if one is recorded.
    pub fn get_installation_path(&self) -> (path: Option<String>)
        ensures
            opt_text(path) == value_of(self@.settings, INSTALLATION_PATH_KEY@),
    {
        match self.settings.get(INSTALLATION_PATH_KEY) {
            Some(v) => Some(v.clone()),
            None => None,
        }
    }

    /// Records the path of the game installation.
    pub fn set_installation_path(&mut self, path: &str)
        ensures
            final(self)@.settings == with(old(self)@.settings, INSTALLATION_PATH_KEY@, path@),
            final(self)@.installed_mods == old(self)@.installed_mods,
    {
        self.settings.insert(String::from_str(INSTALLATION_PATH_KEY), path.to_owned());
    }

    /// Forgets the path of the game installation.
    pub fn remove_installation_path(&mut self)
        ensures
            final(self)@.settings == without(old(self)@.settings, INSTALLATION_PATH_KEY@),
            final(self)@.installed_mods == old(self)@.installed_mods,
    {
        self.settings.remove(INSTALLATION_PATH_KEY);
    }

    /// The version recorded for the add-on installed under `mod_name`: the
    /// empty text where none is installed under that name, or the add-on is
    /// installed without a version. This succeeds on every input.
    pub fn get_last_installed_version(&self, mod_name: &str) -> (r: Result<String, AppError>)
        ensures
            r matches Ok(version) && version@ == last_version(self@.installed_mods, mod_name@),
    {
        match self.installed_mods.get(mod_name) {
            None => Ok(String::new()),
            Some(record) => match &record.current_version {
                Some(version) => Ok(version.clone()),
                None => Ok(String::new()),
            },
        }
    }

    /// Records `version` for the add-on installed under `mod_name`; the
    /// add-on keeps its place among the rows.
    ///
    /// Fails with `InvalidState`, and changes nothing, where no add-on is
    /// installed under that name.
    pub fn set_last_installed_version(&mut self, mod_name: &str, version: &str) -> (r: Result<
        (),
        AppError,
    >)
        ensures
            final(self)@.settings == old(self)@.settings,
            match value_of(old(self)@.installed_mods, mod_name@) {
                Some(record) => r is Ok && final(self)@.installed_mods == replaced(
                    old(self)@.installed_mods,
                    mod_name@,
                    (ModRecordView { current_version: Some(version@), ..record }),
                ),
                None => final(self)@.installed_mods == old(self)@.installed_mods && (r matches Err(
                    e,
                ) && e@ == ErrorView::InvalidState(not_found_message(mod_name@))),
            },
    {
        let updated = match self.installed_mods.get(mod_name) {
            Some(record) => Some(
                ModRecord {
                    path: record.path.clone(),
                    dependencies: record.dependencies.clone(),
                    current_version: Some(version.to_owned()),
                },
            ),
            None => None,
        };
        proof {
            lemma_value_of_has_key(self@.installed_mods, mod_name@);
        }
        match updated {
            Some(record) => {
                self.installed_mods.replace(mod_name, record);
                Ok(())
            },
            None => {
                let mut message = String::from_str("Mod ");
                message.append(mod_name);
                message.append(" not found");
                Err(AppError::InvalidState(message))
            },
        }
    }

    /// Records whether the background is animated.
    pub fn set_background_enabled(&mut self, enabled: bool)
        ensures
            final(self)@.settings == with(
                old(self)@.settings,
                BACKGROUND_ENABLED_KEY@,
                enabled_text(enabled),
            ),
            final(self)@.installed_mods == old(self)@.installed_mods,
    {
        let value = if enabled {
            "enabled"
        } else {
            "disabled"
        };
        self.settings.insert(String::from_str(BACKGROUND_ENABLED_KEY), String::from_str(value));
    }

    /// Whether the background is animated: so only where the setting reads
    /// "enabled".
    pub fn get_background_enabled(&self) -> (enabled: bool)
        ensures
            enabled == (value_of(self@.settings, BACKGROUND_ENABLED_KEY@) == Some("enabled"@)),
    {
        match self.settings.get(BACKGROUND_ENABLED_KEY) {
            Some(v) => str_eq(v.as_str(), "enabled"),
            None => false,
        }
    }

    /// Records that the injector opens a console.
    fn enable_lovely_console(&mut self)
        ensures
            final(self)@.settings == with(old(self)@.settings, LOVELY_CONSOLE_KEY@, "enabled"@),
            final(self)@.installed_mods == old(self)@.installed_mods,
    {
        self.settings.insert(String::from_str(LOVELY_CONSOLE_KEY), String::from_str("enabled"));
    }

    /// Records that the injector opens no console.
    fn disable_lovely_console(&mut self)
        ensures
            final(self)@.settings == with(old(self)@.settings, LOVELY_CONSOLE_KEY@, "disabled"@),
            final(self)@.installed_mods == old(self)@.installed_mods,
    {
        self.settings.insert(String::from_str(LOVELY_CONSOLE_KEY), String::from_str("disabled"));
    }

    /// Records whether the injector opens a console.
    pub fn set_lovely_console_status(&mut self, enabled: bool)
        ensures
            final(self)@.settings == with(
                old(self)@.settings,
                LOVELY_CONSOLE_KEY@,
                enabled_text(enabled),
            ),
            final(self)@.installed_mods == old(self)@.installed_mods,
    {
        if enabled {
            self.enable_lovely_console()
        } else {
            self.disable_lovely_console()
        }
    }

    /// Whether the injector opens a console: so only where the setting reads
    /// "enabled".
    pub fn is_lovely_console_enabled(&self) -> (enabled: bool)
        ensures
            enabled == (value_of(self@.settings, LOVELY_CONSOLE_KEY@) == Some("enabled"@)),
    {
        match self.settings.get(LOVELY_CONSOLE_KEY) {
            Some(v) => str_eq(v.as_str(), "enabled"),
            None => false,
        }
    }

    /// Records whether the security warning was acknowledged.
    pub fn set_security_warning_acknowledged(&mut self, acknowledged: bool)
        ensures
            final(self)@.settings == with(
                old(self)@.settings,
                SECURITY_WARNING_KEY@,
                yes_text(acknowledged),
            ),
            final(self)@.installed_mods == old(self)@.installed_mods,
    {
        let value = if acknowledged {
            "yes"
        } else {
            "no"
        };
        self.settings.insert(String::from_str(SECURITY_WARNING_KEY), String::from_str(value));
    }

    /// Whether the security warning was acknowledged: so only where the
    /// setting reads "yes".
    pub fn is_security_warning_acknowledged(&self) -> (acknowledged: bool)
        ensures
            acknowledged == (value_of(self@.settings, SECURITY_WARNING_KEY@) == Some("yes"@)),
    {
        match self.settings.get(SECURITY_WARNING_KEY) {
            Some(v) => str_eq(v.as_str(), "yes"),
            None => false,
        }
    }
}

} // verus!

//! Configuration: schema, defaults, and loading.
//!
//! The configuration value carries the ignore-pattern list the tree walk
//! consumes, plus package and profile declarations that this core holds but
//! does not otherwise interpret.  It is read from a TOML document: a missing
//! source is not an error and yields the defaults; a document that is not
//! well-formed TOML, or that does not fit the schema, fails with a
//! distinguishable parse error and no partial value.

use vstd::prelude::*;

use crate::error::ConfigError;
use crate::path::FsPath;
use crate::toml_doc::{
    lemma_table_lookup_first_match, lemma_table_lookup_none, lemma_toml_entries_model_index,
    lemma_toml_entries_model_len, lemma_toml_entries_model_skip, lemma_toml_items_model_skip,
    parse_toml_source, table_lookup, toml_doc_of, toml_entries_model, toml_items_model,
    toml_parses, toml_value_model, TomlModel, TomlValue,
};

verus! {

/// One package declaration.
#[derive(Debug, Clone, PartialEq, Eq)]
pub struct PackageSpec {
    pub name: String,
    pub manager: Option<String>,
}

/// Spec-level picture of a [`PackageSpec`].
pub struct PackageModel {
    pub name: Seq<char>,
    pub manager: Option<Seq<char>>,
}

impl View for PackageSpec {
    type V = PackageModel;

    open spec fn view(&self) -> PackageModel {
        PackageModel { name: self.name@, manager: self.manager.deep_view() }
    }
}

impl DeepView for PackageSpec {
    type V = PackageModel;

    open spec fn deep_view(&self) -> PackageModel {
        self@
    }
}

/// One named profile: its packages and its variables.
#[derive(Debug, Clone, PartialEq, Eq)]
pub struct Profile {
    pub packages: Vec<PackageSpec>,
    pub variables: Vec<(String, String)>,
}

/// Spec-level picture of a [`Profile`].
pub struct ProfileModel {
    pub packages: Seq<PackageModel>,
    pub variables: Seq<(Seq<char>, Seq<char>)>,
}

impl View for Profile {
    type V = ProfileModel;

    open spec fn view(&self) -> ProfileModel {
        ProfileModel {
            packages: self.packages.deep_view(),
            variables: self.variables.deep_view(),
        }
    }
}

impl DeepView for Profile {
    type V = ProfileModel;

    open spec fn deep_view(&self) -> ProfileModel {
        self@
    }
}

/// The configuration value: ignore patterns, packages, named profiles.
#[derive(Debug, Clone, PartialEq, Eq)]
pub struct PlasmidConfig {
    pub ignore: Vec<String>,
    pub packages: Vec<PackageSpec>,
    pub profiles: Vec<(String, Profile)>,
}

/// Spec-level picture of a [`PlasmidConfig`].
pub struct ConfigModel {
    pub ignore: Seq<Seq<char>>,
    pub packages: Seq<PackageModel>,
    pub profiles: Seq<(Seq<char>, ProfileModel)>,
}

impl View for PlasmidConfig {
    type V = ConfigModel;

    open spec fn view(&self) -> ConfigModel {
        ConfigModel {
            ignore: self.ignore.deep_view(),
            packages: self.packages.deep_view(),
            profiles: self.profiles.deep_view(),
        }
    }
}

/// The defaults used when no configuration source exists: ignore only
/// `.gitignore`, no packages, no profiles.
pub open spec fn default_config_model() -> ConfigModel {
    ConfigModel {
        ignore: seq![".gitignore"@],
        packages: Seq::empty(),
        profiles: Seq::empty(),
    }
}

impl Default for PlasmidConfig {
    /// The default configuration value.
    fn default() -> (r: PlasmidConfig)
        ensures
            r@ == default_config_model(),
    {
        let mut ignore: Vec<String> = Vec::new();
        ignore.push(".gitignore".to_owned());
        let r = PlasmidConfig { ignore, packages: Vec::new(), profiles: Vec::new() };
        proof {
            assert(r@.ignore =~= default_config_model().ignore);
            assert(r@.packages =~= default_config_model().packages);
            assert(r@.profiles =~= default_config_model().profiles);
        }
        r
    }
}

// ---------------------------------------------------------------------------
// What a TOML document must hold to fit the schema.
// ---------------------------------------------------------------------------

/// The strings of an array all of whose items are strings.
pub open spec fn string_items_of(items: Seq<TomlModel>) -> Option<Seq<Seq<char>>>
    decreases items,
{
    if items.len() == 0 {
        Some(Seq::empty())
    } else {
        match items.first() {
            TomlModel::Str { value } => match string_items_of(items.drop_first()) {
                Some(rest) => Some(seq![value] + rest),
                None => None,
            },
            _ => None,
        }
    }
}

/// One package: a table with a string `name` and an optional string
/// `manager`; other keys are permitted and ignored.
pub open spec fn package_of(v: TomlModel) -> Option<PackageModel> {
    match v {
        TomlModel::Table { entries } => match table_lookup(entries, "name"@) {
            Some(TomlModel::Str { value: name }) => match table_lookup(entries, "manager"@) {
                Some(TomlModel::Str { value: manager }) => Some(
                    PackageModel { name, manager: Some(manager) },
                ),
                Some(_) => None,
                None => Some(PackageModel { name, manager: None }),
            },
            _ => None,
        },
        _ => None,
    }
}

/// The packages of an array all of whose items fit [`package_of`].
pub open spec fn packages_of(items: Seq<TomlModel>) -> Option<Seq<PackageModel>>
    decreases items,
{
    if items.len() == 0 {
        Some(Seq::empty())
    } else {
        match package_of(items.first()) {
            Some(p) => match packages_of(items.drop_first()) {
                Some(rest) => Some(seq![p] + rest),
                None => None,
            },
            None => None,
        }
    }
}

/// The variables of a table all of whose values are strings.
pub open spec fn variables_of(entries: Seq<(Seq<char>, TomlModel)>) -> Option<
    Seq<(Seq<char>, Seq<char>)>,
>
    decreases entries,
{
    if entries.len() == 0 {
        Some(Seq::empty())
    } else {
        match entries.first().1 {
            TomlModel::Str { value } => match variables_of(entries.drop_first()) {
                Some(rest) => Some(seq![(entries.first().0, value)] + rest),
                None => None,
            },
            _ => None,
        }
    }
}

/// One profile: a table with a `packages` array and a `variables` table.
pub open spec fn profile_of(v: TomlModel) -> Option<ProfileModel> {
    match v {
        TomlModel::Table { entries } => match (
            table_lookup(entries, "packages"@),
            table_lookup(entries, "variables"@),
        ) {
            (Some(TomlModel::Array { items }), Some(TomlModel::Table { entries: vars })) => match (
                packages_of(items),
                variables_of(vars),
            ) {
                (Some(ps), Some(vs)) => Some(ProfileModel { packages: ps, variables: vs }),
                _ => None,
            },
            _ => None,
        },
        _ => None,
    }
}

/// The profiles of a table all of whose values fit [`profile_of`].
pub open spec fn profiles_of(entries: Seq<(Seq<char>, TomlModel)>) -> Option<
    Seq<(Seq<char>, ProfileModel)>,
>
    decreases entries,
{
    if entries.len() == 0 {
        Some(Seq::empty())
    } else {
        match profile_of(entries.first().1) {
            Some(p) => match profiles_of(entries.drop_first()) {
                Some(rest) => Some(seq![(entries.first().0, p)] + rest),
                None => None,
            },
            None => None,
        }
    }
}

/// The configuration a TOML document denotes: a top-level table with an
/// `ignore` array of strings, a `packages` array and a `profiles` table, all
/// three required; unknown top-level keys are permitted and ignored.
pub open spec fn config_of(doc: TomlModel) -> Option<ConfigModel> {
    match doc {
        TomlModel::Table { entries } => match (
            table_lookup(entries, "ignore"@),
            table_lookup(entries, "packages"@),
            table_lookup(entries, "profiles"@),
        ) {
            (
                Some(TomlModel::Array { items: ignore_items }),
                Some(TomlModel::Array { items: package_items }),
                Some(TomlModel::Table { entries: profile_entries }),
            ) => match (
                string_items_of(ignore_items),
                packages_of(package_items),
                profiles_of(profile_entries),
            ) {
                (Some(a), Some(b), Some(c)) => Some(
                    ConfigModel { ignore: a, packages: b, profiles: c },
                ),
                _ => None,
            },
            _ => None,
        },
        _ => None,
    }
}

// ---------------------------------------------------------------------------
// Verified extraction of a configuration from a parsed document.
// ---------------------------------------------------------------------------

/// The value under `key` in a parsed table, first match wins.
fn table_get<'a>(entries: &'a Vec<(String, TomlValue)>, key: &String) -> (r: Option<
    &'a TomlValue,
>)
    ensures
        match r {
            Some(v) => table_lookup(toml_entries_model(entries@), key@) == Some(v@),
            None => table_lookup(toml_entries_model(entries@), key@) is None,
        },
{
    proof {
        lemma_toml_entries_model_len(entries@);
    }
    for i in 0..entries.len()
        invariant
            forall|j: int|
                0 <= j < i ==> #[trigger] toml_entries_model(entries@)[j].0 != key@,
            toml_entries_model(entries@).len() == entries@.len(),
    {
        proof {
            lemma_toml_entries_model_index(entries@, i as int);
        }
        if entries[i].0 == *key {
            proof {
                lemma_table_lookup_first_match(toml_entries_model(entries@), key@, i as int);
            }
            return Some(&entries[i].1);
        }
    }
    proof {
        lemma_table_lookup_none(toml_entries_model(entries@), key@);
    }
    None
}

/// The strings of an array's items from index `i` on, if they are all
/// strings.
fn extract_strings_from(items: &Vec<TomlValue>, i: usize) -> (r: Option<Vec<String>>)
    requires
        i <= items.len(),
    ensures
        match r {
            Some(out) => string_items_of(toml_items_model(items@.skip(i as int))) == Some(
                out.deep_view(),
            ),
            None => string_items_of(toml_items_model(items@.skip(i as int))) is None,
        },
    decreases items@.len() - i,
{
    if i == items.len() {
        let out: Vec<String> = Vec::new();
        proof {
            assert(items@.skip(i as int) =~= Seq::<TomlValue>::empty());
            assert(out.deep_view() =~= Seq::<Seq<char>>::empty());
        }
        return Some(out);
    }
    proof {
        lemma_toml_items_model_skip(items@, i as int);
    }
    match &items[i] {
        TomlValue::Str { value } => {
            match extract_strings_from(items, i + 1) {
                Some(rest) => {
                    let mut out: Vec<String> = Vec::new();
                    out.push(value.clone());
                    let ghost head = out.deep_view();
                    let mut tail = rest;
                    let ghost tail_view = tail.deep_view();
                    out.append(&mut tail);
                    proof {
                        assert(head =~= seq![value@]);
                        assert(out.deep_view() =~= head + tail_view);
                    }
                    Some(out)
                },
                None => None,
            }
        },
        _ => None,
    }
}

/// One package from a parsed value, if it fits the schema.
fn extract_package(v: &TomlValue) -> (r: Option<PackageSpec>)
    ensures
        match r {
            Some(p) => package_of(v@) == Some(p@),
            None => package_of(v@) is None,
        },
{
    match v {
        TomlValue::Table { entries } => {
            let name_key = "name".to_owned();
            match table_get(entries, &name_key) {
                Some(TomlValue::Str { value: name }) => {
                    let manager_key = "manager".to_owned();
                    match table_get(entries, &manager_key) {
                        Some(TomlValue::Str { value: manager }) => Some(
                            PackageSpec { name: name.clone(), manager: Some(manager.clone()) },
                        ),
                        Some(_) => None,
                        None => Some(PackageSpec { name: name.clone(), manager: None }),
                    }
                },
                _ => None,
            }
        },
        _ => None,
    }
}

/// The packages of an array's items from index `i` on.
fn extract_packages_from(items: &Vec<TomlValue>, i: usize) -> (r: Option<Vec<PackageSpec>>)
    requires
        i <= items.len(),
    ensures
        match r {
            Some(out) => packages_of(toml_items_model(items@.skip(i as int))) == Some(
                out.deep_view(),
            ),
            None => packages_of(toml_items_model(items@.skip(i as int))) is None,
        },
    decreases items@.len() - i,
{
    if i == items.len() {
        let out: Vec<PackageSpec> = Vec::new();
        proof {
            assert(items@.skip(i as int) =~= Seq::<TomlValue>::empty());
            assert(out.deep_view() =~= Seq::<PackageModel>::empty());
        }
        return Some(out);
    }
    proof {
        lemma_toml_items_model_skip(items@, i as int);
    }
    match extract_package(&items[i]) {
        Some(p) => {
            match extract_packages_from(items, i + 1) {
                Some(rest) => {
                    let mut out: Vec<PackageSpec> = Vec::new();
                    out.push(p);
                    let ghost head = out.deep_view();
                    let mut tail = rest;
                    let ghost tail_view = tail.deep_view();
                    out.append(&mut tail);
                    proof {
                        assert(out.deep_view() =~= head + tail_view);
                    }
                    Some(out)
                },
                None => None,
            }
        },
        None => None,
    }
}

/// The variables of a table's entries from index `i` on.
fn extract_variables_from(entries: &Vec<(String, TomlValue)>, i: usize) -> (r: Option<
    Vec<(String, String)>,
>)
    requires
        i <= entries.len(),
    ensures
        match r {
            Some(out) => variables_of(toml_entries_model(entries@.skip(i as int))) == Some(
                out.deep_view(),
            ),
            None => variables_of(toml_entries_model(entries@.skip(i as int))) is None,
        },
    decreases entries@.len() - i,
{
    if i == entries.len() {
        let out: Vec<(String, String)> = Vec::new();
        proof {
            assert(entries@.skip(i as int) =~= Seq::<(String, TomlValue)>::empty());
            assert(out.deep_view() =~= Seq::<(Seq<char>, Seq<char>)>::empty());
        }
        return Some(out);
    }
    proof {
        lemma_toml_entries_model_skip(entries@, i as int);
    }
    match &entries[i].1 {
        TomlValue::Str { value } => {
            match extract_variables_from(entries, i + 1) {
                Some(rest) => {
                    let mut out: Vec<(String, String)> = Vec::new();
                    out.push((entries[i].0.clone(), value.clone()));
                    let ghost head = out.deep_view();
                    let mut tail = rest;
                    let ghost tail_view = tail.deep_view();
                    out.append(&mut tail);
                    proof {
                        assert(head =~= seq![(entries@[i as int].0@, value@)]);
                        assert(out.deep_view() =~= head + tail_view);
                    }
                    Some(out)
                },
                None => None,
            }
        },
        _ => None,
    }
}

/// One profile from a parsed value, if it fits the schema.
fn extract_profile(v: &TomlValue) -> (r: Option<Profile>)
    ensures
        match r {
            Some(p) => profile_of(v@) == Some(p@),
            None => profile_of(v@) is None,
        },
{
    match v {
        TomlValue::Table { entries } => {
            let packages_key = "packages".to_owned();
            let variables_key = "variables".to_owned();
            match (table_get(entries, &packages_key), table_get(entries, &variables_key)) {
                (
                    Some(TomlValue::Array { items }),
                    Some(TomlValue::Table { entries: vars }),
                ) => {
                    proof {
                        assert(items@.skip(0) =~= items@);
                        assert(vars@.skip(0) =~= vars@);
                    }
                    match (extract_packages_from(items, 0), extract_variables_from(vars, 0)) {
                        (Some(ps), Some(vs)) => Some(Profile { packages: ps, variables: vs }),
                        _ => None,
                    }
                },
                _ => None,
            }
        },
        _ => None,
    }
}

/// The profiles of a table's entries from index `i` on.
fn extract_profiles_from(entries: &Vec<(String, TomlValue)>, i: usize) -> (r: Option<
    Vec<(String, Profile)>,
>)
    requires
        i <= entries.len(),
    ensures
        match r {
            Some(out) => profiles_of(toml_entries_model(entries@.skip(i as int))) == Some(
                out.deep_view(),
            ),
            None => profiles_of(toml_entries_model(entries@.skip(i as int))) is None,
        },
    decreases entries@.len() - i,
{
    if i == entries.len() {
        let out: Vec<(String, Profile)> = Vec::new();
        proof {
            assert(entries@.skip(i as int) =~= Seq::<(String, TomlValue)>::empty());
            assert(out.deep_view() =~= Seq::<(Seq<char>, ProfileModel)>::empty());
        }
        return Some(out);
    }
    proof {
        lemma_toml_entries_model_skip(entries@, i as int);
    }
    match extract_profile(&entries[i].1) {
        Some(p) => {
            match extract_profiles_from(entries, i + 1) {
                Some(rest) => {
                    let mut out: Vec<(String, Profile)> = Vec::new();
                    out.push((entries[i].0.clone(), p));
                    let ghost head = out.deep_view();
                    let mut tail = rest;
                    let ghost tail_view = tail.deep_view();
                    out.append(&mut tail);
                    proof {
                        assert(out.deep_view() =~= head + tail_view);
                    }
                    Some(out)
                },
                None => None,
            }
        },
        None => None,
    }
}

/// The configuration a parsed document denotes, if it fits the schema.
fn extract_config(doc: &TomlValue) -> (r: Option<PlasmidConfig>)
    ensures
        match r {
            Some(c) => config_of(doc@) == Some(c@),
            None => config_of(doc@) is None,
        },
{
    match doc {
        TomlValue::Table { entries } => {
            let ignore_key = "ignore".to_owned();
            let packages_key = "packages".to_owned();
            let profiles_key = "profiles".to_owned();
            match (
                table_get(entries, &ignore_key),
                table_get(entries, &packages_key),
                table_get(entries, &profiles_key),
            ) {
                (
                    Some(TomlValue::Array { items: ignore_items }),
                    Some(TomlValue::Array { items: package_items }),
                    Some(TomlValue::Table { entries: profile_entries }),
                ) => {
                    proof {
                        assert(ignore_items@.skip(0) =~= ignore_items@);
                        assert(package_items@.skip(0) =~= package_items@);
                        assert(profile_entries@.skip(0) =~= profile_entries@);
                    }
                    match (
                        extract_strings_from(ignore_items, 0),
                        extract_packages_from(package_items, 0),
                        extract_profiles_from(profile_entries, 0),
                    ) {
                        (Some(a), Some(b), Some(c)) => Some(
                            PlasmidConfig { ignore: a, packages: b, profiles: c },
                        ),
                        _ => None,
                    }
                },
                _ => None,
            }
        },
        _ => None,
    }
}

// ---------------------------------------------------------------------------
// Loading.
// ---------------------------------------------------------------------------

/// The configuration a source text denotes: the defaults where no source
/// exists; otherwise the parsed and schema-checked document, or a parse
/// error.  This is the whole decision — reading the text is the caller's
/// side.
pub fn config_from_source(path: &FsPath, content: Option<&String>) -> (r: Result<
    PlasmidConfig,
    ConfigError,
>)
    ensures
        match content {
            None => r is Ok && (r->Ok_0)@ == default_config_model(),
            Some(text) => {
                if toml_parses(text@) && config_of(toml_doc_of(text@)) is Some {
                    r is Ok && Some((r->Ok_0)@) == config_of(toml_doc_of(text@))
                } else {
                    r is Err && r->Err_0 matches ConfigError::TomlParseError { .. }
                }
            },
        },
{
    match content {
        None => Ok(PlasmidConfig::default()),
        Some(text) => {
            match parse_toml_source(text.as_str()) {
                Err(message) => Err(
                    ConfigError::TomlParseError { path: path.duplicate(), message },
                ),
                Ok(doc) => match extract_config(&doc) {
                    Some(config) => Ok(config),
                    None => Err(
                        ConfigError::TomlParseError {
                            path: path.duplicate(),
                            message: "the document does not fit the configuration schema".to_owned(),
                        },
                    ),
                },
            }
        },
    }
}

/// Defines the behavior for retrieving configuration content.
///
/// `Ok(Some(text))`: a source exists and was read.  `Ok(None)`: no source
/// exists — not an error.  `Err`: a source exists but could not be read.
pub trait ConfigReader: Sized {
    /// The text a successful read of `path` yields; `None` where no source
    /// exists there.
    open spec fn source_text(&self, path: Seq<Seq<char>>) -> Option<Seq<char>> {
        arbitrary()
    }

    /// Attempts to read the configuration source at the given path.
    fn read_file(&self, path: &FsPath) -> (r: Result<Option<String>, ConfigError>)
        ensures
            r is Ok ==> (r->Ok_0).deep_view() == self.source_text(path@),
            r is Err ==> r->Err_0 matches ConfigError::IoError { .. },
    ;
}

/// The text recorded for `path`, scanning the newest records first.
pub open spec fn text_lookup(files: Seq<(FsPath, String)>, path: Seq<Seq<char>>) -> Option<
    Seq<char>,
>
    decreases files.len(),
{
    if files.len() == 0 {
        None
    } else if files.last().0@ == path {
        Some(files.last().1@)
    } else {
        text_lookup(files.drop_last(), path)
    }
}

/// An in-memory configuration source: a record of (path, text) pairs.
#[derive(Debug, Clone)]
pub struct MemConfigReader {
    pub files: Vec<(FsPath, String)>,
}

impl MemConfigReader {
    /// A reader holding no source at all.
    pub fn new() -> (r: MemConfigReader)
        ensures
            r.files@ == Seq::<(FsPath, String)>::empty(),
    {
        let r = MemConfigReader { files: Vec::new() };
        proof {
            assert(r.files@ =~= Seq::<(FsPath, String)>::empty());
        }
        r
    }

    /// Records `content` at `path`, shadowing whatever stood there.
    pub fn add_file(&mut self, path: FsPath, content: String)
        ensures
            text_lookup(final(self).files@, path@) == Some(content@),
            forall|q: Seq<Seq<char>>|
                q != path@ ==> text_lookup(final(self).files@, q) == text_lookup(
                    old(self).files@,
                    q,
                ),
    {
        let ghost old_files = self.files@;
        let ghost record = (path, content);
        self.files.push((path, content));
        proof {
            assert forall|q: Seq<Seq<char>>| true implies text_lookup(self.files@, q)
                == if record.0@ == q {
                Some(record.1@)
            } else {
                text_lookup(old_files, q)
            } by {
                assert(old_files.push(record).last() == record);
                assert(old_files.push(record).drop_last() =~= old_files);
            }
        }
    }
}

impl ConfigReader for MemConfigReader {
    open spec fn source_text(&self, path: Seq<Seq<char>>) -> Option<Seq<char>> {
        text_lookup(self.files@, path)
    }

    fn read_file(&self, path: &FsPath) -> (r: Result<Option<String>, ConfigError>)
        ensures
            r is Ok,
    {
        let mut i = self.files.len();
        proof {
            assert(self.files@.take(i as int) =~= self.files@);
        }
        while i > 0
            invariant
                i <= self.files.len(),
                text_lookup(self.files@, path@) == text_lookup(
                    self.files@.take(i as int),
                    path@,
                ),
            decreases i,
        {
            i = i - 1;
            proof {
                assert(self.files@.take(i as int + 1).last() == self.files@[i as int]);
                assert(self.files@.take(i as int + 1).drop_last() =~= self.files@.take(i as int));
            }
            if self.files[i].0.path_eq(path) {
                return Ok(Some(self.files[i].1.clone()));
            }
        }
        proof {
            assert(self.files@.take(0) =~= Seq::<(FsPath, String)>::empty());
        }
        Ok(None)
    }
}

/// Loads the configuration: reads the source through `reader`, falls back to
/// the defaults where none exists, and otherwise parses and schema-checks
/// the document.  Read failures and parse failures abort the load entirely.
pub fn load_config<R: ConfigReader>(path: &FsPath, reader: &R) -> (r: Result<
    PlasmidConfig,
    ConfigError,
>)
    ensures
        r is Ok ==> match reader.source_text(path@) {
            None => (r->Ok_0)@ == default_config_model(),
            Some(text) => toml_parses(text) && Some((r->Ok_0)@) == config_of(toml_doc_of(text)),
        },
        r is Err ==> (r->Err_0 matches ConfigError::IoError { .. }) || (
        reader.source_text(path@) matches Some(text) && !(toml_parses(text) && config_of(
            toml_doc_of(text),
        ) is Some) && r->Err_0 matches ConfigError::TomlParseError { .. }),
{
    let content = match reader.read_file(path) {
        Ok(c) => c,
        Err(e) => {
            return Err(e);
        },
    };
    config_from_source(path, content.as_ref())
}

} // verus!

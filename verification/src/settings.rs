//! Settings of a dap, the document in which they are kept, and the rules by
//! which a document that leaves keys out is read.

use vstd::prelude::*;
use crate::access::{
    lemma_listing, lemma_token_round_trip, listing_of, permission_of, token_of, Permission,
    PermissionSet,
};
use crate::text::concatenate;

verus! {

/// What the host shows of a dap and whether the dap is active.
#[derive(Debug, PartialEq, Eq)]
pub struct ApplicationSettings {
    pub title: String,
    pub enabled: bool,
}

/// What a dap cannot work without, and what the host grants it.
#[derive(Debug, PartialEq, Eq)]
pub struct PermissionsSettings {
    pub required: PermissionSet,
    pub allowed: PermissionSet,
}

/// The settings of one dap.
#[derive(Debug, PartialEq, Eq)]
pub struct DapSettings {
    pub application: ApplicationSettings,
    pub permissions: PermissionsSettings,
}

/// Settings as plain values.
pub struct DapSettingsView {
    pub title: Seq<char>,
    pub enabled: bool,
    pub required: Set<Permission>,
    pub allowed: Set<Permission>,
}

impl View for DapSettings {
    type V = DapSettingsView;

    open spec fn view(&self) -> DapSettingsView {
        DapSettingsView {
            title: self.application.title@,
            enabled: self.application.enabled,
            required: self.permissions.required@,
            allowed: self.permissions.allowed@,
        }
    }
}

/// The settings of a dap that has no settings document: not enabled, no
/// title, nothing required and nothing allowed.
pub open spec fn default_settings() -> DapSettingsView {
    DapSettingsView {
        title: Seq::empty(),
        enabled: false,
        required: Set::empty(),
        allowed: Set::empty(),
    }
}

/// Why settings could not be loaded or saved.
#[derive(Debug, PartialEq, Eq)]
pub enum DapSettingsError {
    /// There is no settings document.
    NotFound,
    /// The document is malformed; the text says how.
    Parse(String),
    /// The document could not be read or written; the text says why.
    Io(String),
}

/// What loading or saving settings ends with.
pub type DapSettingsResult<T> = Result<T, DapSettingsError>;

/// Why settings could not be loaded or saved, as plain values.
pub enum SettingsFailure {
    NotFound,
    Parse(Seq<char>),
    Io(Seq<char>),
}

impl View for DapSettingsError {
    type V = SettingsFailure;

    open spec fn view(&self) -> SettingsFailure {
        match self {
            DapSettingsError::NotFound => SettingsFailure::NotFound,
            DapSettingsError::Parse(reason) => SettingsFailure::Parse(reason@),
            DapSettingsError::Io(reason) => SettingsFailure::Io(reason@),
        }
    }
}

/// The `application` table of a settings document; any key may be missing.
#[derive(Debug, PartialEq, Eq)]
pub struct ApplicationDocument {
    pub title: Option<String>,
    pub enabled: Option<bool>,
}

/// The `permissions` table of a settings document; any key may be missing.
/// Permissions are written by their names.
#[derive(Debug, PartialEq, Eq)]
pub struct PermissionsDocument {
    pub required: Option<Vec<String>>,
    pub allowed: Option<Vec<String>>,
}

/// A settings document as it is kept in a file; any table may be missing.
#[derive(Debug, PartialEq, Eq)]
pub struct SettingsDocument {
    pub application: Option<ApplicationDocument>,
    pub permissions: Option<PermissionsDocument>,
}

/// What was found where a settings document is kept.
#[derive(Debug, PartialEq, Eq)]
pub enum SettingsFile {
    /// There is no file.
    Missing,
    /// There is a file and it could not be read; the text says why.
    Unreadable(String),
    /// The file does not hold a document; the text says why.
    Malformed(String),
    /// The document that the file holds.
    Document(SettingsDocument),
}

/// A request to keep `document` in the file at `path`.
#[derive(Debug, PartialEq, Eq)]
pub struct SettingsWrite {
    pub path: String,
    pub document: SettingsDocument,
}

/// The texts of a list of strings.
pub open spec fn texts(items: Seq<String>) -> Seq<Seq<char>> {
    items.map_values(|s: String| s@)
}

/// The token at place `i` names no permission, and every token before it
/// names one.
pub open spec fn unknown_at(tokens: Seq<Seq<char>>, i: int) -> bool {
    &&& 0 <= i < tokens.len()
    &&& permission_of(tokens[i]) is None
    &&& forall|j: int| 0 <= j < i ==> permission_of(#[trigger] tokens[j]) is Some
}

/// The first token that names no permission, if there is one.
pub open spec fn bad_token(tokens: Seq<Seq<char>>) -> Option<Seq<char>> {
    if exists|i: int| unknown_at(tokens, i) {
        Some(tokens[choose|i: int| unknown_at(tokens, i)])
    } else {
        None
    }
}

/// The permissions that the tokens name.
pub open spec fn tokens_set(tokens: Seq<Seq<char>>) -> Set<Permission> {
    Set::new(
        |p: Permission| exists|i: int| 0 <= i < tokens.len() && permission_of(tokens[i]) == Some(p),
    )
}

/// The names of a list of permissions.
pub open spec fn tokens_of(items: Seq<Permission>) -> Seq<Seq<char>> {
    items.map_values(|p: Permission| token_of(p))
}

/// Whether `document` is the document that holds `settings`: every key
/// present, the permissions by name and in declaration order.
pub open spec fn is_document_of(document: SettingsDocument, settings: DapSettings) -> bool {
    &&& document.application is Some
    &&& document.permissions is Some
    &&& document.title() == settings@.title
    &&& document.enabled() == settings@.enabled
    &&& document.required_tokens() == tokens_of(listing_of(settings.permissions.required))
    &&& document.allowed_tokens() == tokens_of(listing_of(settings.permissions.allowed))
}

/// What the error text says of a token that names no permission.
pub open spec fn unknown_permission(token: Seq<char>) -> Seq<char> {
    "unknown permission: "@ + token
}

impl SettingsDocument {
    /// The title that the document gives; empty where it gives none.
    pub open spec fn title(&self) -> Seq<char> {
        match self.application {
            Some(application) => match application.title {
                Some(title) => title@,
                None => Seq::empty(),
            },
            None => Seq::empty(),
        }
    }

    /// Whether the document says the dap is enabled; `false` where it does
    /// not say.
    pub open spec fn enabled(&self) -> bool {
        match self.application {
            Some(application) => match application.enabled {
                Some(enabled) => enabled,
                None => false,
            },
            None => false,
        }
    }

    /// The names under `permissions.required`; none where the key is missing.
    pub open spec fn required_tokens(&self) -> Seq<Seq<char>> {
        match self.permissions {
            Some(permissions) => match permissions.required {
                Some(tokens) => texts(tokens@),
                None => Seq::empty(),
            },
            None => Seq::empty(),
        }
    }

    /// The names under `permissions.allowed`; none where the key is missing.
    pub open spec fn allowed_tokens(&self) -> Seq<Seq<char>> {
        match self.permissions {
            Some(permissions) => match permissions.allowed {
                Some(tokens) => texts(tokens@),
                None => Seq::empty(),
            },
            None => Seq::empty(),
        }
    }

    /// The settings that the document stands for, each missing key read as
    /// its default; or the first name in it, `required` before `allowed`,
    /// that names no permission.
    pub open spec fn settings(&self) -> Result<DapSettingsView, Seq<char>> {
        match bad_token(self.required_tokens()) {
            Some(token) => Err(token),
            None => match bad_token(self.allowed_tokens()) {
                Some(token) => Err(token),
                None => Ok(
                    DapSettingsView {
                        title: self.title(),
                        enabled: self.enabled(),
                        required: tokens_set(self.required_tokens()),
                        allowed: tokens_set(self.allowed_tokens()),
                    },
                ),
            },
        }
    }
}

/// Reads a list of permission names. `Ok` holds the permission of each name
/// in turn; `Err` holds the first name that is not the name of a permission.
pub fn parse_permissions(tokens: &Vec<String>) -> (r: Result<Vec<Permission>, String>)
    ensures
        match r {
            Ok(items) => {
                &&& bad_token(texts(tokens@)) is None
                &&& items@.len() == tokens@.len()
                &&& forall|i: int|
                    0 <= i < items@.len() ==> permission_of(#[trigger] tokens@[i]@) == Some(
                        items@[i],
                    )
            },
            Err(token) => bad_token(texts(tokens@)) == Some(token@),
        },
{
    let ghost names = texts(tokens@);
    let mut items: Vec<Permission> = Vec::new();
    let mut i: usize = 0;
    while i < tokens.len()
        invariant
            i <= tokens@.len(),
            names == texts(tokens@),
            items@.len() == i,
            forall|j: int| 0 <= j < i ==> permission_of(#[trigger] tokens@[j]@) == Some(items@[j]),
        decreases tokens@.len() - i,
    {
        match Permission::parse(tokens[i].as_str()) {
            Some(permission) => {
                items.push(permission);
            },
            None => {
                proof {
                    assert forall|j: int| 0 <= j < i implies permission_of(
                        #[trigger] names[j],
                    ) is Some by {
                        assert(permission_of(tokens@[j]@) == Some(items@[j]));
                    }
                    assert(unknown_at(names, i as int));
                    lemma_unknown_unique(names, i as int);
                }
                return Err(tokens[i].clone());
            },
        }
        i = i + 1;
    }
    proof {
        if exists|k: int| unknown_at(names, k) {
            let k = choose|k: int| unknown_at(names, k);
            assert(permission_of(tokens@[k]@) == Some(items@[k]));
        }
    }
    Ok(items)
}

/// At most one place holds the first unknown token.
pub proof fn lemma_unknown_unique(tokens: Seq<Seq<char>>, i: int)
    requires
        unknown_at(tokens, i),
    ensures
        bad_token(tokens) == Some(tokens[i]),
{
    let k = choose|k: int| unknown_at(tokens, k);
    if k < i {
        assert(permission_of(tokens[k]) is Some);
    } else if i < k {
        assert(permission_of(tokens[i]) is Some);
    }
}

/// Reads a list of permission names into a set.
fn read_set(tokens: &Option<Vec<String>>) -> (r: Result<PermissionSet, String>)
    ensures
        match r {
            Ok(set) => bad_token(option_tokens(*tokens)) is None && set@ == tokens_set(
                option_tokens(*tokens),
            ),
            Err(token) => bad_token(option_tokens(*tokens)) == Some(token@),
        },
{
    match tokens {
        None => {
            let set = PermissionSet::empty();
            assert(set@ =~= tokens_set(Seq::empty()));
            assert(bad_token(Seq::empty()) is None);
            Ok(set)
        },
        Some(tokens) => {
            match parse_permissions(tokens) {
                Err(token) => Err(token),
                Ok(items) => {
                    let set = PermissionSet::from_slice(items.as_slice());
                    proof {
                        let names = texts(tokens@);
                        assert forall|p: Permission| set@.contains(p) <==> tokens_set(
                            names,
                        ).contains(p) by {
                            if set@.contains(p) {
                                let j = choose|j: int| 0 <= j < items@.len() && items@[j] == p;
                                assert(permission_of(tokens@[j]@) == Some(p));
                                assert(permission_of(names[j]) == Some(p));
                            }
                            if tokens_set(names).contains(p) {
                                let j = choose|j: int|
                                    0 <= j < names.len() && permission_of(names[j]) == Some(p);
                                assert(permission_of(tokens@[j]@) == Some(items@[j]));
                                assert(items@[j] == p);
                            }
                        }
                        assert(set@ =~= tokens_set(names));
                    }
                    Ok(set)
                },
            }
        },
    }
}

/// The names in a list that may be missing; none where it is.
pub open spec fn option_tokens(tokens: Option<Vec<String>>) -> Seq<Seq<char>> {
    match tokens {
        Some(tokens) => texts(tokens@),
        None => Seq::empty(),
    }
}

/// What the error text says of `token`, which names no permission.
fn unknown_permission_text(token: &String) -> (r: String)
    ensures
        r@ == unknown_permission(token@),
{
    concatenate("unknown permission: ", token.as_str())
}

/// Writes out the names of the members of a set, in declaration order.
fn write_set(set: &PermissionSet) -> (r: Vec<String>)
    ensures
        texts(r@) == tokens_of(listing_of(*set)),
{
    let items = set.to_vec();
    let mut r: Vec<String> = Vec::new();
    let mut i: usize = 0;
    while i < items.len()
        invariant
            i <= items@.len(),
            r@.len() == i,
            forall|j: int| 0 <= j < i ==> (#[trigger] r@[j])@ == token_of(items@[j]),
        decreases items@.len() - i,
    {
        r.push(items[i].as_str().to_owned());
        i = i + 1;
    }
    assert(texts(r@) =~= tokens_of(items@));
    r
}

impl Default for DapSettings {
    fn default() -> (r: DapSettings)
        ensures
            r@ == default_settings(),
    {
        let required = PermissionSet::empty();
        let allowed = PermissionSet::empty();
        DapSettings {
            application: ApplicationSettings { title: String::new(), enabled: false },
            permissions: PermissionsSettings { required, allowed },
        }
    }
}

impl Clone for DapSettings {
    fn clone(&self) -> (r: DapSettings)
        ensures
            r == *self,
    {
        DapSettings {
            application: ApplicationSettings {
                title: self.application.title.clone(),
                enabled: self.application.enabled,
            },
            permissions: PermissionsSettings {
                required: self.permissions.required,
                allowed: self.permissions.allowed,
            },
        }
    }
}

impl DapSettings {
    /// Whether everything that the dap requires is allowed to it. Nothing
    /// enforces this: it is for the host to ask.
    pub fn requirements_granted(&self) -> (r: bool)
        ensures
            r == self@.required.subset_of(self@.allowed),
    {
        self.permissions.required.is_subset_of(&self.permissions.allowed)
    }

    /// Reads settings from a document. A missing key is read as its default:
    /// not enabled, an empty title, no permissions. A name under
    /// `permissions` that is not the name of a permission makes the document
    /// malformed.
    pub fn from_document(document: &SettingsDocument) -> (r: DapSettingsResult<DapSettings>)
        ensures
            match r {
                Ok(settings) => document.settings() == Ok::<DapSettingsView, Seq<char>>(settings@),
                Err(DapSettingsError::Parse(reason)) => document.settings() matches Err(token)
                    && reason@ == unknown_permission(token),
                Err(_) => false,
            },
    {
        let (title, enabled) = match &document.application {
            Some(application) => {
                let title = match &application.title {
                    Some(title) => title.clone(),
                    None => String::new(),
                };
                let enabled = match application.enabled {
                    Some(enabled) => enabled,
                    None => false,
                };
                (title, enabled)
            },
            None => (String::new(), false),
        };
        let (required, allowed) = match &document.permissions {
            Some(permissions) => {
                let required = match read_set(&permissions.required) {
                    Ok(set) => set,
                    Err(token) => {
                        return Err(DapSettingsError::Parse(unknown_permission_text(&token)));
                    },
                };
                let allowed = match read_set(&permissions.allowed) {
                    Ok(set) => set,
                    Err(token) => {
                        return Err(DapSettingsError::Parse(unknown_permission_text(&token)));
                    },
                };
                (required, allowed)
            },
            None => {
                let required = PermissionSet::empty();
                let allowed = PermissionSet::empty();
                assert(required@ =~= tokens_set(Seq::empty()));
                assert(bad_token(Seq::empty()) is None);
                (required, allowed)
            },
        };
        Ok(
            DapSettings {
                application: ApplicationSettings { title, enabled },
                permissions: PermissionsSettings { required, allowed },
            },
        )
    }

    /// The document that holds these settings, with every key present and
    /// the permissions in declaration order.
    pub fn to_document(&self) -> (r: SettingsDocument)
        ensures
            is_document_of(r, *self),
            r.settings() == Ok::<DapSettingsView, Seq<char>>(self@),
    {
        let r = SettingsDocument {
            application: Some(
                ApplicationDocument {
                    title: Some(self.application.title.clone()),
                    enabled: Some(self.application.enabled),
                },
            ),
            permissions: Some(
                PermissionsDocument {
                    required: Some(write_set(&self.permissions.required)),
                    allowed: Some(write_set(&self.permissions.allowed)),
                },
            ),
        };
        proof {
            lemma_tokens_of_listing(self.permissions.required);
            lemma_tokens_of_listing(self.permissions.allowed);
        }
        r
    }

    /// Decides what loading gives for what was found where the document is
    /// kept. No file is `NotFound`, which a caller may take for "use the
    /// defaults"; a file that cannot be read or does not hold a document is
    /// an error of its own and never stands for the defaults.
    pub fn load(file: &SettingsFile) -> (r: DapSettingsResult<DapSettings>)
        ensures
            match r {
                Ok(settings) => load_view(*file) == Ok::<DapSettingsView, SettingsFailure>(
                    settings@,
                ),
                Err(error) => load_view(*file) == Err::<DapSettingsView, SettingsFailure>(error@),
            },
    {
        match file {
            SettingsFile::Missing => Err(DapSettingsError::NotFound),
            SettingsFile::Unreadable(reason) => Err(DapSettingsError::Io(reason.clone())),
            SettingsFile::Malformed(reason) => Err(DapSettingsError::Parse(reason.clone())),
            SettingsFile::Document(document) => DapSettings::from_document(document),
        }
    }

    /// The request to keep these settings in the file at `path`.
    pub fn save(&self, path: &str) -> (r: SettingsWrite)
        ensures
            r.path@ == path@,
            is_document_of(r.document, *self),
            r.document.settings() == Ok::<DapSettingsView, Seq<char>>(self@),
            load_view(SettingsFile::Document(r.document)) == Ok::<DapSettingsView, SettingsFailure>(
                self@,
            ),
    {
        SettingsWrite { path: path.to_owned(), document: self.to_document() }
    }
}

/// The names of the listing of a set are all names of permissions, and the
/// permissions that they name are the set.
pub proof fn lemma_tokens_of_listing(set: PermissionSet)
    ensures
        bad_token(tokens_of(listing_of(set))) is None,
        tokens_set(tokens_of(listing_of(set))) == set@,
{
    let items = listing_of(set);
    let names = tokens_of(items);
    lemma_listing(set);
    assert forall|i: int| 0 <= i < names.len() implies permission_of(#[trigger] names[i]) == Some(
        items[i],
    ) by {
        lemma_token_round_trip(items[i], names[i]);
    }
    if exists|k: int| unknown_at(names, k) {
        let k = choose|k: int| unknown_at(names, k);
        assert(permission_of(names[k]) == Some(items[k]));
    }
    assert forall|p: Permission| tokens_set(names).contains(p) <==> set@.contains(p) by {
        if tokens_set(names).contains(p) {
            let j = choose|j: int| 0 <= j < names.len() && permission_of(names[j]) == Some(p);
            assert(permission_of(names[j]) == Some(items[j]));
            assert(items.contains(p));
        }
        if set@.contains(p) {
            assert(items.contains(p));
            let j = choose|j: int| 0 <= j < items.len() && items[j] == p;
            assert(permission_of(names[j]) == Some(items[j]));
        }
    }
    assert(tokens_set(names) =~= set@);
}

/// Settings written to a document and read back are the settings written,
/// field for field.
pub proof fn lemma_settings_round_trip(settings: DapSettings, document: SettingsDocument)
    requires
        is_document_of(document, settings),
    ensures
        document.settings() == Ok::<DapSettingsView, Seq<char>>(settings@),
        load_view(SettingsFile::Document(document)) == Ok::<DapSettingsView, SettingsFailure>(
            settings@,
        ),
{
    lemma_tokens_of_listing(settings.permissions.required);
    lemma_tokens_of_listing(settings.permissions.allowed);
}

/// What loading gives for each thing found where the document is kept, as
/// plain values.
pub open spec fn load_view(file: SettingsFile) -> Result<DapSettingsView, SettingsFailure> {
    match file {
        SettingsFile::Missing => Err(SettingsFailure::NotFound),
        SettingsFile::Unreadable(reason) => Err(SettingsFailure::Io(reason@)),
        SettingsFile::Malformed(reason) => Err(SettingsFailure::Parse(reason@)),
        SettingsFile::Document(document) => match document.settings() {
            Ok(settings) => Ok(settings),
            Err(token) => Err(SettingsFailure::Parse(unknown_permission(token))),
        },
    }
}

} // verus!

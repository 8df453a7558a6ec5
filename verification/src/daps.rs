//! A dap as the host serves it: the entity, where its files lie, how its
//! settings are loaded, changed and saved, and which routes it asks for.

use vstd::prelude::*;
use vstd::string::StringExecFns;
use crate::dap::{index_file_name, main_name, root_uri_of, static_dir_name, static_uri_of, uri_of};
use crate::module::{from_engine, instantiate_read, ModuleError, ModuleInstance, ModuleRead};
use crate::settings::{
    default_settings, load_view, DapSettings, DapSettingsError, DapSettingsResult,
    DapSettingsView, SettingsFailure, SettingsFile, SettingsWrite,
};
use crate::text::{join_path, path_join};

verus! {

/// The dap entity with its root directory as the text of a path.
pub type CommonDap = crate::dap::Dap<String>;

/// One dap of the host.
#[derive(Debug, PartialEq, Eq)]
pub struct Dap(CommonDap);

/// A dap as plain values.
pub struct DapView {
    pub name: Seq<char>,
    pub root_dir: Seq<char>,
    pub settings: DapSettingsView,
}

/// What a request asks to change of a dap; a field that is `None` asks for
/// nothing. A response uses it to tell what did change.
#[derive(Clone, Copy, Debug, PartialEq, Eq)]
pub struct DapUpdateQuery {
    pub enabled: Option<bool>,
}

/// The routes that a dap asks of the router.
#[derive(Debug, PartialEq, Eq)]
pub struct HttpConfig {
    /// The dap that the handlers of these routes answer for.
    pub name: String,
    /// `GET` on this address gives the index document of the dap.
    pub root_uri: String,
    /// Below this address the files of `static_dir` are served.
    pub static_uri: String,
    /// The directory of the static assets.
    pub static_dir: String,
    /// The name of the index document within `static_dir`.
    pub index_file_name: String,
    /// The pattern, within the scope `root_uri`, of the requests that go to
    /// the dap's own handler; `None` for the main dap, which has no such
    /// scope.
    pub catch_all: Option<String>,
}

/// The name of the file that holds the settings of a dap.
pub open spec fn settings_file_name() -> Seq<char> {
    "settings.toml"@
}

/// The pattern of the requests that go to a dap's own handler.
pub open spec fn catch_all_pattern() -> Seq<char> {
    "/*"@
}

/// The name of the file that holds the compiled module of the dap `name`.
pub open spec fn module_file_name(name: Seq<char>) -> Seq<char> {
    name + "_server.wasm"@
}

impl DapView {
    /// Whether this is the main dap.
    pub open spec fn is_main(self) -> bool {
        self.name == main_name()
    }

    /// The dap with the enabled flag set to `enabled`.
    pub open spec fn with_enabled(self, enabled: bool) -> DapView {
        DapView { settings: DapSettingsView { enabled, ..self.settings }, ..self }
    }

    /// Whether `query` asks for something that is not so already.
    pub open spec fn changed_by(self, query: DapUpdateQuery) -> bool {
        query.enabled matches Some(enabled) && enabled != self.settings.enabled
    }

    /// The dap after `query` was carried out.
    pub open spec fn updated(self, query: DapUpdateQuery) -> DapView {
        match query.enabled {
            Some(enabled) => self.with_enabled(enabled),
            None => self,
        }
    }

    /// The path of the settings file.
    pub open spec fn settings_file(self) -> Seq<char> {
        path_join(self.root_dir, settings_file_name())
    }

    /// The path of the directory of static assets.
    pub open spec fn static_dir(self) -> Seq<char> {
        path_join(self.root_dir, static_dir_name())
    }

    /// The path of the index document.
    pub open spec fn index_file(self) -> Seq<char> {
        path_join(self.static_dir(), index_file_name())
    }

    /// The path of the compiled module.
    pub open spec fn server_module_file(self) -> Seq<char> {
        path_join(self.root_dir, module_file_name(self.name))
    }
}

/// The dap that is made for `name` under `root_dir`, given what was found
/// where its settings are kept. The main dap has the default settings
/// whatever was found. For any other dap, no file means the default
/// settings, and a file that cannot be read or is malformed means no dap.
pub open spec fn made(name: Seq<char>, root_dir: Seq<char>, file: SettingsFile) -> Result<
    DapView,
    SettingsFailure,
> {
    if name == main_name() {
        Ok(DapView { name, root_dir, settings: default_settings() })
    } else {
        match load_view(file) {
            Ok(settings) => Ok(DapView { name, root_dir, settings }),
            Err(SettingsFailure::NotFound) => Ok(
                DapView { name, root_dir, settings: default_settings() },
            ),
            Err(failure) => Err(failure),
        }
    }
}

impl View for Dap {
    type V = DapView;

    closed spec fn view(&self) -> DapView {
        DapView {
            name: self.0.spec_name(),
            root_dir: self.0.spec_root_dir()@,
            settings: self.0.spec_settings()@,
        }
    }
}

impl Dap {
    /// Makes the dap `name` under `root_dir` from what was found where its
    /// settings are kept: see [`made`].
    pub fn new(name: &str, root_dir: &str, file: &SettingsFile) -> (r: DapSettingsResult<Dap>)
        ensures
            match r {
                Ok(dap) => made(name@, root_dir@, *file) == Ok::<DapView, SettingsFailure>(dap@),
                Err(error) => made(name@, root_dir@, *file) == Err::<DapView, SettingsFailure>(
                    error@,
                ),
            },
    {
        let mut dap = Dap(CommonDap::new(name, root_dir.to_owned(), DapSettings::default()));
        if !dap.is_main() {
            match dap.reload_settings(file) {
                Ok(()) => {},
                Err(DapSettingsError::NotFound) => {},
                Err(error) => {
                    return Err(error);
                },
            }
        }
        Ok(dap)
    }

    /// Makes the dap `name` under `root_dir` with the settings given.
    pub fn with_settings(name: &str, root_dir: &str, settings: DapSettings) -> (r: Dap)
        ensures
            r@ == (DapView { name: name@, root_dir: root_dir@, settings: settings@ }),
    {
        Dap(CommonDap::new(name, root_dir.to_owned(), settings))
    }

    /// The name of the file that holds the settings of a dap.
    pub fn settings_file_name() -> (r: &'static str)
        ensures
            r@ == settings_file_name(),
    {
        "settings.toml"
    }

    /// The name of the directory that holds the static assets of a dap.
    pub fn static_dir_name() -> (r: &'static str)
        ensures
            r@ == static_dir_name(),
    {
        CommonDap::static_dir_name()
    }

    /// The name of the index document among the static assets.
    pub fn index_file_name() -> (r: &'static str)
        ensures
            r@ == index_file_name(),
    {
        CommonDap::index_file_name()
    }

    /// The name of the main dap.
    pub fn main_name() -> (r: &'static str)
        ensures
            r@ == main_name(),
    {
        CommonDap::main_name()
    }

    /// The address of the static assets of the platform itself.
    pub fn main_static_uri() -> (r: String)
        ensures
            r@ == root_uri_of(static_dir_name()),
    {
        CommonDap::main_static_uri()
    }

    /// The address `tail` below the main dap.
    pub fn main_uri(tail: &str) -> (r: String)
        ensures
            r@ == uri_of(main_name(), tail@),
    {
        CommonDap::main_uri(tail)
    }

    /// Whether this is the main dap.
    pub fn is_main(&self) -> (r: bool)
        ensures
            r == self@.is_main(),
    {
        self.0.is_main()
    }

    /// Replaces the settings by what loading gives for `file`. When loading
    /// fails, and also when there is no file, the settings stay as they are
    /// and the failure is returned.
    pub fn reload_settings(&mut self, file: &SettingsFile) -> (r: DapSettingsResult<()>)
        ensures
            final(self)@.name == old(self)@.name,
            final(self)@.root_dir == old(self)@.root_dir,
            match r {
                Ok(()) => load_view(*file) == Ok::<DapSettingsView, SettingsFailure>(
                    final(self)@.settings,
                ),
                Err(error) => load_view(*file) == Err::<DapSettingsView, SettingsFailure>(error@)
                    && final(self)@ == old(self)@,
            },
    {
        match DapSettings::load(file) {
            Ok(settings) => {
                self.0.set_settings(settings);
                Ok(())
            },
            Err(error) => Err(error),
        }
    }

    /// The request to keep the settings of the dap, as they are now, in its
    /// settings file.
    pub fn save_settings(&self) -> (r: SettingsWrite)
        ensures
            r.path@ == self@.settings_file(),
            r.document.settings() == Ok::<DapSettingsView, Seq<char>>(self@.settings),
    {
        let path = self.settings_file();
        self.0.settings().save(path.as_str())
    }

    /// Whether the dap is enabled.
    pub fn enabled(&self) -> (r: bool)
        ensures
            r == self@.settings.enabled,
    {
        self.0.enabled()
    }

    /// Sets whether the dap is enabled, in memory only.
    pub fn set_enabled(&mut self, enabled: bool)
        ensures
            final(self)@ == old(self)@.with_enabled(enabled),
    {
        self.0.set_enabled(enabled);
    }

    /// The title under which the dap is shown.
    pub fn title(&self) -> (r: &str)
        ensures
            r@ == self@.settings.title,
    {
        self.0.title()
    }

    /// The name of the dap.
    pub fn name(&self) -> (r: &str)
        ensures
            r@ == self@.name,
    {
        self.0.name()
    }

    /// The root directory of the dap.
    pub fn root_dir(&self) -> (r: &str)
        ensures
            r@ == self@.root_dir,
    {
        self.0.root_dir().as_str()
    }

    /// The settings of the dap.
    pub fn settings(&self) -> (r: &DapSettings)
        ensures
            r@ == self@.settings,
    {
        self.0.settings()
    }

    /// The address under which everything of the dap is served.
    pub fn root_uri(&self) -> (r: String)
        ensures
            r@ == root_uri_of(self@.name),
    {
        self.0.root_uri()
    }

    /// The address under which the static assets of the dap are served.
    pub fn static_uri(&self) -> (r: String)
        ensures
            r@ == static_uri_of(self@.name),
    {
        self.0.static_uri()
    }

    /// The path of the settings file of the dap.
    pub fn settings_file(&self) -> (r: String)
        ensures
            r@ == self@.settings_file(),
    {
        join_path(self.root_dir(), Self::settings_file_name())
    }

    /// The path of the directory of static assets.
    pub fn static_dir(&self) -> (r: String)
        ensures
            r@ == self@.static_dir(),
    {
        join_path(self.root_dir(), Self::static_dir_name())
    }

    /// The path of the index document.
    pub fn index_file(&self) -> (r: String)
        ensures
            r@ == self@.index_file(),
    {
        let dir = self.static_dir();
        join_path(dir.as_str(), Self::index_file_name())
    }

    /// The path of the compiled module.
    pub fn server_module_file(&self) -> (r: String)
        ensures
            r@ == self@.server_module_file(),
    {
        let mut file = String::from_str(self.name());
        file.append("_server.wasm");
        join_path(self.root_dir(), file.as_str())
    }

    /// The routes of the dap: its index document on its root address, its
    /// static assets below its static address and, unless it is the main
    /// dap, everything else below its root address for its own handler.
    pub fn http_configure(&self) -> (r: HttpConfig)
        ensures
            r.name@ == self@.name,
            r.root_uri@ == root_uri_of(self@.name),
            r.static_uri@ == static_uri_of(self@.name),
            r.static_dir@ == self@.static_dir(),
            r.index_file_name@ == index_file_name(),
            match r.catch_all {
                Some(pattern) => !self@.is_main() && pattern@ == catch_all_pattern(),
                None => self@.is_main(),
            },
    {
        let catch_all = if self.is_main() {
            None
        } else {
            Some(String::from_str("/*"))
        };
        HttpConfig {
            name: String::from_str(self.name()),
            root_uri: self.root_uri(),
            static_uri: self.static_uri(),
            static_dir: self.static_dir(),
            index_file_name: String::from_str(Self::index_file_name()),
            catch_all,
        }
    }

    /// Turns what was read from the dap's module file into a running
    /// instance. A dap that is not enabled gets none, and the engine is not
    /// asked; bytes that could not be read are `Unreadable`. For bytes that
    /// were read the engine decides.
    pub fn instantiate(&self, module: ModuleRead) -> (r: Result<ModuleInstance, ModuleError>)
        ensures
            !self@.settings.enabled ==> r matches Err(ModuleError::Disabled),
            self@.settings.enabled ==> match module {
                Err(reason) => r matches Err(ModuleError::Unreadable(text)) && text == reason,
                Ok(_) => r matches Err(error) ==> from_engine(error),
            },
    {
        if !self.enabled() {
            return Err(ModuleError::Disabled);
        }
        instantiate_read(module)
    }

    /// What has to be written before `query` can be carried out: the
    /// settings with the change made, for the settings file of the dap.
    /// `None` when the query changes nothing, so that nothing is written for
    /// it.
    pub fn pending_write(&self, query: &DapUpdateQuery) -> (r: Option<SettingsWrite>)
        ensures
            match r {
                Some(write) => {
                    &&& self@.changed_by(*query)
                    &&& write.path@ == self@.settings_file()
                    &&& write.document.settings() == Ok::<DapSettingsView, Seq<char>>(
                        self@.updated(*query).settings,
                    )
                },
                None => !self@.changed_by(*query),
            },
    {
        match query.enabled {
            Some(enabled) => {
                if self.enabled() != enabled {
                    let mut settings = self.0.settings().clone();
                    settings.application.enabled = enabled;
                    let path = self.settings_file();
                    Some(settings.save(path.as_str()))
                } else {
                    None
                }
            },
            None => None,
        }
    }

    /// Carries out `query`, given in `saved` how the write of
    /// [`Dap::pending_write`] went. A query that changes nothing gives
    /// `Ok(false)` and `saved` is not looked at. Otherwise the flag is
    /// flipped; if the write went well the result is `Ok(true)`, and if it
    /// failed the flag is set back and the failure returned, so that the dap
    /// in memory never differs from the dap on disk.
    pub fn update(&mut self, query: DapUpdateQuery, saved: DapSettingsResult<()>) -> (r:
        DapSettingsResult<bool>)
        ensures
            match r {
                Ok(changed) => {
                    &&& changed == old(self)@.changed_by(query)
                    &&& changed ==> saved is Ok
                    &&& final(self)@ == if changed {
                        old(self)@.updated(query)
                    } else {
                        old(self)@
                    }
                },
                Err(error) => {
                    &&& old(self)@.changed_by(query)
                    &&& saved == Err::<(), DapSettingsError>(error)
                    &&& final(self)@ == old(self)@
                },
            },
    {
        let DapUpdateQuery { enabled } = query;
        if let Some(enabled) = enabled {
            let prior = self.enabled();
            if prior != enabled {
                self.set_enabled(enabled);
                match saved {
                    Ok(()) => {
                        return Ok(true);
                    },
                    Err(error) => {
                        self.set_enabled(prior);
                        return Err(error);
                    },
                }
            }
        }
        Ok(false)
    }
}

} // verus!

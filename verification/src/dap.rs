//! The dap entity: one sub-application, known by its name, kept under a root
//! directory, with its settings and the addresses derived from its name.

use vstd::prelude::*;
use vstd::string::StringExecFns;
use crate::access::{listing_of, Permission};
use crate::settings::{DapSettings, DapSettingsView};
use crate::text::same_text;

verus! {

/// The name of the directory that holds the static assets of a dap.
pub open spec fn static_dir_name() -> Seq<char> {
    "static"@
}

/// The name of the index document among the static assets.
pub open spec fn index_file_name() -> Seq<char> {
    "index.html"@
}

/// The name of the main dap, the platform's own landing interface.
pub open spec fn main_name() -> Seq<char> {
    "dapla"@
}

/// The address under which everything of the dap `name` is served.
pub open spec fn root_uri_of(name: Seq<char>) -> Seq<char> {
    "/"@ + name
}

/// The address under which the static assets of the dap `name` are served.
pub open spec fn static_uri_of(name: Seq<char>) -> Seq<char> {
    root_uri_of(name) + "/"@ + static_dir_name()
}

/// The address `tail` below the dap `name`.
pub open spec fn uri_of(name: Seq<char>, tail: Seq<char>) -> Seq<char> {
    "/"@ + name + "/"@ + tail
}

/// The address `second` below `first` below the dap `name`.
pub open spec fn uri2_of(name: Seq<char>, first: Seq<char>, second: Seq<char>) -> Seq<char> {
    "/"@ + name + "/"@ + first + "/"@ + second
}

/// One dap: its name, its root directory and its settings. The name is fixed
/// when the dap is made.
#[derive(Debug, PartialEq, Eq)]
pub struct Dap<P> {
    name: String,
    root_dir: P,
    settings: DapSettings,
}

impl<P> Dap<P> {
    /// The name of the dap.
    pub closed spec fn spec_name(&self) -> Seq<char> {
        self.name@
    }

    /// The root directory of the dap.
    pub closed spec fn spec_root_dir(&self) -> P {
        self.root_dir
    }

    /// The settings of the dap.
    pub closed spec fn spec_settings(&self) -> DapSettings {
        self.settings
    }

    /// Whether this is the main dap.
    pub open spec fn spec_is_main(&self) -> bool {
        self.spec_name() == main_name()
    }

    /// Makes a dap from its parts.
    pub fn new(name: &str, root_dir: P, settings: DapSettings) -> (r: Self)
        ensures
            r.spec_name() == name@,
            r.spec_root_dir() == root_dir,
            r.spec_settings() == settings,
    {
        Dap { name: name.to_owned(), root_dir, settings }
    }

    /// The name of the directory that holds the static assets of a dap.
    pub fn static_dir_name() -> (r: &'static str)
        ensures
            r@ == static_dir_name(),
    {
        "static"
    }

    /// The name of the index document among the static assets.
    pub fn index_file_name() -> (r: &'static str)
        ensures
            r@ == index_file_name(),
    {
        "index.html"
    }

    /// The name of the main dap.
    pub fn main_name() -> (r: &'static str)
        ensures
            r@ == main_name(),
    {
        "dapla"
    }

    /// The address of the static assets of the platform itself.
    pub fn main_static_uri() -> (r: String)
        ensures
            r@ == root_uri_of(static_dir_name()),
    {
        let mut r = String::from_str("/");
        r.append(Self::static_dir_name());
        r
    }

    /// The address `tail` below the main dap.
    pub fn main_uri(tail: &str) -> (r: String)
        ensures
            r@ == uri_of(main_name(), tail@),
    {
        let mut r = String::from_str("/");
        r.append(Self::main_name());
        r.append("/");
        r.append(tail);
        r
    }

    /// The address `second` below `first` below the main dap.
    pub fn main_uri2(first: &str, second: &str) -> (r: String)
        ensures
            r@ == uri2_of(main_name(), first@, second@),
    {
        let mut r = Self::main_uri(first);
        r.append("/");
        r.append(second);
        r
    }

    /// Whether this is the main dap.
    pub fn is_main(&self) -> (r: bool)
        ensures
            r == self.spec_is_main(),
    {
        same_text(self.name(), Self::main_name())
    }

    /// Whether the dap is enabled.
    pub fn enabled(&self) -> (r: bool)
        ensures
            r == self.spec_settings()@.enabled,
    {
        self.settings.application.enabled
    }

    /// Sets whether the dap is enabled; nothing else changes.
    pub fn set_enabled(&mut self, enabled: bool)
        ensures
            final(self).spec_name() == old(self).spec_name(),
            final(self).spec_root_dir() == old(self).spec_root_dir(),
            final(self).spec_settings()@ == (DapSettingsView {
                enabled,
                ..old(self).spec_settings()@
            }),
            final(self).spec_settings().permissions == old(self).spec_settings().permissions,
            final(self).spec_settings().application.title == old(
                self,
            ).spec_settings().application.title,
    {
        self.settings.application.enabled = enabled;
    }

    /// Enables a dap that is not enabled, and the other way round.
    pub fn switch_enabled(&mut self)
        ensures
            final(self).spec_name() == old(self).spec_name(),
            final(self).spec_root_dir() == old(self).spec_root_dir(),
            final(self).spec_settings()@ == (DapSettingsView {
                enabled: !old(self).spec_settings()@.enabled,
                ..old(self).spec_settings()@
            }),
    {
        let enabled = self.enabled();
        self.set_enabled(!enabled);
    }

    /// The title under which the dap is shown.
    pub fn title(&self) -> (r: &str)
        ensures
            r@ == self.spec_settings()@.title,
    {
        self.settings.application.title.as_str()
    }

    /// The name of the dap.
    pub fn name(&self) -> (r: &str)
        ensures
            r@ == self.spec_name(),
    {
        self.name.as_str()
    }

    /// The root directory of the dap.
    pub fn root_dir(&self) -> (r: &P)
        ensures
            *r == self.spec_root_dir(),
    {
        &self.root_dir
    }

    /// The settings of the dap.
    pub fn settings(&self) -> (r: &DapSettings)
        ensures
            *r == self.spec_settings(),
    {
        &self.settings
    }

    /// Replaces the settings; name and root directory stay.
    pub fn set_settings(&mut self, settings: DapSettings)
        ensures
            final(self).spec_name() == old(self).spec_name(),
            final(self).spec_root_dir() == old(self).spec_root_dir(),
            final(self).spec_settings() == settings,
    {
        self.settings = settings;
    }

    /// The address under which everything of the dap is served.
    pub fn root_uri(&self) -> (r: String)
        ensures
            r@ == root_uri_of(self.spec_name()),
    {
        let mut r = String::from_str("/");
        r.append(self.name());
        r
    }

    /// The address under which the static assets of the dap are served.
    pub fn static_uri(&self) -> (r: String)
        ensures
            r@ == static_uri_of(self.spec_name()),
    {
        let mut r = self.root_uri();
        r.append("/");
        r.append(Self::static_dir_name());
        r
    }

    /// The address `tail` below the dap.
    pub fn uri(&self, tail: &str) -> (r: String)
        ensures
            r@ == uri_of(self.spec_name(), tail@),
    {
        let mut r = self.root_uri();
        r.append("/");
        r.append(tail);
        r
    }

    /// The address `second` below `first` below the dap.
    pub fn uri2(&self, first: &str, second: &str) -> (r: String)
        ensures
            r@ == uri2_of(self.spec_name(), first@, second@),
    {
        let mut r = self.uri(first);
        r.append("/");
        r.append(second);
        r
    }

    /// What the dap cannot work without, in declaration order.
    pub fn required_permissions(&self) -> (r: Vec<Permission>)
        ensures
            r@ == listing_of(self.spec_settings().permissions.required),
            r@.no_duplicates(),
            forall|p: Permission| r@.contains(p) <==> self.spec_settings()@.required.contains(p),
    {
        self.settings.permissions.required.to_vec()
    }

    /// What the host grants the dap, in declaration order.
    pub fn allowed_permissions(&self) -> (r: Vec<Permission>)
        ensures
            r@ == listing_of(self.spec_settings().permissions.allowed),
            r@.no_duplicates(),
            forall|p: Permission| r@.contains(p) <==> self.spec_settings()@.allowed.contains(p),
    {
        self.settings.permissions.allowed.to_vec()
    }

    /// Whether the host grants `permission` to the dap.
    pub fn is_allowed_permission(&self, permission: &Permission) -> (r: bool)
        ensures
            r == self.spec_settings()@.allowed.contains(*permission),
    {
        self.settings.permissions.allowed.contains(*permission)
    }
}

} // verus!

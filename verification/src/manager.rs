//! The registry of daps: which daps there are, which of them hold a running
//! module, and the transitions between discovered, loaded and disabled.

use vstd::prelude::*;
use crate::dap::{main_name, static_dir_name};
use crate::daps::{made, Dap, DapUpdateQuery, DapView};
use crate::error::{ServerError, ServerResult};
use crate::module::{from_engine, ModuleError, ModuleInstance, ModuleRead};
use crate::settings::{
    default_settings, DapSettings, DapSettingsError, DapSettingsResult, DapSettingsView,
    SettingsFailure, SettingsFile, SettingsWrite,
};
use crate::text::{join_path, path_join, same_text};

verus! {

/// One dap of the registry as plain values: the dap, and whether it holds a
/// running module.
pub struct DapState {
    pub dap: DapView,
    pub loaded: bool,
}

/// Where a dap stands in its lifecycle.
#[derive(Clone, Copy, Debug, PartialEq, Eq, Structural)]
pub enum Lifecycle {
    /// The dap is enabled and holds no running module.
    Unloaded,
    /// The dap is enabled and holds a running module.
    Loaded,
    /// The dap is not enabled; it holds no running module.
    Disabled,
}

/// Where a dap in this state stands in its lifecycle.
pub open spec fn lifecycle_of(state: DapState) -> Lifecycle {
    if !state.dap.settings.enabled {
        Lifecycle::Disabled
    } else if state.loaded {
        Lifecycle::Loaded
    } else {
        Lifecycle::Unloaded
    }
}

/// A registry as plain values: the state of each registered dap, by name.
pub type Registry = Map<Seq<char>, DapState>;

/// One dap of the registry with the running module that it holds, if any.
struct DapEntry {
    dap: Dap,
    instance: Option<ModuleInstance>,
}

impl DapEntry {
    spec fn state(self) -> DapState {
        DapState { dap: self.dap@, loaded: self.instance is Some }
    }
}

/// The registry of the daps of a host, kept under one root directory.
pub struct DapsManager {
    daps_path: String,
    entries: Vec<DapEntry>,
}

/// The entry at place `i` is the dap `name`.
spec fn named_at(entries: Seq<DapEntry>, name: Seq<char>, i: int) -> bool {
    0 <= i < entries.len() && entries[i].dap@.name == name
}

/// No two entries share a name.
spec fn names_unique(entries: Seq<DapEntry>) -> bool {
    forall|i: int, j: int|
        0 <= i < j < entries.len() ==> (#[trigger] entries[i]).dap@.name != (
        #[trigger] entries[j]).dap@.name
}

/// No entry holds a running module without being enabled.
spec fn loaded_enabled(entries: Seq<DapEntry>) -> bool {
    forall|i: int|
        0 <= i < entries.len() ==> ((#[trigger] entries[i]).instance is Some
            ==> entries[i].dap@.settings.enabled)
}

/// The entries as a registry.
spec fn registry_of(entries: Seq<DapEntry>) -> Registry {
    Map::new(
        |name: Seq<char>| exists|i: int| named_at(entries, name, i),
        |name: Seq<char>| entries[choose|i: int| named_at(entries, name, i)].state(),
    )
}

/// With unique names, the registry holds at each entry's name that entry.
proof fn lemma_entry(entries: Seq<DapEntry>, i: int)
    requires
        names_unique(entries),
        0 <= i < entries.len(),
    ensures
        registry_of(entries).contains_key(entries[i].dap@.name),
        registry_of(entries)[entries[i].dap@.name] == entries[i].state(),
{
    let name = entries[i].dap@.name;
    assert(named_at(entries, name, i));
    let k = choose|k: int| named_at(entries, name, k);
    if k < i {
        assert(entries[k].dap@.name != entries[i].dap@.name);
    } else if i < k {
        assert(entries[i].dap@.name != entries[k].dap@.name);
    }
}

/// Replacing an entry by one of the same name replaces its state in the
/// registry and touches nothing else.
proof fn lemma_replace(before: Seq<DapEntry>, i: int, after: Seq<DapEntry>)
    requires
        names_unique(before),
        0 <= i < before.len(),
        after.len() == before.len(),
        after[i].dap@.name == before[i].dap@.name,
        forall|j: int| 0 <= j < before.len() && j != i ==> after[j] == before[j],
    ensures
        names_unique(after),
        registry_of(after) == registry_of(before).insert(before[i].dap@.name, after[i].state()),
{
    assert forall|a: int, b: int| 0 <= a < b < after.len() implies (#[trigger] after[a]).dap@.name
        != (#[trigger] after[b]).dap@.name by {
        assert(before[a].dap@.name != before[b].dap@.name);
    }
    let target = registry_of(before).insert(before[i].dap@.name, after[i].state());
    assert forall|name: Seq<char>| registry_of(after).contains_key(name) <==> target.contains_key(
        name,
    ) by {
        if registry_of(after).contains_key(name) {
            let k = choose|k: int| named_at(after, name, k);
            assert(named_at(before, name, k));
        }
        if target.contains_key(name) {
            if name == before[i].dap@.name {
                assert(named_at(after, name, i));
            } else {
                let k = choose|k: int| named_at(before, name, k);
                assert(named_at(after, name, k));
            }
        }
    }
    assert forall|name: Seq<char>| registry_of(after).contains_key(name) implies registry_of(
        after,
    )[name] == target[name] by {
        let k = choose|k: int| named_at(after, name, k);
        lemma_entry(after, k);
        if k != i {
            lemma_entry(before, k);
        }
    }
    assert(registry_of(after) =~= target);
}

/// Adding an entry under a new name adds its state to the registry and
/// touches nothing else.
proof fn lemma_added(before: Seq<DapEntry>, entry: DapEntry)
    requires
        names_unique(before),
        !registry_of(before).contains_key(entry.dap@.name),
    ensures
        names_unique(before.push(entry)),
        registry_of(before.push(entry)) == registry_of(before).insert(
            entry.dap@.name,
            entry.state(),
        ),
{
    let after = before.push(entry);
    let last = before.len() as int;
    assert forall|a: int, b: int| 0 <= a < b < after.len() implies (#[trigger] after[a]).dap@.name
        != (#[trigger] after[b]).dap@.name by {
        if b == last {
            assert(named_at(before, before[a].dap@.name, a));
        } else {
            assert(before[a].dap@.name != before[b].dap@.name);
        }
    }
    let target = registry_of(before).insert(entry.dap@.name, entry.state());
    assert forall|name: Seq<char>| registry_of(after).contains_key(name) <==> target.contains_key(
        name,
    ) by {
        if registry_of(after).contains_key(name) {
            let k = choose|k: int| named_at(after, name, k);
            if k < last {
                assert(named_at(before, name, k));
            }
        }
        if target.contains_key(name) {
            if name == entry.dap@.name {
                assert(named_at(after, name, last));
            } else {
                let k = choose|k: int| named_at(before, name, k);
                assert(named_at(after, name, k));
            }
        }
    }
    assert forall|name: Seq<char>| registry_of(after).contains_key(name) implies registry_of(
        after,
    )[name] == target[name] by {
        let k = choose|k: int| named_at(after, name, k);
        lemma_entry(after, k);
        if k < last {
            lemma_entry(before, k);
        }
    }
    assert(registry_of(after) =~= target);
}

/// The main dap as a new registry holds it: under the root of all daps,
/// with the default settings and without a running module.
pub open spec fn main_state(daps_path: Seq<char>) -> DapState {
    DapState {
        dap: DapView {
            name: main_name(),
            root_dir: path_join(daps_path, main_name()),
            settings: default_settings(),
        },
        loaded: false,
    }
}

/// The registry `registry` with the dap `name` marked as holding a running
/// module, or as holding none.
pub open spec fn with_loaded(registry: Registry, name: Seq<char>, loaded: bool) -> Registry {
    registry.insert(name, DapState { loaded, ..registry[name] })
}

/// Whether the dap `name` is one that requests may change: a registered
/// dap other than the main dap.
pub open spec fn is_target(registry: Registry, name: Seq<char>) -> bool {
    registry.contains_key(name) && name != main_name()
}

/// Whether carrying out `query` on the dap `name` changes its settings, so
/// that they have to be written.
pub open spec fn needs_write(registry: Registry, name: Seq<char>, query: DapUpdateQuery) -> bool {
    is_target(registry, name) && registry[name].dap.changed_by(query)
}

/// Whether carrying out `query` on the dap `name` enables the dap, so that
/// its module has to be read and instantiated.
pub open spec fn needs_module(registry: Registry, name: Seq<char>, query: DapUpdateQuery) -> bool {
    needs_write(registry, name, query) && query.enabled == Some(true)
}

/// The registry after `query` was carried out on the dap `name`, where
/// `saved` tells whether the changed settings were written and `started`
/// whether the module, where one was needed, came to run. Without a change,
/// or when the settings were not written, the registry is as before.
/// Otherwise the dap has the changed settings, and holds a running module
/// exactly if it was enabled and the module came to run.
pub open spec fn updated(
    registry: Registry,
    name: Seq<char>,
    query: DapUpdateQuery,
    saved: bool,
    started: bool,
) -> Registry {
    if needs_write(registry, name, query) && saved {
        registry.insert(
            name,
            DapState {
                dap: registry[name].dap.updated(query),
                loaded: needs_module(registry, name, query) && started,
            },
        )
    } else {
        registry
    }
}

/// A directory entry found under the root of all daps, with what was found
/// where the settings of a dap of that name are kept.
#[derive(Debug, PartialEq, Eq)]
pub struct FoundEntry {
    pub name: String,
    pub is_dir: bool,
    pub settings: SettingsFile,
}

/// What discovery did with a directory entry.
#[derive(Debug, PartialEq, Eq)]
pub enum Discovery {
    /// A dap was registered for the entry; `enabled` tells whether its
    /// settings ask for its module to be loaded.
    Registered { enabled: bool },
    /// The entry is not a directory.
    NotDirectory,
    /// The name of the entry is reserved.
    Reserved,
    /// A dap of that name is registered already, and stays as it is.
    AlreadyRegistered,
    /// The settings of the dap could not be loaded; no dap was registered.
    Failed(DapSettingsError),
}

/// The names that no discovered dap can have: that of the main dap, and that
/// of the directory of static assets, whose address belongs to the platform.
pub open spec fn is_reserved(name: Seq<char>) -> bool {
    name == main_name() || name == static_dir_name()
}

/// Whether discovery makes a dap for `entry`: a directory whose name is not
/// reserved and not registered.
pub open spec fn accepts(registry: Registry, entry: FoundEntry) -> bool {
    entry.is_dir && !is_reserved(entry.name@) && !registry.contains_key(entry.name@)
}

/// The dap that discovery makes for `entry` below `root`, or why it makes
/// none.
pub open spec fn made_for(root: Seq<char>, entry: FoundEntry) -> Result<DapView, SettingsFailure> {
    made(entry.name@, path_join(root, entry.name@), entry.settings)
}

/// The registry after discovery looked at `entry`: with a new dap, not yet
/// loaded, if the entry is accepted and its settings could be loaded, and as
/// before otherwise.
pub open spec fn registered(registry: Registry, root: Seq<char>, entry: FoundEntry) -> Registry {
    if accepts(registry, entry) {
        match made_for(root, entry) {
            Ok(dap) => registry.insert(entry.name@, DapState { dap, loaded: false }),
            Err(_) => registry,
        }
    } else {
        registry
    }
}

/// The registry after discovery looked at each of `found` in turn.
pub open spec fn discovered(registry: Registry, root: Seq<char>, found: Seq<FoundEntry>) -> Registry
    decreases found.len(),
{
    if found.len() == 0 {
        registry
    } else {
        registered(discovered(registry, root, found.drop_last()), root, found.last())
    }
}

/// Whether `outcome` tells truly what discovery did with `entry` on
/// `registry`.
pub open spec fn describes(
    outcome: Discovery,
    registry: Registry,
    root: Seq<char>,
    entry: FoundEntry,
) -> bool {
    match outcome {
        Discovery::NotDirectory => !entry.is_dir,
        Discovery::Reserved => entry.is_dir && is_reserved(entry.name@),
        Discovery::AlreadyRegistered => entry.is_dir && !is_reserved(entry.name@)
            && registry.contains_key(entry.name@),
        Discovery::Failed(error) => accepts(registry, entry) && made_for(root, entry) == Err::<
            DapView,
            SettingsFailure,
        >(error@),
        Discovery::Registered { enabled } => accepts(registry, entry) && (made_for(
            root,
            entry,
        ) matches Ok(dap) && dap.settings.enabled == enabled),
    }
}

/// Carrying out the same query twice: after the first went through, the
/// second finds nothing to change, asks for nothing to be written, and
/// leaves the registry as it is, whatever it is told of writes and modules.
pub proof fn lemma_update_idempotent(
    registry: Registry,
    name: Seq<char>,
    query: DapUpdateQuery,
    started: bool,
    saved_again: bool,
    started_again: bool,
)
    ensures
        ({
            let once = updated(registry, name, query, true, started);
            &&& !needs_write(once, name, query)
            &&& !needs_module(once, name, query)
            &&& updated(once, name, query, saved_again, started_again) == once
        }),
{
}

/// Changes to two different daps do not disturb each other: in whichever
/// order they are carried out the registry is the same, and it holds both
/// changes.
pub proof fn lemma_updates_commute(
    registry: Registry,
    first: Seq<char>,
    first_query: DapUpdateQuery,
    first_started: bool,
    second: Seq<char>,
    second_query: DapUpdateQuery,
    second_started: bool,
)
    requires
        first != second,
    ensures
        ({
            let one_way = updated(
                updated(registry, first, first_query, true, first_started),
                second,
                second_query,
                true,
                second_started,
            );
            let other_way = updated(
                updated(registry, second, second_query, true, second_started),
                first,
                first_query,
                true,
                first_started,
            );
            &&& one_way == other_way
            &&& is_target(registry, first) ==> one_way[first].dap == registry[first].dap.updated(
                first_query,
            )
            &&& is_target(registry, second) ==> one_way[second].dap
                == registry[second].dap.updated(second_query)
        }),
{
    let one_way = updated(
        updated(registry, first, first_query, true, first_started),
        second,
        second_query,
        true,
        second_started,
    );
    let other_way = updated(
        updated(registry, second, second_query, true, second_started),
        first,
        first_query,
        true,
        first_started,
    );
    assert(one_way =~= other_way);
}

/// Disabling a dap leaves it without a running module, whatever it held;
/// and enabling it again asks for its module to be read and instantiated
/// anew, so that it holds a running module afterwards exactly if that new
/// instantiation came to run.
pub proof fn lemma_disable_drops_enable_reloads(
    registry: Registry,
    name: Seq<char>,
    started_then: bool,
    started_now: bool,
)
    requires
        is_target(registry, name),
        registry[name].dap.settings.enabled,
    ensures
        ({
            let disable = DapUpdateQuery { enabled: Some(false) };
            let enable = DapUpdateQuery { enabled: Some(true) };
            let off = updated(registry, name, disable, true, started_then);
            let on = updated(off, name, enable, true, started_now);
            &&& !off[name].loaded
            &&& !off[name].dap.settings.enabled
            &&& needs_module(off, name, enable)
            &&& on[name].dap.settings.enabled
            &&& on[name].loaded == started_now
        }),
{
}

/// An entry whose settings cannot be loaded changes nothing, so that the
/// entries after it are registered as if it had not been there.
pub proof fn lemma_failed_entry_skipped(
    registry: Registry,
    root: Seq<char>,
    found: Seq<FoundEntry>,
    failed: FoundEntry,
    next: FoundEntry,
)
    requires
        made_for(root, failed) is Err,
    ensures
        registered(registry, root, failed) == registry,
        discovered(registry, root, found.push(failed)) == discovered(registry, root, found),
        discovered(registry, root, found.push(failed).push(next)) == discovered(
            registry,
            root,
            found.push(next),
        ),
{
    assert(found.push(failed).drop_last() =~= found);
    assert(found.push(failed).push(next).drop_last() =~= found.push(failed));
    assert(found.push(next).drop_last() =~= found);
}

/// What has to be done outside before a change to a dap can be carried out.
#[derive(Debug, PartialEq, Eq)]
pub struct UpdatePlan {
    /// The changed settings, to be written to the settings file; `None`
    /// where nothing changes.
    pub write: Option<SettingsWrite>,
    /// The path of the module file, to be read; `None` where the change
    /// does not enable the dap.
    pub module_file: Option<String>,
}

impl View for DapsManager {
    type V = Registry;

    closed spec fn view(&self) -> Registry {
        registry_of(self.entries@)
    }
}

impl DapsManager {
    /// The root directory under which the daps are kept.
    pub closed spec fn spec_daps_path(&self) -> Seq<char> {
        self.daps_path@
    }

    /// What holds of every registry: each dap is registered under its own
    /// name and under no other, the main dap is registered, and only an
    /// enabled dap holds a running module.
    pub closed spec fn wf(&self) -> bool {
        &&& names_unique(self.entries@)
        &&& loaded_enabled(self.entries@)
        &&& registry_of(self.entries@).contains_key(main_name())
    }

    /// What [`DapsManager::wf`] says, over the registry as plain values.
    pub proof fn lemma_wf(&self)
        requires
            self.wf(),
        ensures
            self@.contains_key(main_name()),
            self@.dom().finite(),
            forall|name: Seq<char>| #[trigger]
                self@.contains_key(name) ==> self@[name].dap.name == name,
            forall|name: Seq<char>| #[trigger]
                self@.contains_key(name) && self@[name].loaded ==> self@[name].dap.settings.enabled,
    {
        let entries = self.entries@;
        let registry = self@;
        assert forall|name: Seq<char>| #[trigger] registry.contains_key(name) implies {
            &&& registry[name].dap.name == name
            &&& registry[name].loaded ==> registry[name].dap.settings.enabled
        } by {
            let k = choose|k: int| named_at(entries, name, k);
            lemma_entry(entries, k);
        }
        let names = Set::new(|name: Seq<char>| exists|i: int| named_at(entries, name, i));
        let places = Set::new(|i: int| 0 <= i < entries.len());
        assert(places =~= vstd::set_lib::set_int_range(0, entries.len() as int));
        vstd::set_lib::lemma_int_range(0, entries.len() as int);
        let image = places.map(|i: int| entries[i].dap@.name);
        places.lemma_map_finite(|i: int| entries[i].dap@.name);
        assert forall|name: Seq<char>| names.contains(name) implies image.contains(name) by {
            let k = choose|k: int| named_at(entries, name, k);
            assert(places.contains(k));
        }
        vstd::set_lib::lemma_len_subset(names, image);
        assert(self@.dom() =~= names);
    }

    /// A registry for the daps under `daps_path`. It holds the main dap and
    /// nothing else.
    pub fn new(daps_path: &str) -> (r: DapsManager)
        ensures
            r.wf(),
            r.spec_daps_path() == daps_path@,
            r@ == Map::<Seq<char>, DapState>::empty().insert(main_name(), main_state(daps_path@)),
    {
        let root = join_path(daps_path, Dap::main_name());
        let main = Dap::with_settings(Dap::main_name(), root.as_str(), DapSettings::default());
        let mut entries: Vec<DapEntry> = Vec::new();
        let entry = DapEntry { dap: main, instance: None };
        proof {
            assert(!registry_of(entries@).contains_key(entry.dap@.name));
            lemma_added(entries@, entry);
            assert(registry_of(entries@) =~= Map::<Seq<char>, DapState>::empty());
        }
        entries.push(entry);
        DapsManager { daps_path: daps_path.to_owned(), entries }
    }

    /// The place of the dap `name` among the entries.
    fn find(&self, name: &str) -> (r: Option<usize>)
        requires
            self.wf(),
        ensures
            match r {
                Some(i) => i < self.entries@.len() && self.entries@[i as int].dap@.name == name@
                    && self@.contains_key(name@) && self@[name@] == self.entries@[i as int].state(),
                None => !self@.contains_key(name@),
            },
    {
        let mut i: usize = 0;
        while i < self.entries.len()
            invariant
                self.wf(),
                i <= self.entries@.len(),
                forall|j: int| 0 <= j < i ==> (#[trigger] self.entries@[j]).dap@.name != name@,
            decreases self.entries@.len() - i,
        {
            if same_text(self.entries[i].dap.name(), name) {
                proof {
                    lemma_entry(self.entries@, i as int);
                }
                return Some(i);
            }
            i = i + 1;
        }
        proof {
            if self@.contains_key(name@) {
                let k = choose|k: int| named_at(self.entries@, name@, k);
                assert(self.entries@[k].dap@.name != name@);
            }
        }
        None
    }

    /// The dap `name`, if it is registered.
    pub fn dap(&self, name: &str) -> (r: ServerResult<&Dap>)
        requires
            self.wf(),
        ensures
            match r {
                Ok(dap) => self@.contains_key(name@) && self@[name@].dap == dap@,
                Err(ServerError::DapNotFound(text)) => !self@.contains_key(name@) && text@
                    == name@,
                Err(_) => false,
            },
    {
        match self.find(name) {
            Some(i) => Ok(&self.entries[i].dap),
            None => Err(ServerError::DapNotFound(name.to_owned())),
        }
    }

    /// Whether the dap `name` is registered and holds a running module.
    pub fn is_loaded(&self, name: &str) -> (r: bool)
        requires
            self.wf(),
        ensures
            r == (self@.contains_key(name@) && self@[name@].loaded),
    {
        match self.find(name) {
            Some(i) => self.entries[i].instance.is_some(),
            None => false,
        }
    }

    /// Where the dap `name` stands in its lifecycle, if it is registered.
    pub fn lifecycle(&self, name: &str) -> (r: ServerResult<Lifecycle>)
        requires
            self.wf(),
        ensures
            match r {
                Ok(stage) => self@.contains_key(name@) && stage == lifecycle_of(self@[name@])
                    && (stage is Loaded <==> self@[name@].loaded),
                Err(ServerError::DapNotFound(text)) => !self@.contains_key(name@) && text@
                    == name@,
                Err(_) => false,
            },
    {
        match self.find(name) {
            Some(i) => {
                proof {
                    self.lemma_wf();
                }
                if !self.entries[i].dap.enabled() {
                    Ok(Lifecycle::Disabled)
                } else if self.entries[i].instance.is_some() {
                    Ok(Lifecycle::Loaded)
                } else {
                    Ok(Lifecycle::Unloaded)
                }
            },
            None => Err(ServerError::DapNotFound(name.to_owned())),
        }
    }

    /// The running module of the dap `name`. A dap that is not registered
    /// is `DapNotFound`; one that holds no running module is `NotLoaded`.
    pub fn instance(&self, name: &str) -> (r: ServerResult<&ModuleInstance>)
        requires
            self.wf(),
        ensures
            match r {
                Ok(_) => self@.contains_key(name@) && self@[name@].loaded,
                Err(ServerError::DapNotFound(text)) => !self@.contains_key(name@) && text@
                    == name@,
                Err(ServerError::Module(ModuleError::NotLoaded)) => self@.contains_key(name@)
                    && !self@[name@].loaded,
                Err(_) => false,
            },
    {
        match self.find(name) {
            Some(i) => match &self.entries[i].instance {
                Some(instance) => Ok(instance),
                None => Err(ServerError::Module(ModuleError::NotLoaded)),
            },
            None => Err(ServerError::DapNotFound(name.to_owned())),
        }
    }

    /// Drops the running module of the dap `name`, if it holds one, and
    /// tells whether it did. Nothing else changes; for a dap that holds none
    /// or is not registered nothing changes at all.
    pub fn unload(&mut self, name: &str) -> (r: bool)
        requires
            old(self).wf(),
        ensures
            final(self).wf(),
            final(self).spec_daps_path() == old(self).spec_daps_path(),
            r == (old(self)@.contains_key(name@) && old(self)@[name@].loaded),
            final(self)@ == if old(self)@.contains_key(name@) {
                with_loaded(old(self)@, name@, false)
            } else {
                old(self)@
            },
    {
        match self.find(name) {
            Some(i) => {
                let held = self.entries[i].instance.is_some();
                self.entries[i].instance = None;
                proof {
                    lemma_replace(old(self).entries@, i as int, self.entries@);
                    lemma_entry(self.entries@, 0);
                    self.lemma_kept_main(*old(self));
                }
                held
            },
            None => false,
        }
    }

    /// A registry that holds the names of another holds the main dap if the
    /// other does.
    proof fn lemma_kept_main(&self, before: DapsManager)
        requires
            before.wf(),
            forall|name: Seq<char>| before@.contains_key(name) ==> self@.contains_key(name),
        ensures
            self@.contains_key(main_name()),
    {
    }

    /// Gives the dap `name` the outcome of instantiating its module. A
    /// running instance is kept if the dap is enabled, in place of any that
    /// it held. In every other case the dap is left without a running
    /// module: a dap that is not enabled gets `Disabled`, and a failed
    /// instantiation is returned as it is.
    pub fn install(&mut self, name: &str, outcome: Result<ModuleInstance, ModuleError>) -> (r:
        ServerResult<()>)
        requires
            old(self).wf(),
        ensures
            final(self).wf(),
            final(self).spec_daps_path() == old(self).spec_daps_path(),
            match r {
                Ok(()) => {
                    &&& old(self)@.contains_key(name@)
                    &&& old(self)@[name@].dap.settings.enabled
                    &&& outcome is Ok
                    &&& final(self)@ == with_loaded(old(self)@, name@, true)
                },
                Err(ServerError::DapNotFound(text)) => {
                    &&& !old(self)@.contains_key(name@)
                    &&& text@ == name@
                    &&& final(self)@ == old(self)@
                },
                Err(ServerError::Module(error)) => {
                    &&& old(self)@.contains_key(name@)
                    &&& final(self)@ == with_loaded(old(self)@, name@, false)
                    &&& if old(self)@[name@].dap.settings.enabled {
                        outcome == Err::<ModuleInstance, ModuleError>(error)
                    } else {
                        error is Disabled
                    }
                },
                Err(_) => false,
            },
    {
        let i = match self.find(name) {
            Some(i) => i,
            None => {
                return Err(ServerError::DapNotFound(name.to_owned()));
            },
        };
        let enabled = self.entries[i].dap.enabled();
        let r = match outcome {
            Ok(instance) => {
                if enabled {
                    self.entries[i].instance = Some(instance);
                    Ok(())
                } else {
                    self.entries[i].instance = None;
                    Err(ServerError::Module(ModuleError::Disabled))
                }
            },
            Err(error) => {
                self.entries[i].instance = None;
                if enabled {
                    Err(ServerError::Module(error))
                } else {
                    Err(ServerError::Module(ModuleError::Disabled))
                }
            },
        };
        proof {
            lemma_replace(old(self).entries@, i as int, self.entries@);
            self.lemma_kept_main(*old(self));
        }
        r
    }

    /// Instantiates the module of the dap `name` from what was read from its
    /// module file, and keeps the running instance. A dap that is not
    /// registered is `DapNotFound`. One that is not enabled is `Disabled`,
    /// and bytes that could not be read are `Unreadable`; for bytes that
    /// were read the engine decides. Whenever no instance comes of it, the
    /// dap is left without a running module.
    pub fn load(&mut self, name: &str, module: ModuleRead) -> (r: ServerResult<()>)
        requires
            old(self).wf(),
        ensures
            final(self).wf(),
            final(self).spec_daps_path() == old(self).spec_daps_path(),
            match r {
                Ok(()) => {
                    &&& old(self)@.contains_key(name@)
                    &&& old(self)@[name@].dap.settings.enabled
                    &&& module is Ok
                    &&& final(self)@ == with_loaded(old(self)@, name@, true)
                },
                Err(ServerError::DapNotFound(text)) => {
                    &&& !old(self)@.contains_key(name@)
                    &&& text@ == name@
                    &&& final(self)@ == old(self)@
                },
                Err(ServerError::Module(error)) => {
                    &&& old(self)@.contains_key(name@)
                    &&& final(self)@ == with_loaded(old(self)@, name@, false)
                    &&& if !old(self)@[name@].dap.settings.enabled {
                        error is Disabled
                    } else {
                        match module {
                            Err(reason) => error matches ModuleError::Unreadable(text) && text
                                == reason,
                            Ok(_) => from_engine(error),
                        }
                    }
                },
                Err(_) => false,
            },
    {
        let outcome = match self.find(name) {
            Some(i) => self.entries[i].dap.instantiate(module),
            None => {
                return Err(ServerError::DapNotFound(name.to_owned()));
            },
        };
        self.install(name, outcome)
    }

    /// Every registered dap, each once, in no particular order.
    pub fn daps_iter(&self) -> (r: Vec<&Dap>)
        requires
            self.wf(),
        ensures
            forall|i: int|
                0 <= i < r@.len() ==> self@.contains_key((#[trigger] r@[i])@.name)
                    && self@[r@[i]@.name].dap == r@[i]@,
            forall|i: int, j: int|
                0 <= i < j < r@.len() ==> (#[trigger] r@[i])@.name != (#[trigger] r@[j])@.name,
            forall|name: Seq<char>|
                self@.contains_key(name) ==> exists|i: int|
                    0 <= i < r@.len() && (#[trigger] r@[i])@.name == name,
    {
        let mut r: Vec<&Dap> = Vec::new();
        let mut i: usize = 0;
        while i < self.entries.len()
            invariant
                self.wf(),
                i <= self.entries@.len(),
                r@.len() == i,
                forall|j: int| 0 <= j < i ==> *(#[trigger] r@[j]) == self.entries@[j].dap,
            decreases self.entries@.len() - i,
        {
            r.push(&self.entries[i].dap);
            i = i + 1;
        }
        proof {
            assert forall|j: int| 0 <= j < r@.len() implies self@.contains_key(
                (#[trigger] r@[j])@.name,
            ) && self@[r@[j]@.name].dap == r@[j]@ by {
                lemma_entry(self.entries@, j);
            }
            assert forall|a: int, b: int| 0 <= a < b < r@.len() implies {
                (#[trigger] r@[a])@.name != (#[trigger] r@[b])@.name
            } by {
                assert(self.entries@[a].dap@.name != self.entries@[b].dap@.name);
            }
            assert forall|name: Seq<char>| self@.contains_key(name) implies exists|j: int|
                0 <= j < r@.len() && (#[trigger] r@[j])@.name == name by {
                let k = choose|k: int| named_at(self.entries@, name, k);
                assert(r@[k]@.name == name);
            }
        }
        r
    }

    /// What has to be done outside before `query` can be carried out on the
    /// dap `name`: writing the changed settings, if any change, and reading
    /// the module file, if the change enables the dap. The main dap and a
    /// dap that is not registered are `DapNotFound`.
    pub fn plan_update(&self, name: &str, query: &DapUpdateQuery) -> (r: ServerResult<UpdatePlan>)
        requires
            self.wf(),
        ensures
            match r {
                Ok(plan) => {
                    &&& is_target(self@, name@)
                    &&& match plan.write {
                        Some(write) => {
                            &&& needs_write(self@, name@, *query)
                            &&& write.path@ == self@[name@].dap.settings_file()
                            &&& write.document.settings() == Ok::<DapSettingsView, Seq<char>>(
                                self@[name@].dap.updated(*query).settings,
                            )
                        },
                        None => !needs_write(self@, name@, *query),
                    }
                    &&& match plan.module_file {
                        Some(path) => needs_module(self@, name@, *query) && path@
                            == self@[name@].dap.server_module_file(),
                        None => !needs_module(self@, name@, *query),
                    }
                },
                Err(ServerError::DapNotFound(text)) => !is_target(self@, name@) && text@ == name@,
                Err(_) => false,
            },
    {
        let i = match self.find(name) {
            Some(i) => i,
            None => {
                return Err(ServerError::DapNotFound(name.to_owned()));
            },
        };
        let dap = &self.entries[i].dap;
        if dap.is_main() {
            return Err(ServerError::DapNotFound(name.to_owned()));
        }
        let write = dap.pending_write(query);
        let module_file = match (&write, query.enabled) {
            (Some(_), Some(true)) => Some(dap.server_module_file()),
            _ => None,
        };
        Ok(UpdatePlan { write, module_file })
    }

    /// Carries out `query` on the dap `name`, given in `saved` how the write
    /// that [`DapsManager::plan_update`] asked for went, and in `module`
    /// what was read from the module file that it asked for.
    ///
    /// The main dap and a dap that is not registered are `DapNotFound`. A
    /// query that changes nothing gives a response without changes, and
    /// neither `saved` nor `module` is looked at. If the write failed the
    /// failure is returned and nothing changes, in memory as on disk. When
    /// the dap gets disabled, the running module that it holds is dropped.
    /// When it gets enabled, its module is instantiated anew from `module`;
    /// if that fails the dap stays enabled, holds no running module, and
    /// the failure is returned.
    pub fn update(
        &mut self,
        name: &str,
        query: DapUpdateQuery,
        saved: DapSettingsResult<()>,
        module: ModuleRead,
    ) -> (r: ServerResult<DapUpdateQuery>)
        requires
            old(self).wf(),
        ensures
            final(self).wf(),
            final(self).spec_daps_path() == old(self).spec_daps_path(),
            final(self)@ == updated(old(self)@, name@, query, saved is Ok, r is Ok),
            match r {
                Ok(done) => {
                    &&& is_target(old(self)@, name@)
                    &&& if needs_write(old(self)@, name@, query) {
                        &&& saved is Ok
                        &&& done.enabled == query.enabled
                        &&& needs_module(old(self)@, name@, query) ==> module is Ok
                    } else {
                        done.enabled is None
                    }
                },
                Err(ServerError::DapNotFound(text)) => !is_target(old(self)@, name@) && text@
                    == name@,
                Err(ServerError::Settings(error)) => needs_write(old(self)@, name@, query) && saved
                    == Err::<(), DapSettingsError>(error),
                Err(ServerError::Module(error)) => {
                    &&& needs_module(old(self)@, name@, query)
                    &&& saved is Ok
                    &&& match module {
                        Err(reason) => error matches ModuleError::Unreadable(text) && text
                            == reason,
                        Ok(_) => from_engine(error),
                    }
                },
                Err(_) => false,
            },
    {
        let i = match self.find(name) {
            Some(i) => i,
            None => {
                return Err(ServerError::DapNotFound(name.to_owned()));
            },
        };
        if self.entries[i].dap.is_main() {
            return Err(ServerError::DapNotFound(name.to_owned()));
        }
        match self.entries[i].dap.update(query, saved) {
            Err(error) => {
                proof {
                    lemma_replace(old(self).entries@, i as int, self.entries@);
                    assert(self@ =~= old(self)@);
                    self.lemma_kept_main(*old(self));
                }
                Err(ServerError::Settings(error))
            },
            Ok(false) => {
                proof {
                    lemma_replace(old(self).entries@, i as int, self.entries@);
                    assert(self@ =~= old(self)@);
                    self.lemma_kept_main(*old(self));
                }
                Ok(DapUpdateQuery { enabled: None })
            },
            Ok(true) => {
                if self.entries[i].dap.enabled() {
                    proof {
                        lemma_replace(old(self).entries@, i as int, self.entries@);
                        self.lemma_kept_main(*old(self));
                    }
                    match self.load(name, module) {
                        Ok(()) => {
                            assert(self@ =~= updated(old(self)@, name@, query, true, true));
                            Ok(query)
                        },
                        Err(error) => {
                            assert(self@ =~= updated(old(self)@, name@, query, true, false));
                            Err(error)
                        },
                    }
                } else {
                    self.entries[i].instance = None;
                    proof {
                        lemma_replace(old(self).entries@, i as int, self.entries@);
                        self.lemma_kept_main(*old(self));
                    }
                    Ok(query)
                }
            },
        }
    }

    /// Looks at one directory entry found under the root of all daps, and
    /// registers a dap for it if it is a directory whose name is neither
    /// reserved nor registered and whose settings can be loaded. The new dap
    /// holds no running module. A dap that is registered already is not
    /// touched.
    pub fn register(&mut self, entry: &FoundEntry) -> (r: Discovery)
        requires
            old(self).wf(),
        ensures
            final(self).wf(),
            final(self).spec_daps_path() == old(self).spec_daps_path(),
            final(self)@ == registered(old(self)@, old(self).spec_daps_path(), *entry),
            describes(r, old(self)@, old(self).spec_daps_path(), *entry),
    {
        if !entry.is_dir {
            return Discovery::NotDirectory;
        }
        let name = entry.name.as_str();
        if same_text(name, Dap::main_name()) || same_text(name, Dap::static_dir_name()) {
            return Discovery::Reserved;
        }
        if self.find(name).is_some() {
            return Discovery::AlreadyRegistered;
        }
        let root = join_path(self.daps_path.as_str(), name);
        match Dap::new(name, root.as_str(), &entry.settings) {
            Err(error) => Discovery::Failed(error),
            Ok(dap) => {
                let enabled = dap.enabled();
                let added = DapEntry { dap, instance: None };
                proof {
                    lemma_added(self.entries@, added);
                }
                self.entries.push(added);
                proof {
                    self.lemma_kept_main(*old(self));
                }
                Discovery::Registered { enabled }
            },
        }
    }

    /// Discovery: looks at each of the directory entries found under the
    /// root of all daps, in turn, as [`DapsManager::register`] does, and
    /// tells for each what was done with it. An entry whose settings cannot
    /// be loaded is left out and does not keep the others from being
    /// registered. No module is loaded here: that is for the caller to do
    /// for the daps that were registered enabled.
    pub fn load_daps(&mut self, found: &Vec<FoundEntry>) -> (r: Vec<Discovery>)
        requires
            old(self).wf(),
        ensures
            final(self).wf(),
            final(self).spec_daps_path() == old(self).spec_daps_path(),
            final(self)@ == discovered(old(self)@, old(self).spec_daps_path(), found@),
            r@.len() == found@.len(),
            forall|i: int|
                0 <= i < found@.len() ==> describes(
                    #[trigger] r@[i],
                    discovered(old(self)@, old(self).spec_daps_path(), found@.take(i)),
                    old(self).spec_daps_path(),
                    found@[i],
                ),
    {
        let ghost root = self.spec_daps_path();
        let mut r: Vec<Discovery> = Vec::new();
        let mut i: usize = 0;
        proof {
            assert(found@.take(0) =~= Seq::<FoundEntry>::empty());
        }
        while i < found.len()
            invariant
                self.wf(),
                self.spec_daps_path() == root,
                root == old(self).spec_daps_path(),
                i <= found@.len(),
                r@.len() == i,
                self@ == discovered(old(self)@, root, found@.take(i as int)),
                forall|j: int|
                    0 <= j < i ==> describes(
                        #[trigger] r@[j],
                        discovered(old(self)@, root, found@.take(j)),
                        root,
                        found@[j],
                    ),
            decreases found@.len() - i,
        {
            let outcome = self.register(&found[i]);
            proof {
                let next = found@.take(i + 1);
                assert(next.drop_last() =~= found@.take(i as int));
                assert(next.last() == found@[i as int]);
            }
            r.push(outcome);
            i = i + 1;
        }
        proof {
            assert(found@.take(found@.len() as int) =~= found@);
        }
        r
    }
}

} // verus!

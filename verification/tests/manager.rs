use dapla::daps::DapUpdateQuery;
use dapla::error::ServerError;
use dapla::manager::{DapsManager, Discovery, FoundEntry, Lifecycle, UpdatePlan};
use dapla::module::ModuleError;
use dapla::settings::{
    ApplicationDocument, DapSettings, DapSettingsError, SettingsDocument, SettingsFile,
};

const EMPTY_MODULE: [u8; 8] = [0x00, 0x61, 0x73, 0x6d, 0x01, 0x00, 0x00, 0x00];

fn document(enabled: bool) -> SettingsFile {
    SettingsFile::Document(SettingsDocument {
        application: Some(ApplicationDocument { title: None, enabled: Some(enabled) }),
        permissions: None,
    })
}

fn dir(name: &str, settings: SettingsFile) -> FoundEntry {
    FoundEntry { name: name.to_string(), is_dir: true, settings }
}

fn names(manager: &DapsManager) -> Vec<String> {
    let mut names: Vec<String> =
        manager.daps_iter().iter().map(|dap| dap.name().to_string()).collect();
    names.sort();
    names
}

fn alpha_beta() -> DapsManager {
    let mut manager = DapsManager::new("/srv/daps");
    manager.load_daps(&vec![dir("beta", document(false)), dir("alpha", document(true))]);
    manager
}

fn enable() -> DapUpdateQuery {
    DapUpdateQuery { enabled: Some(true) }
}

fn disable() -> DapUpdateQuery {
    DapUpdateQuery { enabled: Some(false) }
}

fn not_found(name: &str) -> ServerError {
    ServerError::DapNotFound(name.to_string())
}

#[test]
fn new_registry_holds_the_main_dap_only() {
    let manager = DapsManager::new("/srv/daps");
    assert_eq!(names(&manager), vec!["dapla"]);
    let main = manager.dap("dapla").unwrap();
    assert!(main.is_main());
    assert_eq!(main.root_dir(), "/srv/daps/dapla");
    assert_eq!(main.settings(), &DapSettings::default());
    assert!(!manager.is_loaded("dapla"));
}

#[test]
fn lookup_of_unknown_dap_is_not_found() {
    let manager = alpha_beta();
    assert_eq!(manager.dap("gamma").err(), Some(not_found("gamma")));
    assert_eq!(manager.dap("").err(), Some(not_found("")));
    assert_eq!(manager.dap("alpha").unwrap().name(), "alpha");
    assert!(!manager.is_loaded("gamma"));
    assert_eq!(manager.instance("gamma").err(), Some(not_found("gamma")));
}

#[test]
fn discovery_registers_directories() {
    let mut manager = DapsManager::new("/srv/daps");
    let report = manager.load_daps(&vec![
        dir("beta", document(false)),
        dir("alpha", document(true)),
        dir("plain", SettingsFile::Missing),
    ]);
    assert_eq!(
        report,
        vec![
            Discovery::Registered { enabled: false },
            Discovery::Registered { enabled: true },
            Discovery::Registered { enabled: false },
        ]
    );
    assert_eq!(names(&manager), vec!["alpha", "beta", "dapla", "plain"]);
    assert_eq!(manager.dap("alpha").unwrap().root_dir(), "/srv/daps/alpha");
    assert!(manager.dap("alpha").unwrap().enabled());
    assert!(!manager.dap("beta").unwrap().enabled());
    assert_eq!(manager.dap("plain").unwrap().settings(), &DapSettings::default());
    assert!(!manager.is_loaded("alpha"));
}

#[test]
fn discovery_skips_a_dap_with_corrupt_settings() {
    let mut manager = DapsManager::new("/srv/daps");
    let report = manager.load_daps(&vec![
        dir("broken", SettingsFile::Malformed("unexpected end".to_string())),
        dir("valid", document(true)),
    ]);
    assert_eq!(
        report,
        vec![
            Discovery::Failed(DapSettingsError::Parse("unexpected end".to_string())),
            Discovery::Registered { enabled: true },
        ]
    );
    assert_eq!(names(&manager), vec!["dapla", "valid"]);
    assert_eq!(manager.dap("broken").err(), Some(not_found("broken")));
    assert!(manager.dap("valid").unwrap().enabled());
}

#[test]
fn discovery_skips_unreadable_settings_and_goes_on() {
    let mut manager = DapsManager::new("/srv/daps");
    let report = manager.load_daps(&vec![
        dir("first", document(false)),
        dir("locked", SettingsFile::Unreadable("permission denied".to_string())),
        dir("last", document(false)),
    ]);
    assert_eq!(
        report[1],
        Discovery::Failed(DapSettingsError::Io("permission denied".to_string()))
    );
    assert_eq!(names(&manager), vec!["dapla", "first", "last"]);
}

#[test]
fn discovery_skips_files_and_reserved_names() {
    let mut manager = DapsManager::new("/srv/daps");
    let report = manager.load_daps(&vec![
        FoundEntry { name: "readme.md".to_string(), is_dir: false, settings: SettingsFile::Missing },
        dir("static", SettingsFile::Missing),
        dir("dapla", document(true)),
        dir("chat", SettingsFile::Missing),
    ]);
    assert_eq!(
        report,
        vec![
            Discovery::NotDirectory,
            Discovery::Reserved,
            Discovery::Reserved,
            Discovery::Registered { enabled: false },
        ]
    );
    assert_eq!(names(&manager), vec!["chat", "dapla"]);
    assert!(!manager.dap("dapla").unwrap().enabled());
}

#[test]
fn discovery_keeps_a_dap_that_is_registered_already() {
    let mut manager = alpha_beta();
    assert_eq!(manager.load("alpha", Ok(EMPTY_MODULE.to_vec())), Ok(()));
    let report = manager.load_daps(&vec![dir("alpha", document(false)), dir("alpha", document(false))]);
    assert_eq!(report, vec![Discovery::AlreadyRegistered, Discovery::AlreadyRegistered]);
    assert!(manager.dap("alpha").unwrap().enabled());
    assert!(manager.is_loaded("alpha"));
    assert_eq!(names(&manager), vec!["alpha", "beta", "dapla"]);
}

#[test]
fn discovery_of_nothing_changes_nothing() {
    let mut manager = alpha_beta();
    assert_eq!(manager.load_daps(&vec![]), vec![]);
    assert_eq!(names(&manager), vec!["alpha", "beta", "dapla"]);
}

#[test]
fn register_adds_one_dap() {
    let mut manager = DapsManager::new("daps");
    assert_eq!(
        manager.register(&dir("chat", document(true))),
        Discovery::Registered { enabled: true }
    );
    assert_eq!(manager.register(&dir("chat", document(true))), Discovery::AlreadyRegistered);
    assert_eq!(manager.dap("chat").unwrap().root_dir(), "daps/chat");
    assert_eq!(manager.dap("chat").unwrap().server_module_file(), "daps/chat/chat_server.wasm");
}

#[test]
fn load_keeps_a_running_module() {
    let mut manager = alpha_beta();
    assert_eq!(manager.load("alpha", Ok(EMPTY_MODULE.to_vec())), Ok(()));
    assert!(manager.is_loaded("alpha"));
    assert!(manager.instance("alpha").is_ok());
    assert!(!manager.is_loaded("beta"));
}

#[test]
fn load_of_unknown_dap_is_not_found() {
    let mut manager = alpha_beta();
    assert_eq!(manager.load("gamma", Ok(EMPTY_MODULE.to_vec())), Err(not_found("gamma")));
    assert_eq!(names(&manager), vec!["alpha", "beta", "dapla"]);
}

#[test]
fn load_of_disabled_dap_is_refused() {
    let mut manager = alpha_beta();
    assert_eq!(
        manager.load("beta", Ok(EMPTY_MODULE.to_vec())),
        Err(ServerError::Module(ModuleError::Disabled))
    );
    assert!(!manager.is_loaded("beta"));
    assert_eq!(
        manager.load("dapla", Ok(EMPTY_MODULE.to_vec())),
        Err(ServerError::Module(ModuleError::Disabled))
    );
    assert!(!manager.is_loaded("dapla"));
}

#[test]
fn load_with_unreadable_module_leaves_dap_unloaded() {
    let mut manager = alpha_beta();
    assert_eq!(
        manager.load("alpha", Err("no such file".to_string())),
        Err(ServerError::Module(ModuleError::Unreadable("no such file".to_string())))
    );
    assert!(!manager.is_loaded("alpha"));
    assert!(manager.dap("alpha").unwrap().enabled());
}

#[test]
fn load_with_rejected_module_leaves_dap_unloaded() {
    let mut manager = alpha_beta();
    let outcome = manager.load("alpha", Ok(vec![1, 2, 3, 4]));
    assert!(matches!(outcome, Err(ServerError::Module(ModuleError::Compile(_)))));
    assert!(!manager.is_loaded("alpha"));
}

#[test]
fn failed_reload_drops_the_running_module() {
    let mut manager = alpha_beta();
    assert_eq!(manager.load("alpha", Ok(EMPTY_MODULE.to_vec())), Ok(()));
    assert!(manager.load("alpha", Err("gone".to_string())).is_err());
    assert!(!manager.is_loaded("alpha"));
    assert_eq!(
        manager.instance("alpha").err(),
        Some(ServerError::Module(ModuleError::NotLoaded))
    );
}

#[test]
fn install_takes_the_outcome_of_the_engine() {
    let mut manager = alpha_beta();
    let running = dapla::module::instantiate(&EMPTY_MODULE);
    assert_eq!(manager.install("alpha", running), Ok(()));
    assert!(manager.is_loaded("alpha"));
    assert_eq!(
        manager.install("alpha", Err(ModuleError::Instantiate("trap".to_string()))),
        Err(ServerError::Module(ModuleError::Instantiate("trap".to_string())))
    );
    assert!(!manager.is_loaded("alpha"));
    let running = dapla::module::instantiate(&EMPTY_MODULE);
    assert_eq!(manager.install("beta", running), Err(ServerError::Module(ModuleError::Disabled)));
    assert!(!manager.is_loaded("beta"));
    let running = dapla::module::instantiate(&EMPTY_MODULE);
    assert_eq!(manager.install("gamma", running), Err(not_found("gamma")));
}

#[test]
fn unload_is_idempotent() {
    let mut manager = alpha_beta();
    assert_eq!(manager.load("alpha", Ok(EMPTY_MODULE.to_vec())), Ok(()));
    assert!(manager.unload("alpha"));
    assert!(!manager.is_loaded("alpha"));
    assert!(!manager.unload("alpha"));
    assert!(!manager.is_loaded("alpha"));
    assert!(!manager.unload("gamma"));
    assert!(manager.dap("alpha").unwrap().enabled());
    assert_eq!(names(&manager), vec!["alpha", "beta", "dapla"]);
}

#[test]
fn plan_update_names_what_to_write_and_read() {
    let manager = alpha_beta();
    let plan = manager.plan_update("beta", &enable()).unwrap();
    let write = plan.write.unwrap();
    assert_eq!(write.path, "/srv/daps/beta/settings.toml");
    assert!(DapSettings::from_document(&write.document).unwrap().application.enabled);
    assert_eq!(plan.module_file, Some("/srv/daps/beta/beta_server.wasm".to_string()));

    let plan = manager.plan_update("alpha", &disable()).unwrap();
    let write = plan.write.unwrap();
    assert_eq!(write.path, "/srv/daps/alpha/settings.toml");
    assert!(!DapSettings::from_document(&write.document).unwrap().application.enabled);
    assert_eq!(plan.module_file, None);
}

#[test]
fn plan_update_without_change_asks_for_nothing() {
    let manager = alpha_beta();
    let nothing = UpdatePlan { write: None, module_file: None };
    assert_eq!(manager.plan_update("alpha", &enable()), Ok(UpdatePlan { write: None, module_file: None }));
    assert_eq!(manager.plan_update("beta", &disable()), Ok(UpdatePlan { write: None, module_file: None }));
    assert_eq!(manager.plan_update("beta", &DapUpdateQuery { enabled: None }), Ok(nothing));
}

#[test]
fn plan_update_hides_main_and_unknown_daps() {
    let manager = alpha_beta();
    assert_eq!(manager.plan_update("dapla", &enable()), Err(not_found("dapla")));
    assert_eq!(manager.plan_update("gamma", &enable()), Err(not_found("gamma")));
}

#[test]
fn update_enables_and_loads() {
    let mut manager = alpha_beta();
    assert_eq!(manager.update("beta", enable(), Ok(()), Ok(EMPTY_MODULE.to_vec())), Ok(enable()));
    assert!(manager.dap("beta").unwrap().enabled());
    assert!(manager.is_loaded("beta"));
}

#[test]
fn update_disables_and_unloads() {
    let mut manager = alpha_beta();
    assert_eq!(manager.load("alpha", Ok(EMPTY_MODULE.to_vec())), Ok(()));
    assert_eq!(manager.update("alpha", disable(), Ok(()), Err("not read".to_string())), Ok(disable()));
    assert!(!manager.dap("alpha").unwrap().enabled());
    assert!(!manager.is_loaded("alpha"));
}

#[test]
fn update_twice_is_idempotent() {
    let mut manager = alpha_beta();
    assert_eq!(manager.update("beta", enable(), Ok(()), Ok(EMPTY_MODULE.to_vec())), Ok(enable()));
    assert_eq!(manager.plan_update("beta", &enable()), Ok(UpdatePlan { write: None, module_file: None }));
    assert_eq!(
        manager.update("beta", enable(), Err(DapSettingsError::Io("unused".to_string())), Err("unused".to_string())),
        Ok(DapUpdateQuery { enabled: None })
    );
    assert!(manager.dap("beta").unwrap().enabled());
    assert!(manager.is_loaded("beta"));
}

#[test]
fn update_with_failed_write_changes_nothing() {
    let mut manager = alpha_beta();
    assert_eq!(manager.load("alpha", Ok(EMPTY_MODULE.to_vec())), Ok(()));
    let failed = DapSettingsError::Io("disk full".to_string());
    assert_eq!(
        manager.update("alpha", disable(), Err(DapSettingsError::Io("disk full".to_string())), Err("not read".to_string())),
        Err(ServerError::Settings(failed))
    );
    assert!(manager.dap("alpha").unwrap().enabled());
    assert!(manager.is_loaded("alpha"));
    assert_eq!(
        manager.update("beta", enable(), Err(DapSettingsError::Io("disk full".to_string())), Ok(EMPTY_MODULE.to_vec())),
        Err(ServerError::Settings(DapSettingsError::Io("disk full".to_string())))
    );
    assert!(!manager.dap("beta").unwrap().enabled());
    assert!(!manager.is_loaded("beta"));
}

#[test]
fn update_that_cannot_load_leaves_dap_enabled_and_unloaded() {
    let mut manager = alpha_beta();
    assert_eq!(
        manager.update("beta", enable(), Ok(()), Err("no such file".to_string())),
        Err(ServerError::Module(ModuleError::Unreadable("no such file".to_string())))
    );
    assert!(manager.dap("beta").unwrap().enabled());
    assert!(!manager.is_loaded("beta"));
}

#[test]
fn update_hides_main_and_unknown_daps() {
    let mut manager = alpha_beta();
    assert_eq!(
        manager.update("dapla", enable(), Ok(()), Ok(EMPTY_MODULE.to_vec())),
        Err(not_found("dapla"))
    );
    assert!(!manager.dap("dapla").unwrap().enabled());
    assert!(!manager.is_loaded("dapla"));
    assert_eq!(
        manager.update("gamma", enable(), Ok(()), Ok(EMPTY_MODULE.to_vec())),
        Err(not_found("gamma"))
    );
    assert_eq!(names(&manager), vec!["alpha", "beta", "dapla"]);
}

#[test]
fn disable_drops_instance_and_enable_instantiates_anew() {
    let mut manager = alpha_beta();
    assert_eq!(manager.load("alpha", Ok(EMPTY_MODULE.to_vec())), Ok(()));
    let first = manager.instance("alpha").unwrap().store().id();
    assert_eq!(manager.update("alpha", disable(), Ok(()), Err("not read".to_string())), Ok(disable()));
    assert!(!manager.is_loaded("alpha"));
    assert_eq!(
        manager.plan_update("alpha", &enable()).unwrap().module_file,
        Some("/srv/daps/alpha/alpha_server.wasm".to_string())
    );
    assert_eq!(manager.update("alpha", enable(), Ok(()), Ok(EMPTY_MODULE.to_vec())), Ok(enable()));
    assert!(manager.is_loaded("alpha"));
    let second = manager.instance("alpha").unwrap().store().id();
    assert!(first != second);
}

#[test]
fn updates_to_different_daps_do_not_disturb_each_other() {
    let mut one_way = alpha_beta();
    assert_eq!(one_way.update("alpha", disable(), Ok(()), Err("not read".to_string())), Ok(disable()));
    assert_eq!(one_way.update("beta", enable(), Ok(()), Ok(EMPTY_MODULE.to_vec())), Ok(enable()));
    let mut other_way = alpha_beta();
    assert_eq!(other_way.update("beta", enable(), Ok(()), Ok(EMPTY_MODULE.to_vec())), Ok(enable()));
    assert_eq!(other_way.update("alpha", disable(), Ok(()), Err("not read".to_string())), Ok(disable()));
    for manager in [&one_way, &other_way] {
        assert!(!manager.dap("alpha").unwrap().enabled());
        assert!(!manager.is_loaded("alpha"));
        assert!(manager.dap("beta").unwrap().enabled());
        assert!(manager.is_loaded("beta"));
    }
    assert_eq!(one_way.dap("alpha").unwrap(), other_way.dap("alpha").unwrap());
    assert_eq!(one_way.dap("beta").unwrap(), other_way.dap("beta").unwrap());
}

#[test]
fn daps_iter_gives_every_dap_once() {
    let manager = alpha_beta();
    let daps = manager.daps_iter();
    assert_eq!(daps.len(), 3);
    assert_eq!(names(&manager), vec!["alpha", "beta", "dapla"]);
    for dap in daps {
        assert_eq!(manager.dap(dap.name()).unwrap(), dap);
    }
}

#[test]
fn lifecycle_follows_the_transitions() {
    let mut manager = alpha_beta();
    assert_eq!(manager.lifecycle("alpha"), Ok(Lifecycle::Unloaded));
    assert_eq!(manager.lifecycle("beta"), Ok(Lifecycle::Disabled));
    assert_eq!(manager.lifecycle("dapla"), Ok(Lifecycle::Disabled));
    assert_eq!(manager.lifecycle("gamma"), Err(not_found("gamma")));
    assert_eq!(manager.load("alpha", Ok(EMPTY_MODULE.to_vec())), Ok(()));
    assert_eq!(manager.lifecycle("alpha"), Ok(Lifecycle::Loaded));
    assert!(manager.unload("alpha"));
    assert_eq!(manager.lifecycle("alpha"), Ok(Lifecycle::Unloaded));
    assert_eq!(manager.update("alpha", disable(), Ok(()), Err("not read".to_string())), Ok(disable()));
    assert_eq!(manager.lifecycle("alpha"), Ok(Lifecycle::Disabled));
    assert_eq!(manager.update("beta", enable(), Ok(()), Err("no file".to_string())).is_err(), true);
    assert_eq!(manager.lifecycle("beta"), Ok(Lifecycle::Unloaded));
    assert_eq!(manager.load("beta", Ok(EMPTY_MODULE.to_vec())), Ok(()));
    assert_eq!(manager.lifecycle("beta"), Ok(Lifecycle::Loaded));
}

use dapla::access::{Permission, PermissionSet};
use dapla::daps::{Dap, DapUpdateQuery, HttpConfig};
use dapla::module::ModuleError;
use dapla::settings::{
    ApplicationDocument, ApplicationSettings, DapSettings, DapSettingsError, PermissionsDocument,
    PermissionsSettings, SettingsDocument, SettingsFile,
};

fn document(enabled: bool) -> SettingsDocument {
    SettingsDocument {
        application: Some(ApplicationDocument {
            title: Some("Chat".to_string()),
            enabled: Some(enabled),
        }),
        permissions: Some(PermissionsDocument {
            required: Some(vec!["http".to_string()]),
            allowed: Some(vec!["http".to_string(), "tcp".to_string()]),
        }),
    }
}

fn chat_settings(enabled: bool) -> DapSettings {
    DapSettings {
        application: ApplicationSettings { title: "Chat".to_string(), enabled },
        permissions: PermissionsSettings {
            required: PermissionSet::from_slice(&[Permission::Http]),
            allowed: PermissionSet::from_slice(&[Permission::Http, Permission::Tcp]),
        },
    }
}

fn chat(enabled: bool) -> Dap {
    Dap::new("chat", "/srv/daps/chat", &SettingsFile::Document(document(enabled))).unwrap()
}

#[test]
fn new_reads_the_settings_document() {
    let dap = chat(true);
    assert_eq!(dap.name(), "chat");
    assert_eq!(dap.root_dir(), "/srv/daps/chat");
    assert_eq!(dap.title(), "Chat");
    assert!(dap.enabled());
    assert_eq!(dap.settings(), &chat_settings(true));
    assert_eq!(dap, Dap::with_settings("chat", "/srv/daps/chat", chat_settings(true)));
}

#[test]
fn new_without_settings_file_uses_defaults() {
    let dap = Dap::new("notes", "/srv/daps/notes", &SettingsFile::Missing).unwrap();
    assert_eq!(dap.settings(), &DapSettings::default());
    assert!(!dap.enabled());
}

#[test]
fn new_with_malformed_settings_is_an_error() {
    assert_eq!(
        Dap::new("notes", "/srv/daps/notes", &SettingsFile::Malformed("bad toml".to_string())),
        Err(DapSettingsError::Parse("bad toml".to_string()))
    );
    assert_eq!(
        Dap::new("notes", "/srv/daps/notes", &SettingsFile::Unreadable("denied".to_string())),
        Err(DapSettingsError::Io("denied".to_string()))
    );
    let mut bad = document(true);
    bad.permissions = Some(PermissionsDocument {
        required: Some(vec!["fly".to_string()]),
        allowed: None,
    });
    assert_eq!(
        Dap::new("notes", "/srv/daps/notes", &SettingsFile::Document(bad)),
        Err(DapSettingsError::Parse("unknown permission: fly".to_string()))
    );
}

#[test]
fn new_main_dap_does_not_look_at_settings() {
    let from_document =
        Dap::new("dapla", "/srv/daps/dapla", &SettingsFile::Document(document(true))).unwrap();
    assert!(from_document.is_main());
    assert_eq!(from_document.settings(), &DapSettings::default());
    let from_malformed =
        Dap::new("dapla", "/srv/daps/dapla", &SettingsFile::Malformed("bad".to_string())).unwrap();
    assert_eq!(from_malformed, from_document);
}

#[test]
fn fixed_names_of_the_host() {
    assert_eq!(Dap::settings_file_name(), "settings.toml");
    assert_eq!(Dap::static_dir_name(), "static");
    assert_eq!(Dap::index_file_name(), "index.html");
    assert_eq!(Dap::main_name(), "dapla");
    assert_eq!(Dap::main_static_uri(), "/static");
    assert_eq!(Dap::main_uri("daps"), "/dapla/daps");
}

#[test]
fn derived_paths_and_addresses() {
    let dap = chat(false);
    assert_eq!(dap.root_uri(), "/chat");
    assert_eq!(dap.static_uri(), "/chat/static");
    assert_eq!(dap.settings_file(), "/srv/daps/chat/settings.toml");
    assert_eq!(dap.static_dir(), "/srv/daps/chat/static");
    assert_eq!(dap.index_file(), "/srv/daps/chat/static/index.html");
    assert_eq!(dap.server_module_file(), "/srv/daps/chat/chat_server.wasm");
}

#[test]
fn reload_settings_replaces_settings() {
    let mut dap = chat(false);
    assert_eq!(dap.reload_settings(&SettingsFile::Document(document(true))), Ok(()));
    assert!(dap.enabled());
    let empty = SettingsDocument { application: None, permissions: None };
    assert_eq!(dap.reload_settings(&SettingsFile::Document(empty)), Ok(()));
    assert_eq!(dap.settings(), &DapSettings::default());
    assert_eq!(dap.name(), "chat");
    assert_eq!(dap.root_dir(), "/srv/daps/chat");
}

#[test]
fn reload_settings_failure_keeps_settings() {
    let mut dap = chat(true);
    assert_eq!(dap.reload_settings(&SettingsFile::Missing), Err(DapSettingsError::NotFound));
    assert_eq!(dap, chat(true));
    assert_eq!(
        dap.reload_settings(&SettingsFile::Malformed("bad".to_string())),
        Err(DapSettingsError::Parse("bad".to_string()))
    );
    assert_eq!(dap, chat(true));
    assert_eq!(
        dap.reload_settings(&SettingsFile::Unreadable("denied".to_string())),
        Err(DapSettingsError::Io("denied".to_string()))
    );
    assert_eq!(dap, chat(true));
}

#[test]
fn save_settings_asks_to_write_the_settings_file() {
    let dap = chat(true);
    let write = dap.save_settings();
    assert_eq!(write.path, "/srv/daps/chat/settings.toml");
    assert_eq!(write.document, chat_settings(true).to_document());
    assert_eq!(DapSettings::from_document(&write.document), Ok(chat_settings(true)));
}

#[test]
fn set_enabled_is_in_memory_only() {
    let mut dap = chat(false);
    dap.set_enabled(true);
    assert_eq!(dap, chat(true));
}

#[test]
fn http_configure_of_a_dap() {
    let config = chat(true).http_configure();
    assert_eq!(
        config,
        HttpConfig {
            name: "chat".to_string(),
            root_uri: "/chat".to_string(),
            static_uri: "/chat/static".to_string(),
            static_dir: "/srv/daps/chat/static".to_string(),
            index_file_name: "index.html".to_string(),
            catch_all: Some("/*".to_string()),
        }
    );
}

#[test]
fn http_configure_of_the_main_dap_has_no_catch_all() {
    let main = Dap::new("dapla", "/srv/daps/dapla", &SettingsFile::Missing).unwrap();
    let config = main.http_configure();
    assert_eq!(config.name, "dapla");
    assert_eq!(config.root_uri, "/dapla");
    assert_eq!(config.static_uri, "/dapla/static");
    assert_eq!(config.static_dir, "/srv/daps/dapla/static");
    assert_eq!(config.index_file_name, "index.html");
    assert_eq!(config.catch_all, None);
}

#[test]
fn pending_write_holds_the_changed_settings() {
    let dap = chat(false);
    let write = dap.pending_write(&DapUpdateQuery { enabled: Some(true) }).unwrap();
    assert_eq!(write.path, "/srv/daps/chat/settings.toml");
    assert_eq!(DapSettings::from_document(&write.document), Ok(chat_settings(true)));
    assert_eq!(dap, chat(false));
}

#[test]
fn pending_write_is_none_without_a_change() {
    assert_eq!(chat(false).pending_write(&DapUpdateQuery { enabled: Some(false) }), None);
    assert_eq!(chat(true).pending_write(&DapUpdateQuery { enabled: Some(true) }), None);
    assert_eq!(chat(true).pending_write(&DapUpdateQuery { enabled: None }), None);
}

#[test]
fn update_flips_the_flag_when_saved() {
    let mut dap = chat(false);
    assert_eq!(dap.update(DapUpdateQuery { enabled: Some(true) }, Ok(())), Ok(true));
    assert_eq!(dap, chat(true));
    assert_eq!(dap.update(DapUpdateQuery { enabled: Some(false) }, Ok(())), Ok(true));
    assert_eq!(dap, chat(false));
}

#[test]
fn update_without_change_reports_no_change() {
    let mut dap = chat(true);
    assert_eq!(dap.update(DapUpdateQuery { enabled: Some(true) }, Ok(())), Ok(false));
    assert_eq!(dap, chat(true));
    assert_eq!(dap.update(DapUpdateQuery { enabled: None }, Ok(())), Ok(false));
    assert_eq!(dap, chat(true));
    let failed = Err(DapSettingsError::Io("disk full".to_string()));
    assert_eq!(dap.update(DapUpdateQuery { enabled: Some(true) }, failed), Ok(false));
    assert_eq!(dap, chat(true));
}

#[test]
fn update_rolls_back_when_the_write_failed() {
    let mut dap = chat(false);
    let failed = Err(DapSettingsError::Io("disk full".to_string()));
    assert_eq!(
        dap.update(DapUpdateQuery { enabled: Some(true) }, failed),
        Err(DapSettingsError::Io("disk full".to_string()))
    );
    assert_eq!(dap, chat(false));
}

#[test]
fn update_twice_changes_once() {
    let mut dap = chat(false);
    let query = DapUpdateQuery { enabled: Some(true) };
    assert!(dap.pending_write(&query).is_some());
    assert_eq!(dap.update(query, Ok(())), Ok(true));
    assert_eq!(dap.pending_write(&query), None);
    assert_eq!(dap.update(query, Ok(())), Ok(false));
    assert_eq!(dap, chat(true));
}

#[test]
fn instantiate_refuses_a_disabled_dap() {
    let dap = chat(false);
    let wasm = vec![0x00, 0x61, 0x73, 0x6d, 0x01, 0x00, 0x00, 0x00];
    assert_eq!(dap.instantiate(Ok(wasm)).err(), Some(ModuleError::Disabled));
    assert_eq!(dap.instantiate(Err("no file".to_string())).err(), Some(ModuleError::Disabled));
}

#[test]
fn instantiate_reports_unreadable_bytes() {
    let dap = chat(true);
    assert_eq!(
        dap.instantiate(Err("no such file".to_string())).err(),
        Some(ModuleError::Unreadable("no such file".to_string()))
    );
}

#[test]
fn instantiate_runs_a_module_of_an_enabled_dap() {
    let dap = chat(true);
    let wasm = vec![0x00, 0x61, 0x73, 0x6d, 0x01, 0x00, 0x00, 0x00];
    assert!(dap.instantiate(Ok(wasm)).is_ok());
}

#[test]
fn instantiate_reports_what_the_engine_rejects() {
    let dap = chat(true);
    let outcome = dap.instantiate(Ok(vec![0x00, 0x61, 0x73, 0x6d, 0xff, 0xff, 0xff, 0xff]));
    assert!(matches!(outcome.err(), Some(ModuleError::Compile(_))));
}

//! Settings precedence, partial updates, stock values and the small
//! launch-side decisions.
use launchcore::accounts::{select_account, Account, AccountsData};
use launchcore::config::AppConfig;
use launchcore::launch::{
    behavior_directive, required_java_version, valid_version_name, WindowDirective,
};
use launchcore::settings::{
    apply_settings_update, default_instances_layout, default_launcher_behavior, effective_behavior,
    effective_memory, effective_window, resolve_java_path, LauncherSettings, SettingsUpdate,
    VersionSettings,
};

fn base_settings() -> LauncherSettings {
    let mut s = LauncherSettings::default();
    s.java_path = Some("/usr/bin/java".to_string());
    s
}

fn overrides(vid: &str, vs: VersionSettings) -> Vec<(String, VersionSettings)> {
    vec![(vid.to_string(), vs)]
}

#[test]
fn stock_settings_have_the_documented_values() {
    let s = LauncherSettings::default();
    assert_eq!(s.memory.min, 512);
    assert_eq!(s.memory.max, 2048);
    assert_eq!(s.window_size.width, 854);
    assert_eq!(s.window_size.height, 480);
    assert_eq!(s.launcher_behavior, "keep-front");
    assert_eq!(s.instances_layout, "auto");
    assert_eq!(default_launcher_behavior(), "keep-front");
    assert_eq!(default_instances_layout(), "auto");
}

#[test]
fn version_overrides_beat_global_settings() {
    let mut s = base_settings();
    let mut vs = VersionSettings::default();
    vs.java_path = Some("/opt/java17/bin/java".to_string());
    vs.memory_max = Some(4096);
    vs.window_width = Some(1920);
    vs.launcher_behavior = Some("auto-hide".to_string());
    s.version_settings = overrides("1.20.1", vs);
    assert_eq!(
        resolve_java_path(&s, &"1.20.1".to_string()).as_deref(),
        Some("/opt/java17/bin/java")
    );
    assert_eq!(effective_memory(&s, &"1.20.1".to_string()), (512, 4096));
    let w = effective_window(&s, &"1.20.1".to_string());
    assert_eq!((w.width, w.height), (1920, 480));
    assert_eq!(effective_behavior(&s, &"1.20.1".to_string()), "auto-hide");
    // other versions still see the globals
    assert_eq!(resolve_java_path(&s, &"other".to_string()).as_deref(), Some("/usr/bin/java"));
    assert_eq!(effective_memory(&s, &"other".to_string()), (512, 2048));
    assert_eq!(effective_behavior(&s, &"other".to_string()), "keep-front");
}

#[test]
fn an_empty_java_path_counts_as_unset() {
    let mut s = LauncherSettings::default();
    s.java_path = Some(String::new());
    assert_eq!(resolve_java_path(&s, &"v".to_string()), None);
}

#[test]
fn partial_updates_keep_absent_fields() {
    let mut s = base_settings();
    s.minecraft_dir = Some("/mc".to_string());
    let update = SettingsUpdate {
        minecraft_dir: None,
        minecraft_dirs: None,
        java_path: None,
        memory_min: Some(1024),
        memory_max: Some(8192),
        window_width: None,
        window_height: None,
        version_settings: None,
        launcher_behavior: Some("auto-exit".to_string()),
        instances_layout: None,
    };
    apply_settings_update(&mut s, update);
    assert_eq!(s.minecraft_dir.as_deref(), Some("/mc"));
    assert_eq!(s.java_path.as_deref(), Some("/usr/bin/java"));
    assert_eq!(s.memory.min, 1024);
    assert_eq!(s.memory.max, 8192);
    assert_eq!(s.window_size.width, 854);
    assert_eq!(s.launcher_behavior, "auto-exit");
    assert_eq!(s.instances_layout, "auto");
}

#[test]
fn stock_app_config_matches_its_contract() {
    let c = AppConfig::default();
    assert_eq!(c.app.name, "ImagineLauncher");
    assert_eq!(c.app.version, "0.0.1");
    assert_eq!(c.window.width, 1000);
    assert_eq!(c.window.height, 600);
    assert_eq!(c.ui.titlebar_height, 48);
    assert_eq!(c.theme.preset.as_deref(), Some("pink"));
    assert_eq!(c.theme.gradient_colors.unwrap().len(), 3);
}

#[test]
fn accounts_select_by_id_then_by_current() {
    let steve = Account {
        id: "s".to_string(),
        account_type: "offline".to_string(),
        username: "Steve".to_string(),
        uuid: "u1".to_string(),
        access_token: None,
        refresh_token: None,
        skin: None,
        created_at: None,
    };
    let alex = Account {
        id: "a".to_string(),
        account_type: "microsoft".to_string(),
        username: "Alex".to_string(),
        uuid: "u2".to_string(),
        access_token: Some("t".to_string()),
        refresh_token: None,
        skin: None,
        created_at: None,
    };
    let data = AccountsData { accounts: vec![steve, alex], current_account: Some("a".to_string()) };
    assert_eq!(select_account(&data, &Some("s".to_string())).unwrap().username, "Steve");
    assert_eq!(select_account(&data, &None).unwrap().username, "Alex");
    assert!(select_account(&data, &Some("missing".to_string())).is_none());
    let empty = AccountsData { accounts: vec![], current_account: None };
    assert!(select_account(&empty, &None).is_none());
}

#[test]
fn version_names_reject_path_separators() {
    assert!(valid_version_name(&"1.20.1-fabric".to_string()));
    assert!(!valid_version_name(&String::new()));
    assert!(!valid_version_name(&"a/b".to_string()));
    assert!(!valid_version_name(&"a\\b".to_string()));
    assert!(!valid_version_name(&"a:b".to_string()));
}

#[test]
fn required_java_is_read_or_inferred() {
    assert_eq!(required_java_version(Some(17), &"whatever".to_string()), 17);
    assert_eq!(required_java_version(None, &"1.20.4".to_string()), 21);
    assert_eq!(required_java_version(None, &"1.21".to_string()), 21);
    assert_eq!(required_java_version(None, &"1.19.2".to_string()), 17);
    assert_eq!(required_java_version(None, &"1.17.1".to_string()), 16);
    assert_eq!(required_java_version(None, &"1.12.2".to_string()), 8);
}

#[test]
fn behaviors_decode_to_window_directives() {
    assert_eq!(behavior_directive(&"auto-hide".to_string()), WindowDirective::Hide);
    assert_eq!(
        behavior_directive(&"hide-when-game-front".to_string()),
        WindowDirective::HideUntilExit
    );
    assert_eq!(behavior_directive(&"auto-exit".to_string()), WindowDirective::Exit);
    assert_eq!(behavior_directive(&"keep-front".to_string()), WindowDirective::Keep);
    assert_eq!(behavior_directive(&"anything-else".to_string()), WindowDirective::Keep);
}

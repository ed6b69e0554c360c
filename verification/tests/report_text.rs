//! Rendered report text, digest checking, and the planned launch command
//! end to end.
use launchcore::accounts::{Account, AccountsData};
use launchcore::digest::verify_sha1;
use launchcore::launch::{plan_launch, LaunchError};
use launchcore::model::{FileSet, LibraryEntry, VersionDescriptor};
use launchcore::platform::Os;
use launchcore::report::{crash_report_text, mods_list_text, system_info_text};
use launchcore::settings::LauncherSettings;

fn vd(id: &str) -> VersionDescriptor {
    VersionDescriptor {
        id: id.to_string(),
        version_type: None,
        main_class: None,
        inherits_from: None,
        assets: None,
        asset_index: None,
        libraries: vec![],
        arguments: None,
        minecraft_arguments: None,
        downloads: None,
        java_major: None,
    }
}

fn steve_data() -> AccountsData {
    AccountsData {
        accounts: vec![Account {
            id: "s".to_string(),
            account_type: "offline".to_string(),
            username: "Steve".to_string(),
            uuid: "aaaaaaaa-bbbb-cccc-dddd-eeeeeeeeeeee".to_string(),
            access_token: None,
            refresh_token: None,
            skin: None,
            created_at: None,
        }],
        current_account: Some("s".to_string()),
    }
}

#[test]
fn sha1_digests_verify_case_insensitively() {
    let data = vec![0x61u8, 0x62, 0x63];  // "abc"
    assert!(verify_sha1(&data, "a9993e364706816aba3e25717850c26c9cd0d89d"));
    assert!(verify_sha1(&data, "A9993E364706816ABA3E25717850C26C9CD0D89D"));
    assert!(!verify_sha1(&data, "0000000000000000000000000000000000000000"));
    assert!(!verify_sha1(&vec![], "a9993e364706816aba3e25717850c26c9cd0d89d"));
}

#[test]
fn system_summary_renders_exactly() {
    let text = system_info_text(
        &"Linux".to_string(),
        &"6.1".to_string(),
        &"6.1.0-generic".to_string(),
        8,
        16000,
        9000,
    );
    assert_eq!(
        text,
        "operating system: Linux 6.1\nkernel version: 6.1.0-generic\ncpu cores: 8\ntotal memory: 16000 MB\nused memory: 9000 MB\navailable memory: 7000 MB"
    );
}

#[test]
fn mods_listing_counts_and_lists() {
    let text = mods_list_text(&vec!["a.jar".to_string(), "b.jar".to_string()]);
    assert_eq!(text, "installed mods (2):\n\na.jar\nb.jar");
}

#[test]
fn crash_report_carries_every_section() {
    let text = crash_report_text(
        &"2026-01-01 00:00:00".to_string(),
        &"1.20.1".to_string(),
        1,
        &"out_of_memory".to_string(),
        &"the game ran out of memory".to_string(),
        &vec!["give the game more memory, 4 gb or more".to_string()],
        &"/mc".to_string(),
        &"/usr/bin/java".to_string(),
        512,
        2048,
        &"operating system: Linux".to_string(),
    );
    assert!(text.contains("exported at: 2026-01-01 00:00:00"));
    assert!(text.contains("game version: 1.20.1"));
    assert!(text.contains("exit code: 1"));
    assert!(text.contains("reason: out_of_memory"));
    assert!(text.contains("  - give the game more memory, 4 gb or more"));
    assert!(text.contains("memory: 512 MB - 2048 MB"));
    assert!(text.contains("java path: /usr/bin/java"));
}

#[test]
fn planned_launch_composes_the_full_command() {
    let mut leaf = vd("1.20.1");
    leaf.main_class = Some("net.minecraft.client.main.Main".to_string());
    leaf.libraries = vec![LibraryEntry {
        name: Some("a:x:1".to_string()),
        downloads: None,
        rules: None,
        natives: None,
    }];
    let table: Vec<VersionDescriptor> = vec![];
    let mut settings = LauncherSettings::default();
    settings.java_path = Some("/usr/bin/java".to_string());
    let files = FileSet::new(vec![
        "/mc/libraries/a/x/1/x-1.jar".to_string(),
        "/mc/versions/1.20.1/1.20.1.jar".to_string(),
    ]);
    let cmd = plan_launch(
        &table,
        &leaf,
        &"1.20.1".to_string(),
        &settings,
        &steve_data(),
        &None,
        &"/mc".to_string(),
        Os::Linux,
        true,
        &files,
    )
    .unwrap();
    assert_eq!(cmd.program, "/usr/bin/java");
    assert_eq!(cmd.main_class, "net.minecraft.client.main.Main");
    assert_eq!(cmd.working_dir, "/mc");
    assert_eq!(cmd.natives_dir, "/mc/versions/1.20.1/natives");
    assert_eq!(cmd.jvm_args[0], "-Xms512M");
    assert_eq!(
        cmd.jvm_args[cmd.jvm_args.len() - 1],
        "/mc/libraries/a/x/1/x-1.jar:/mc/versions/1.20.1/1.20.1.jar"
    );
    assert!(cmd.game_args.contains(&"--width".to_string()));
    assert!(cmd.native_archives.is_empty());
}

#[test]
fn planning_reports_each_configuration_error() {
    let leaf = vd("v");
    let table: Vec<VersionDescriptor> = vec![];
    let files = FileSet::new(vec![]);
    let no_accounts = AccountsData { accounts: vec![], current_account: None };
    let mut settings = LauncherSettings::default();
    settings.java_path = Some("/usr/bin/java".to_string());
    // no account comes first
    let r = plan_launch(
        &table, &leaf, &"v".to_string(), &settings, &no_accounts, &None,
        &"/mc".to_string(), Os::Linux, true, &files,
    );
    assert!(matches!(r, Err(LaunchError::NoAccount)));
    // then the missing java path
    let unset = LauncherSettings::default();
    let r = plan_launch(
        &table, &leaf, &"v".to_string(), &unset, &steve_data(), &None,
        &"/mc".to_string(), Os::Linux, true, &files,
    );
    assert!(matches!(r, Err(LaunchError::NoJavaPath)));
    // then the cyclic chain
    let mut cyclic = vd("a");
    cyclic.inherits_from = Some("a".to_string());
    let cyc_table = vec![{
        let mut t = vd("a");
        t.inherits_from = Some("a".to_string());
        t
    }];
    let r = plan_launch(
        &cyc_table, &cyclic, &"a".to_string(), &settings, &steve_data(), &None,
        &"/mc".to_string(), Os::Linux, true, &files,
    );
    assert!(matches!(r, Err(LaunchError::CyclicInheritance)));
    // and last the missing main class
    let r = plan_launch(
        &table, &leaf, &"v".to_string(), &settings, &steve_data(), &None,
        &"/mc".to_string(), Os::Linux, true, &files,
    );
    assert!(matches!(r, Err(LaunchError::MissingMainClass)));
}

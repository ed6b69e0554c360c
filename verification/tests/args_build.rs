//! Argument synthesis: substitution, schema selection, account variables,
//! the resolution fallback and the JVM argument pipeline.
use launchcore::accounts::Account;
use launchcore::args::{
    build_game_args, build_jvm_args, is_valid_jvm_arg, jvm_variables, replace_variables,
};
use launchcore::model::{ArgEntry, ArgValue, ArgumentSet, Rule, VersionDescriptor};
use launchcore::platform::Os;
use launchcore::settings::WindowSize;

fn vd(id: &str) -> VersionDescriptor {
    VersionDescriptor {
        id: id.to_string(),
        version_type: None,
        main_class: None,
        inherits_from: None,
        assets: None,
        asset_index: None,
        libraries: vec![],
        arguments: None,
        minecraft_arguments: None,
        downloads: None,
        java_major: None,
    }
}

fn steve() -> Account {
    Account {
        id: "1".to_string(),
        account_type: "offline".to_string(),
        username: "Steve".to_string(),
        uuid: "aaaaaaaa-bbbb-cccc-dddd-eeeeeeeeeeee".to_string(),
        access_token: None,
        refresh_token: None,
        skin: None,
        created_at: None,
    }
}

fn vars(pairs: &[(&str, &str)]) -> Vec<(String, String)> {
    pairs.iter().map(|(k, v)| (k.to_string(), v.to_string())).collect()
}

#[test]
fn substitution_replaces_known_tokens() {
    let v = vars(&[("name", "Steve"), ("dir", "/mc")]);
    let r = replace_variables(&"--user ${name} --dir ${dir}".to_string(), &v);
    assert_eq!(r, "--user Steve --dir /mc");
}

#[test]
fn substitution_keeps_unknown_tokens_verbatim() {
    let v = vars(&[("name", "Steve")]);
    let r = replace_variables(&"${name} ${unknown}".to_string(), &v);
    assert_eq!(r, "Steve ${unknown}");
}

#[test]
fn substitution_is_not_recursive() {
    // a value holding another token is emitted verbatim, never re-expanded
    let v = vars(&[("a", "${b}"), ("b", "evil")]);
    let r = replace_variables(&"${a}".to_string(), &v);
    assert_eq!(r, "${b}");
}

#[test]
fn substitution_handles_braces_without_names() {
    let v = vars(&[("a", "x")]);
    assert_eq!(replace_variables(&"${".to_string(), &v), "${");
    assert_eq!(replace_variables(&"$ {a}".to_string(), &v), "$ {a}");
    assert_eq!(replace_variables(&"${}".to_string(), &v), "${}");
}

#[test]
fn offline_account_variables_follow_the_uuid() {
    let mut m = vd("1.20.1");
    m.arguments = Some(ArgumentSet {
        jvm: Some(vec![]),
        game: Some(vec![
            ArgEntry::Plain("--uuid".to_string()),
            ArgEntry::Plain("${auth_uuid}".to_string()),
            ArgEntry::Plain("--accessToken".to_string()),
            ArgEntry::Plain("${auth_access_token}".to_string()),
            ArgEntry::Plain("--userType".to_string()),
            ArgEntry::Plain("${user_type}".to_string()),
        ]),
    });
    let args = build_game_args(
        &m,
        &"1.20.1".to_string(),
        &steve(),
        &WindowSize { width: 854, height: 480 },
        &"/mc".to_string(),
        Os::Linux,
    );
    let stripped = "aaaaaaaabbbbccccddddeeeeeeeeeeee";
    assert_eq!(args[1], stripped);
    // no token stored: the undashed uuid doubles as the session token
    assert_eq!(args[3], stripped);
    assert_eq!(args[5], "legacy");
}

#[test]
fn online_account_uses_its_token_and_msa() {
    let mut account = steve();
    account.account_type = "microsoft".to_string();
    account.access_token = Some("tok123".to_string());
    let mut m = vd("1.20.1");
    m.arguments = Some(ArgumentSet {
        jvm: Some(vec![]),
        game: Some(vec![
            ArgEntry::Plain("${auth_access_token}".to_string()),
            ArgEntry::Plain("${user_type}".to_string()),
        ]),
    });
    let args = build_game_args(
        &m,
        &"1.20.1".to_string(),
        &account,
        &WindowSize { width: 854, height: 480 },
        &"/mc".to_string(),
        Os::Linux,
    );
    assert_eq!(args[0], "tok123");
    assert_eq!(args[1], "msa");
}

#[test]
fn resolution_pair_is_appended_when_absent() {
    let mut m = vd("1.20.1");
    m.arguments = Some(ArgumentSet {
        jvm: Some(vec![]),
        game: Some(vec![ArgEntry::Plain("--demo".to_string())]),
    });
    let args = build_game_args(
        &m,
        &"1.20.1".to_string(),
        &steve(),
        &WindowSize { width: 1024, height: 768 },
        &"/mc".to_string(),
        Os::Linux,
    );
    assert_eq!(args, vec![
        "--demo".to_string(),
        "--width".to_string(),
        "1024".to_string(),
        "--height".to_string(),
        "768".to_string(),
    ]);
}

#[test]
fn resolution_pair_is_kept_when_the_template_has_one() {
    let mut m = vd("1.20.1");
    m.arguments = Some(ArgumentSet {
        jvm: Some(vec![]),
        game: Some(vec![
            ArgEntry::Plain("--width".to_string()),
            ArgEntry::Plain("${resolution_width}".to_string()),
            ArgEntry::Plain("--height".to_string()),
            ArgEntry::Plain("${resolution_height}".to_string()),
        ]),
    });
    let args = build_game_args(
        &m,
        &"1.20.1".to_string(),
        &steve(),
        &WindowSize { width: 1024, height: 768 },
        &"/mc".to_string(),
        Os::Linux,
    );
    assert_eq!(args, vec![
        "--width".to_string(),
        "1024".to_string(),
        "--height".to_string(),
        "768".to_string(),
    ]);
}

#[test]
fn legacy_schema_splits_the_argument_string() {
    let mut m = vd("1.7.10");
    m.minecraft_arguments = Some("--username ${auth_player_name} --gameDir ${game_directory}".to_string());
    let args = build_game_args(
        &m,
        &"1.7.10".to_string(),
        &steve(),
        &WindowSize { width: 854, height: 480 },
        &"/mc".to_string(),
        Os::Linux,
    );
    assert_eq!(&args[0..4], &[
        "--username".to_string(),
        "Steve".to_string(),
        "--gameDir".to_string(),
        "/mc".to_string(),
    ]);
}

#[test]
fn legacy_schema_ignores_the_modern_game_list() {
    // minecraft_arguments present and no modern jvm list: the legacy
    // branch is taken, and arguments.game is not consulted
    let mut m = vd("1.7.10");
    m.minecraft_arguments = Some("--legacy yes".to_string());
    m.arguments = Some(ArgumentSet {
        jvm: None,
        game: Some(vec![ArgEntry::Plain("--modern".to_string())]),
    });
    let args = build_game_args(
        &m,
        &"1.7.10".to_string(),
        &steve(),
        &WindowSize { width: 854, height: 480 },
        &"/mc".to_string(),
        Os::Linux,
    );
    assert!(args.contains(&"--legacy".to_string()));
    assert!(!args.contains(&"--modern".to_string()));
}

#[test]
fn rule_gated_game_entries_follow_the_platform() {
    let mut m = vd("1.20.1");
    m.arguments = Some(ArgumentSet {
        jvm: Some(vec![]),
        game: Some(vec![ArgEntry::Conditional {
            rules: Some(vec![Rule {
                allow: true,
                os_name: Some("windows".to_string()),
                has_features: false,
            }]),
            value: Some(ArgValue::Many(vec!["--win".to_string(), "only".to_string()])),
        }]),
    });
    let linux_args = build_game_args(
        &m,
        &"1.20.1".to_string(),
        &steve(),
        &WindowSize { width: 854, height: 480 },
        &"/mc".to_string(),
        Os::Linux,
    );
    assert!(!linux_args.contains(&"--win".to_string()));
    let win_args = build_game_args(
        &m,
        &"1.20.1".to_string(),
        &steve(),
        &WindowSize { width: 854, height: 480 },
        &"/mc".to_string(),
        Os::Windows,
    );
    assert!(win_args.contains(&"--win".to_string()));
}

#[test]
fn jvm_filter_rejects_classpath_flags_and_bare_placeholders() {
    assert!(!is_valid_jvm_arg(&"-cp".to_string()));
    assert!(!is_valid_jvm_arg(&"-classpath".to_string()));
    assert!(!is_valid_jvm_arg(&"${classpath}".to_string()));
    assert!(!is_valid_jvm_arg(&"${primary_jar}".to_string()));
    assert!(!is_valid_jvm_arg(&"bare".to_string()));
    assert!(is_valid_jvm_arg(&"-Dsomething=1".to_string()));
    assert!(is_valid_jvm_arg(&"-Xmx2G".to_string()));
}

#[test]
fn jvm_args_start_with_the_heap_and_end_with_the_classpath() {
    let m = vd("1.20.1");
    let natives = "/mc/versions/1.20.1/natives".to_string();
    let cp = "/mc/a.jar:/mc/b.jar".to_string();
    let vars = jvm_variables(
        &natives,
        &cp,
        &"/mc".to_string(),
        &"1.20.1".to_string(),
        &"/mc/versions/1.20.1/1.20.1.jar".to_string(),
        Os::Linux,
    );
    let args = build_jvm_args(&m, 512, 2048, &natives, &cp, &vars, Os::Linux);
    assert_eq!(args[0], "-Xms512M");
    assert_eq!(args[1], "-Xmx2048M");
    assert_eq!(args[args.len() - 2], "-cp");
    assert_eq!(args[args.len() - 1], cp);
    // synthesized defaults appear once the template left them out
    assert!(args.contains(&format!("-Djava.library.path={}", natives)));
    assert!(args.contains(&"-Dminecraft.launcher.brand=ImagineLauncher".to_string()));
    assert!(args.contains(&"-Dminecraft.launcher.version=1.0.0".to_string()));
    // a modern descriptor gets no legacy native-path properties
    assert!(!args.iter().any(|a| a.contains("-Djna.tmpdir")));
}

#[test]
fn legacy_descriptor_gets_native_path_properties() {
    let mut m = vd("1.7.10");
    m.minecraft_arguments = Some("--username x".to_string());
    let natives = "/n".to_string();
    let cp = "cp.jar".to_string();
    let vars = jvm_variables(
        &natives,
        &cp,
        &"/mc".to_string(),
        &"1.7.10".to_string(),
        &"/mc/versions/1.7.10/1.7.10.jar".to_string(),
        Os::Linux,
    );
    let args = build_jvm_args(&m, 512, 1024, &natives, &cp, &vars, Os::Linux);
    assert!(args.contains(&"-Djna.tmpdir=/n".to_string()));
    assert!(args.contains(&"-Dorg.lwjgl.system.SharedLibraryExtractPath=/n".to_string()));
    assert!(args.contains(&"-Dio.netty.native.workdir=/n".to_string()));
}

#[test]
fn template_jvm_entries_are_substituted_and_filtered() {
    let mut m = vd("1.20.1");
    m.arguments = Some(ArgumentSet {
        jvm: Some(vec![
            ArgEntry::Plain("-Djava.library.path=${natives_directory}".to_string()),
            ArgEntry::Plain("${classpath}".to_string()),
            ArgEntry::Plain("-cp".to_string()),
            ArgEntry::Plain("${primary_jar_name}".to_string()),
        ]),
        game: Some(vec![]),
    });
    let natives = "/n".to_string();
    let cp = "cp.jar".to_string();
    let vars = jvm_variables(
        &natives,
        &cp,
        &"/mc".to_string(),
        &"1.20.1".to_string(),
        &"/mc/versions/1.20.1/1.20.1.jar".to_string(),
        Os::Linux,
    );
    let args = build_jvm_args(&m, 512, 1024, &natives, &cp, &vars, Os::Linux);
    // the template's library-path flag survives substitution
    assert!(args.contains(&"-Djava.library.path=/n".to_string()));
    // the classpath flag and the bare jar-name placeholder are dropped
    assert_eq!(args.iter().filter(|a| a.as_str() == "-cp").count(), 1);
    assert!(!args.contains(&"1.20.1.jar".to_string()));
    // the engine appends its own classpath pair at the very end
    assert_eq!(args[args.len() - 2], "-cp");
    assert_eq!(args[args.len() - 1], "cp.jar");
}

#[test]
fn windows_masquerade_flags_depend_on_the_schema() {
    let modern = vd("1.20.1");
    let vars = jvm_variables(
        &"/n".to_string(),
        &"cp".to_string(),
        &"/mc".to_string(),
        &"1.20.1".to_string(),
        &"/mc/versions/1.20.1/1.20.1.jar".to_string(),
        Os::Windows,
    );
    let args = build_jvm_args(&modern, 512, 1024, &"/n".to_string(), &"cp".to_string(), &vars, Os::Windows);
    assert!(args.contains(&"-Dos.name=Windows 10".to_string()));
    let mut legacy = vd("1.7.10");
    legacy.minecraft_arguments = Some("--username x".to_string());
    let args = build_jvm_args(&legacy, 512, 1024, &"/n".to_string(), &"cp".to_string(), &vars, Os::Windows);
    assert!(!args.contains(&"-Dos.name=Windows 10".to_string()));
    // and on Linux neither schema masquerades
    let args = build_jvm_args(&modern, 512, 1024, &"/n".to_string(), &"cp".to_string(), &vars, Os::Linux);
    assert!(!args.contains(&"-Dos.name=Windows 10".to_string()));
}

//! Launch-script generation and parse-back: the script carries exactly the
//! classpath and main class a live launch would use.
use launchcore::classpath::build_classpath;
use launchcore::model::{FileSet, LibraryEntry, VersionDescriptor};
use launchcore::platform::Os;
use launchcore::script::{generate_launch_script_content, parse_launch_script};

fn vd(id: &str) -> VersionDescriptor {
    VersionDescriptor {
        id: id.to_string(),
        version_type: None,
        main_class: None,
        inherits_from: None,
        assets: None,
        asset_index: None,
        libraries: vec![],
        arguments: None,
        minecraft_arguments: None,
        downloads: None,
        java_major: None,
    }
}

fn lib(name: &str) -> LibraryEntry {
    LibraryEntry { name: Some(name.to_string()), downloads: None, rules: None, natives: None }
}

#[test]
fn script_parses_back_to_the_live_classpath_and_main_class() {
    let mut parent = vd("base");
    parent.main_class = Some("net.minecraft.client.main.Main".to_string());
    parent.libraries = vec![lib("a:x:1"), lib("b:y:2")];
    let mut leaf = vd("modded");
    leaf.inherits_from = Some("base".to_string());
    let table = vec![parent];
    let files = FileSet::new(vec![
        "/mc/libraries/a/x/1/x-1.jar".to_string(),
        "/mc/libraries/b/y/2/y-2.jar".to_string(),
        "/mc/versions/base/base.jar".to_string(),
    ]);
    let script = generate_launch_script_content(
        &table,
        &leaf,
        &"modded".to_string(),
        &"/usr/bin/java".to_string(),
        512,
        2048,
        &"/mc".to_string(),
        Os::Linux,
        &files,
        &"2026-01-01 00:00:00".to_string(),
    );
    let (cp, main) = parse_launch_script(&script).unwrap();
    // the parsed fields are byte-identical to what a live launch resolves
    let merged = launchcore::merge::merge_version_chain(&table, &leaf).unwrap();
    let live_cp = build_classpath(
        &merged.descriptor,
        &merged.chain,
        &"/mc".to_string(),
        Os::Linux,
        &files,
    );
    assert_eq!(cp, live_cp);
    assert_eq!(main, "net.minecraft.client.main.Main");
    assert_eq!(
        cp,
        "/mc/libraries/a/x/1/x-1.jar:/mc/libraries/b/y/2/y-2.jar:/mc/versions/base/base.jar"
    );
}

#[test]
fn script_without_a_main_class_falls_back_to_the_stock_entry_point() {
    let leaf = vd("plain");
    let table: Vec<VersionDescriptor> = vec![];
    let files = FileSet::new(vec![]);
    let script = generate_launch_script_content(
        &table,
        &leaf,
        &"plain".to_string(),
        &"java".to_string(),
        512,
        1024,
        &"/mc".to_string(),
        Os::Linux,
        &files,
        &"now".to_string(),
    );
    let (_, main) = parse_launch_script(&script).unwrap();
    assert_eq!(main, "net.minecraft.client.main.Main");
    assert!(script.contains("set MIN_MEMORY=512M"));
    assert!(script.contains("set MAX_MEMORY=1024M"));
    assert!(script.contains("--username Player"));
    assert!(script.contains("--accessToken 0"));
}

#[test]
fn unrelated_text_does_not_parse() {
    assert!(parse_launch_script(&"no script here".to_string()).is_none());
}

//! Classpath resolution: Maven path derivation, existence filtering,
//! deduplication, rule gating and the version-jar fallback.
use launchcore::classpath::{
    build_classpath, classpath_candidates, get_library_path, missing_classpath_files,
    resolve_classpath,
};
use launchcore::model::{
    FileSet, LibraryArtifact, LibraryDownloads, LibraryEntry, Rule, VersionDescriptor,
};
use launchcore::platform::Os;

fn vd(id: &str) -> VersionDescriptor {
    VersionDescriptor {
        id: id.to_string(),
        version_type: None,
        main_class: None,
        inherits_from: None,
        assets: None,
        asset_index: None,
        libraries: vec![],
        arguments: None,
        minecraft_arguments: None,
        downloads: None,
        java_major: None,
    }
}

fn lib(name: &str) -> LibraryEntry {
    LibraryEntry { name: Some(name.to_string()), downloads: None, rules: None, natives: None }
}

fn files(paths: &[&str]) -> FileSet {
    FileSet::new(paths.iter().map(|p| p.to_string()).collect())
}

#[test]
fn maven_coordinates_become_directory_paths() {
    let l = lib("com.example.lib:widget:2.1");
    let p = get_library_path(&l, &"/mc/libraries".to_string(), Os::Linux).unwrap();
    assert_eq!(p, "/mc/libraries/com/example/lib/widget/2.1/widget-2.1.jar");
}

#[test]
fn maven_classifier_lands_in_the_file_name() {
    let l = lib("org.x:thing:1.0:natives-linux");
    let p = get_library_path(&l, &"/r".to_string(), Os::Linux).unwrap();
    assert_eq!(p, "/r/org/x/thing/1.0/thing-1.0-natives-linux.jar");
}

#[test]
fn extension_override_is_stripped_and_suppresses_classifier() {
    let l = lib("org.x:thing:1.0@zip:classified");
    let p = get_library_path(&l, &"/r".to_string(), Os::Linux).unwrap();
    assert_eq!(p, "/r/org/x/thing/1.0/thing-1.0.jar");
}

#[test]
fn explicit_artifact_path_wins_over_coordinates() {
    let mut l = lib("a:b:1");
    l.downloads = Some(LibraryDownloads {
        artifact: Some(LibraryArtifact {
            path: "a/b/1/custom.jar".to_string(),
            sha1: None,
            size: None,
            url: String::new(),
        }),
        classifiers: vec![],
    });
    let p = get_library_path(&l, &"/r".to_string(), Os::Linux).unwrap();
    assert_eq!(p, "/r/a/b/1/custom.jar");
}

#[test]
fn missing_files_are_silently_left_out() {
    let mut m = vd("v");
    m.libraries = vec![lib("a:present:1"), lib("a:absent:1")];
    let fs = files(&["/mc/libraries/a/present/1/present-1.jar"]);
    let cp = resolve_classpath(&m, &vec!["v".to_string()], &"/mc".to_string(), Os::Linux, &fs);
    assert_eq!(cp, vec!["/mc/libraries/a/present/1/present-1.jar".to_string()]);
}

#[test]
fn duplicate_paths_keep_their_first_position_only() {
    let mut m = vd("v");
    m.libraries = vec![lib("a:x:1"), lib("other:y:1"), lib("a:x:1")];
    let fs = files(&[
        "/mc/libraries/a/x/1/x-1.jar",
        "/mc/libraries/other/y/1/y-1.jar",
    ]);
    let cp = resolve_classpath(&m, &vec![], &"/mc".to_string(), Os::Linux, &fs);
    assert_eq!(cp, vec![
        "/mc/libraries/a/x/1/x-1.jar".to_string(),
        "/mc/libraries/other/y/1/y-1.jar".to_string(),
    ]);
}

#[test]
fn windows_only_library_is_excluded_elsewhere() {
    let mut l = lib("w:only:1");
    l.rules = Some(vec![Rule {
        allow: true,
        os_name: Some("windows".to_string()),
        has_features: false,
    }]);
    let mut m = vd("v");
    m.libraries = vec![l];
    let fs = files(&["/mc/libraries/w/only/1/only-1.jar"]);
    let cp = resolve_classpath(&m, &vec![], &"/mc".to_string(), Os::Linux, &fs);
    assert!(cp.is_empty());
    // the same library on Windows is kept (paths joined the Windows way)
    let mut lw = lib("w:only:1");
    lw.rules = Some(vec![Rule {
        allow: true,
        os_name: Some("windows".to_string()),
        has_features: false,
    }]);
    let mut mw = vd("v");
    mw.libraries = vec![lw];
    let fsw = files(&["C:\\mc\\libraries\\w\\only\\1\\only-1.jar"]);
    let cpw = resolve_classpath(&mw, &vec![], &"C:\\mc".to_string(), Os::Windows, &fsw);
    assert_eq!(cpw.len(), 1);
}

#[test]
fn version_jar_comes_last() {
    let mut m = vd("v");
    m.libraries = vec![lib("a:x:1")];
    let fs = files(&[
        "/mc/libraries/a/x/1/x-1.jar",
        "/mc/versions/v/v.jar",
    ]);
    let cp = resolve_classpath(&m, &vec!["v".to_string()], &"/mc".to_string(), Os::Linux, &fs);
    assert_eq!(cp, vec![
        "/mc/libraries/a/x/1/x-1.jar".to_string(),
        "/mc/versions/v/v.jar".to_string(),
    ]);
}

#[test]
fn leaf_without_jar_borrows_the_nearest_ancestors() {
    let m = vd("loader");
    let chain = vec!["loader".to_string(), "base".to_string()];
    let fs = files(&["/mc/versions/base/base.jar"]);
    let cp = resolve_classpath(&m, &chain, &"/mc".to_string(), Os::Linux, &fs);
    assert_eq!(cp, vec!["/mc/versions/base/base.jar".to_string()]);
}

#[test]
fn classpath_string_joins_with_the_platform_separator() {
    let mut m = vd("v");
    m.libraries = vec![lib("a:x:1"), lib("b:y:1")];
    let fs = files(&[
        "/mc/libraries/a/x/1/x-1.jar",
        "/mc/libraries/b/y/1/y-1.jar",
    ]);
    let cp = build_classpath(&m, &vec![], &"/mc".to_string(), Os::Linux, &fs);
    assert_eq!(cp, "/mc/libraries/a/x/1/x-1.jar:/mc/libraries/b/y/1/y-1.jar");
}

#[test]
fn natives_only_library_contributes_no_classpath_entry() {
    let l = LibraryEntry {
        name: None,
        downloads: None,
        rules: None,
        natives: Some(vec![("linux".to_string(), "natives-linux".to_string())]),
    };
    let mut m = vd("v");
    m.libraries = vec![l];
    let fs = files(&[]);
    let cands = classpath_candidates(&m, &vec![], &"/mc".to_string(), Os::Linux);
    assert!(cands.is_empty());
    let cp = resolve_classpath(&m, &vec![], &"/mc".to_string(), Os::Linux, &fs);
    assert!(cp.is_empty());
}

#[test]
fn strict_pass_reports_exactly_the_absent_candidates() {
    let mut m = vd("v");
    m.libraries = vec![lib("a:x:1"), lib("b:y:1")];
    let fs = files(&["/mc/libraries/a/x/1/x-1.jar"]);
    let missing =
        missing_classpath_files(&m, &vec!["v".to_string()], &"/mc".to_string(), Os::Linux, &fs);
    assert_eq!(missing, vec![
        "/mc/libraries/b/y/1/y-1.jar".to_string(),
        "/mc/versions/v/v.jar".to_string(),
    ]);
}

//! Native-library handling: archive resolution per platform and the
//! idempotent extraction plan.
use launchcore::model::{
    FileSet, LibraryArtifact, LibraryDownloads, LibraryEntry, Rule, VersionDescriptor,
};
use launchcore::natives::{plan_native_extraction, resolve_native_archives};
use launchcore::platform::Os;

fn vd_with(libs: Vec<LibraryEntry>) -> VersionDescriptor {
    VersionDescriptor {
        id: "v".to_string(),
        version_type: None,
        main_class: None,
        inherits_from: None,
        assets: None,
        asset_index: None,
        libraries: libs,
        arguments: None,
        minecraft_arguments: None,
        downloads: None,
        java_major: None,
    }
}

fn files(paths: &[&str]) -> FileSet {
    FileSet::new(paths.iter().map(|p| p.to_string()).collect())
}

fn native_lib(name: &str, os_key: &str, key: &str) -> LibraryEntry {
    LibraryEntry {
        name: Some(name.to_string()),
        downloads: None,
        rules: None,
        natives: Some(vec![(os_key.to_string(), key.to_string())]),
    }
}

#[test]
fn classifier_record_names_the_archive() {
    let mut l = native_lib("org.lwjgl:lwjgl:3.3", "linux", "natives-linux");
    l.downloads = Some(LibraryDownloads {
        artifact: None,
        classifiers: vec![(
            "natives-linux".to_string(),
            LibraryArtifact {
                path: "org/lwjgl/lwjgl/3.3/lwjgl-3.3-natives-linux.jar".to_string(),
                sha1: None,
                size: None,
                url: String::new(),
            },
        )],
    });
    let m = vd_with(vec![l]);
    let fs = files(&["/mc/libraries/org/lwjgl/lwjgl/3.3/lwjgl-3.3-natives-linux.jar"]);
    let archives = resolve_native_archives(&m, &"/mc".to_string(), Os::Linux, true, &fs);
    assert_eq!(archives, vec![
        "/mc/libraries/org/lwjgl/lwjgl/3.3/lwjgl-3.3-natives-linux.jar".to_string(),
    ]);
}

#[test]
fn legacy_archives_derive_from_coordinates_with_arch() {
    let l = native_lib("org.lwjgl:lwjgl-platform:2.9", "linux", "natives-linux-${arch}");
    let m = vd_with(vec![l]);
    let fs = files(&[
        "/mc/libraries/org/lwjgl/lwjgl-platform/2.9/lwjgl-platform-2.9-natives-linux-64.jar",
    ]);
    let archives = resolve_native_archives(&m, &"/mc".to_string(), Os::Linux, true, &fs);
    assert_eq!(archives.len(), 1);
    assert!(archives[0].ends_with("lwjgl-platform-2.9-natives-linux-64.jar"));
    // a 32-bit target substitutes the other width and finds nothing
    let archives32 = resolve_native_archives(&m, &"/mc".to_string(), Os::Linux, false, &fs);
    assert!(archives32.is_empty());
}

#[test]
fn platforms_without_a_natives_key_get_nothing() {
    let l = native_lib("a:b:1", "windows", "natives-windows");
    let m = vd_with(vec![l]);
    let fs = files(&["/mc/libraries/a/b/1/b-1-natives-windows.jar"]);
    assert!(resolve_native_archives(&m, &"/mc".to_string(), Os::Linux, true, &fs).is_empty());
}

#[test]
fn rule_rejected_natives_are_excluded() {
    let mut l = native_lib("a:b:1", "linux", "natives-linux");
    l.rules = Some(vec![Rule {
        allow: true,
        os_name: Some("windows".to_string()),
        has_features: false,
    }]);
    let m = vd_with(vec![l]);
    let fs = files(&["/mc/libraries/a/b/1/b-1-natives-linux.jar"]);
    assert!(resolve_native_archives(&m, &"/mc".to_string(), Os::Linux, true, &fs).is_empty());
}

#[test]
fn missing_archives_are_skipped_not_fatal() {
    let l = native_lib("a:b:1", "linux", "natives-linux");
    let m = vd_with(vec![l]);
    let fs = files(&[]);
    assert!(resolve_native_archives(&m, &"/mc".to_string(), Os::Linux, true, &fs).is_empty());
}

#[test]
fn extraction_plans_native_binaries_flat() {
    let entries = vec![
        "META-INF/MANIFEST.MF".to_string(),
        "liblwjgl.so".to_string(),
        "sub/dir/".to_string(),
        "sub/dir/libopenal.so".to_string(),
        "readme.txt".to_string(),
        "win/lwjgl.dll".to_string(),
        "mac/liblwjgl.dylib".to_string(),
        "mac/liblwjgl.jnilib".to_string(),
    ];
    let plan = plan_native_extraction(&entries, &FileSet::new(vec![]));
    let pairs: Vec<(&str, &str)> =
        plan.iter().map(|p| (p.0.as_str(), p.1.as_str())).collect();
    assert_eq!(pairs, vec![
        ("liblwjgl.so", "liblwjgl.so"),
        ("sub/dir/libopenal.so", "libopenal.so"),
        ("win/lwjgl.dll", "lwjgl.dll"),
        ("mac/liblwjgl.dylib", "liblwjgl.dylib"),
        ("mac/liblwjgl.jnilib", "liblwjgl.jnilib"),
    ]);
}

#[test]
fn extraction_skips_files_already_present() {
    let entries = vec!["liblwjgl.so".to_string(), "libopenal.so".to_string()];
    let existing = FileSet::new(vec!["liblwjgl.so".to_string()]);
    let plan = plan_native_extraction(&entries, &existing);
    assert_eq!(plan.len(), 1);
    assert_eq!(plan[0].0, "libopenal.so");
}

#[test]
fn extraction_never_writes_one_destination_twice() {
    let entries = vec!["a/libx.so".to_string(), "b/libx.so".to_string()];
    let plan = plan_native_extraction(&entries, &FileSet::new(vec![]));
    assert_eq!(plan.len(), 1);
    assert_eq!(plan[0].0, "a/libx.so");
}

#[test]
fn meta_inf_natives_stay_in_the_archive() {
    let entries = vec!["META-INF/native/libnetty.so".to_string()];
    let plan = plan_native_extraction(&entries, &FileSet::new(vec![]));
    assert!(plan.is_empty());
}

//! Descriptor merging: inheritance resolution, field precedence, library
//! concatenation, lenient missing parents and cycle detection.
use launchcore::merge::{merge_version_chain, MergeError};
use launchcore::model::{LibraryEntry, VersionDescriptor};

fn vd(id: &str) -> VersionDescriptor {
    VersionDescriptor {
        id: id.to_string(),
        version_type: None,
        main_class: None,
        inherits_from: None,
        assets: None,
        asset_index: None,
        libraries: vec![],
        arguments: None,
        minecraft_arguments: None,
        downloads: None,
        java_major: None,
    }
}

fn lib(name: &str) -> LibraryEntry {
    LibraryEntry { name: Some(name.to_string()), downloads: None, rules: None, natives: None }
}

fn lib_names(d: &VersionDescriptor) -> Vec<String> {
    d.libraries.iter().map(|l| l.name.clone().unwrap()).collect()
}

#[test]
fn two_level_chain_inherits_main_class_and_libraries() {
    // parent defines the main class and three libraries; the child defines
    // nothing of its own
    let mut parent = vd("parent");
    parent.main_class = Some("net.minecraft.client.Main".to_string());
    parent.libraries = vec![lib("a:a:1"), lib("b:b:1"), lib("c:c:1")];
    let mut child = vd("child");
    child.inherits_from = Some("parent".to_string());
    let table = vec![parent];
    let merged = merge_version_chain(&table, &child).unwrap();
    assert_eq!(merged.descriptor.main_class.as_deref(), Some("net.minecraft.client.Main"));
    assert_eq!(lib_names(&merged.descriptor), vec!["a:a:1", "b:b:1", "c:c:1"]);
    assert_eq!(merged.chain, vec!["child".to_string(), "parent".to_string()]);
    // identity fields stay the child's
    assert_eq!(merged.descriptor.id, "child");
    assert_eq!(merged.descriptor.inherits_from.as_deref(), Some("parent"));
}

#[test]
fn child_overrides_win_field_by_field() {
    let mut parent = vd("parent");
    parent.main_class = Some("parent.Main".to_string());
    parent.assets = Some("3".to_string());
    parent.minecraft_arguments = Some("--old".to_string());
    let mut child = vd("child");
    child.inherits_from = Some("parent".to_string());
    child.main_class = Some("child.Main".to_string());
    let table = vec![parent];
    let merged = merge_version_chain(&table, &child).unwrap().descriptor;
    assert_eq!(merged.main_class.as_deref(), Some("child.Main"));
    // not overridden: inherited from the parent
    assert_eq!(merged.assets.as_deref(), Some("3"));
    assert_eq!(merged.minecraft_arguments.as_deref(), Some("--old"));
}

#[test]
fn libraries_concatenate_root_first() {
    let mut root = vd("root");
    root.libraries = vec![lib("root:one:1")];
    let mut mid = vd("mid");
    mid.inherits_from = Some("root".to_string());
    mid.libraries = vec![lib("mid:one:1"), lib("mid:two:1")];
    let mut leaf = vd("leaf");
    leaf.inherits_from = Some("mid".to_string());
    leaf.libraries = vec![lib("leaf:one:1")];
    let table = vec![mid, root];
    let merged = merge_version_chain(&table, &leaf).unwrap();
    assert_eq!(lib_names(&merged.descriptor), vec![
        "root:one:1",
        "mid:one:1",
        "mid:two:1",
        "leaf:one:1",
    ]);
    assert_eq!(merged.chain, vec!["leaf".to_string(), "mid".to_string(), "root".to_string()]);
}

#[test]
fn nearest_ancestor_defines_the_field() {
    let mut root = vd("root");
    root.assets = Some("root-assets".to_string());
    root.main_class = Some("root.Main".to_string());
    let mut mid = vd("mid");
    mid.inherits_from = Some("root".to_string());
    mid.assets = Some("mid-assets".to_string());
    let mut leaf = vd("leaf");
    leaf.inherits_from = Some("mid".to_string());
    let table = vec![mid, root];
    let merged = merge_version_chain(&table, &leaf).unwrap().descriptor;
    // assets from the nearer ancestor, main class from the farther one
    assert_eq!(merged.assets.as_deref(), Some("mid-assets"));
    assert_eq!(merged.main_class.as_deref(), Some("root.Main"));
}

#[test]
fn missing_parent_ends_the_chain_leniently() {
    let mut child = vd("child");
    child.inherits_from = Some("gone".to_string());
    child.main_class = Some("child.Main".to_string());
    let table: Vec<VersionDescriptor> = vec![];
    let merged = merge_version_chain(&table, &child).unwrap();
    assert_eq!(merged.descriptor.main_class.as_deref(), Some("child.Main"));
    assert_eq!(merged.chain, vec!["child".to_string()]);
}

#[test]
fn self_inheritance_is_a_cycle() {
    let mut a = vd("a");
    a.inherits_from = Some("a".to_string());
    let table = vec![{
        let mut t = vd("a");
        t.inherits_from = Some("a".to_string());
        t
    }];
    assert!(matches!(merge_version_chain(&table, &a), Err(MergeError::CyclicInheritance)));
}

#[test]
fn two_link_cycle_is_detected() {
    let mut a = vd("a");
    a.inherits_from = Some("b".to_string());
    let mut b = vd("b");
    b.inherits_from = Some("a".to_string());
    let leaf = {
        let mut l = vd("a");
        l.inherits_from = Some("b".to_string());
        l
    };
    let table = vec![a, b];
    assert!(matches!(merge_version_chain(&table, &leaf), Err(MergeError::CyclicInheritance)));
}

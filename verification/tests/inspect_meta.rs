//! Metadata inspection: loader detection, Java-version parsing, version
//! comparison, the TOML and byte-pattern scrapers, and speed formatting.
use core::cmp::Ordering;
use launchcore::inspect::{
    detect_loader, extract_java_version, extract_pack_description, extract_string_constant,
    extract_toml_value, extract_version_pattern, format_speed, lookup_version, normalize_version,
    parse_java_version, read_resourcepack_info, version_compare,
};

#[test]
fn loader_detection_follows_id_and_main_class() {
    let none = String::new();
    assert_eq!(detect_loader(&"1.20.1-Forge".to_string(), &none), "forge");
    assert_eq!(detect_loader(&"fabric-loader-0.15".to_string(), &none), "fabric");
    assert_eq!(detect_loader(&"quilt-1.20".to_string(), &none), "quilt");
    assert_eq!(detect_loader(&"1.8.9-OptiFine".to_string(), &none), "optifine");
    assert_eq!(detect_loader(&"1.20.1".to_string(), &none), "vanilla");
    assert_eq!(
        detect_loader(&"1.12.2".to_string(), &"net.minecraftforge.fml.Main".to_string()),
        "forge"
    );
    assert_eq!(
        detect_loader(&"1.20".to_string(), &"org.quiltmc.loader.Main".to_string()),
        "quilt"
    );
}

#[test]
fn java_version_strings_parse_to_majors() {
    assert_eq!(parse_java_version("1.8.0_301"), 8);
    assert_eq!(parse_java_version("17.0.1"), 17);
    assert_eq!(parse_java_version("21"), 21);
    assert_eq!(parse_java_version("not a version"), 0);
    assert_eq!(parse_java_version(""), 0);
}

#[test]
fn java_version_output_yields_the_quoted_version() {
    let out = "openjdk version \"17.0.1\" 2021-10-19\nOpenJDK Runtime Environment";
    assert_eq!(extract_java_version(out).as_deref(), Some("17.0.1"));
    assert_eq!(extract_java_version("no quotes here"), None);
    // an empty quoted version does not count
    assert_eq!(extract_java_version("version \"\""), None);
}

#[test]
fn version_compare_is_numeric_and_zero_extended() {
    assert_eq!(version_compare("1.9", "1.10"), Ordering::Less);
    assert_eq!(version_compare("1.20.1", "1.20.1"), Ordering::Equal);
    assert_eq!(version_compare("1.20", "1.20.0"), Ordering::Equal);
    assert_eq!(version_compare("2.0", "1.99.99"), Ordering::Greater);
    assert_eq!(version_compare("1.20.1", "1.20"), Ordering::Greater);
}

#[test]
fn the_two_trailing_zero_versions_round_trip() {
    assert_eq!(normalize_version("1.8.0"), "1.8");
    assert_eq!(normalize_version("1.9.0"), "1.9");
    assert_eq!(normalize_version("1.20.1"), "1.20.1");
    assert_eq!(lookup_version("1.8"), "1.8.0");
    assert_eq!(lookup_version("1.9"), "1.9.0");
    assert_eq!(lookup_version("1.20.1"), "1.20.1");
}

#[test]
fn toml_values_are_unquoted_and_placeholders_skipped() {
    let content = "\nmodId = \"examplemod\"\nversion = \"${file.jarVersion}\"\nversion = '1.2.3'\n";
    assert_eq!(extract_toml_value(content, "modId").as_deref(), Some("examplemod"));
    // the placeholder line is passed over in favor of the next match
    assert_eq!(extract_toml_value(content, "version").as_deref(), Some("1.2.3"));
    assert_eq!(extract_toml_value(content, "missing"), None);
    assert_eq!(extract_toml_value("empty = \"\"", "empty"), None);
    assert_eq!(extract_toml_value("  indented = bare ", "indented").as_deref(), Some("bare"));
}

#[test]
fn version_patterns_prefer_the_most_specific_shape() {
    assert_eq!(extract_version_pattern("x 1.20.1 y").as_deref(), Some("1.20.1"));
    assert_eq!(extract_version_pattern("x 1.20 y").as_deref(), Some("1.20"));
    // a triple anywhere beats an earlier double
    assert_eq!(extract_version_pattern("1.20 then 1.20.1").as_deref(), Some("1.20.1"));
    assert_eq!(extract_version_pattern("OptiFine HD_U_I5").as_deref(), Some("HD_U_I5"));
    assert_eq!(extract_version_pattern("build pre3").as_deref(), Some("pre3"));
    assert_eq!(extract_version_pattern("alpha12 build").as_deref(), Some("alpha12"));
    assert_eq!(extract_version_pattern("nothing"), None);
    // leftmost match of the winning shape
    assert_eq!(extract_version_pattern("1.2.3 and 4.5.6").as_deref(), Some("1.2.3"));
}

#[test]
fn string_constants_are_scanned_ten_lines_deep() {
    let content = "MC_VERSION\njunk\n1.20.1 here\nrest";
    assert_eq!(extract_string_constant(content, "MC_VERSION").as_deref(), Some("1.20.1"));
    assert_eq!(extract_string_constant(content, "ABSENT"), None);
    // a version farther than ten lines after the constant is out of reach
    let far = format!("KEY{}\n9.9.9", "\nx".repeat(10));
    assert_eq!(extract_string_constant(&far, "KEY"), None);
}

#[test]
fn pack_descriptions_come_from_the_metadata() {
    let mcmeta = "{\n  \"pack\": {\n    \"pack_format\": 15,\n    \"description\": \"My cool pack\"\n  }\n}";
    assert_eq!(extract_pack_description(mcmeta).as_deref(), Some("My cool pack"));
    assert_eq!(extract_pack_description("{}"), None);
    let info = read_resourcepack_info(&"pack.zip".to_string(), &Some(mcmeta.to_string())).unwrap();
    assert_eq!(info.0, "pack.zip");
    assert_eq!(info.1.as_deref(), Some("My cool pack"));
    assert!(read_resourcepack_info(&"pack.zip".to_string(), &None).is_none());
}

#[test]
fn speeds_format_with_two_decimals() {
    assert_eq!(format_speed(500), "500 B/s");
    assert_eq!(format_speed(1024), "1.00 KB/s");
    assert_eq!(format_speed(1536), "1.50 KB/s");
    assert_eq!(format_speed(1100), "1.07 KB/s");
    assert_eq!(format_speed(1048576), "1.00 MB/s");
    assert_eq!(format_speed(5 * 1048576 + 1048576 / 4), "5.25 MB/s");
}

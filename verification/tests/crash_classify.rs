//! Crash classification: category priority, fixed suggestion lists and
//! detail extraction.
use launchcore::crash::{classify, log_tail};

fn lines(ls: &[&str]) -> Vec<String> {
    ls.iter().map(|l| l.to_string()).collect()
}

#[test]
fn out_of_memory_is_recognized() {
    let log = lines(&[
        "[12:00:00] [Server thread/ERROR]: Encountered an unexpected exception",
        "java.lang.OutOfMemoryError: Java heap space",
        "    at net.minecraft.client.Minecraft.run(Minecraft.java:123)",
    ]);
    let c = classify(&log, 1);
    assert_eq!(c.reason, "out_of_memory");
    assert_eq!(c.exit_code, 1);
    assert_eq!(c.suggestions, vec![
        "give the game more memory, 4 gb or more".to_string(),
        "close other memory-hungry programs".to_string(),
        "lower the render distance and graphics settings".to_string(),
        "with many mods installed, remove some".to_string(),
    ]);
}

#[test]
fn java_version_mismatch_outranks_out_of_memory() {
    let log = lines(&[
        "java.lang.UnsupportedClassVersionError: class file version 61",
        "also: OutOfMemoryError somewhere later",
    ]);
    let c = classify(&log, 1);
    assert_eq!(c.reason, "java_version_mismatch");
    assert_eq!(c.details, "the game needs java 17, but the selected java is older");
}

#[test]
fn class_file_version_65_means_java_21() {
    let log = lines(&["UnsupportedClassVersionError: class file version 65.0"]);
    let c = classify(&log, 1);
    assert_eq!(c.details, "the game needs java 21, but the selected java is older");
}

#[test]
fn urlclassloader_cast_is_a_java_version_problem() {
    let log = lines(&[
        "java.lang.ClassCastException: class jdk.internal.loader.ClassLoaders$AppClassLoader cannot be cast to class java.net.URLClassLoader",
    ]);
    let c = classify(&log, 1);
    assert_eq!(c.reason, "java_version_mismatch");
    assert_eq!(
        c.details,
        "the game or a mod uses the legacy urlclassloader api and needs java 8"
    );
}

#[test]
fn missing_file_details_quote_the_line() {
    let log = lines(&[
        "preparing",
        "java.io.FileNotFoundException: /mc/missing.txt",
        "done",
    ]);
    let c = classify(&log, 1);
    assert_eq!(c.reason, "missing_file");
    assert_eq!(c.details, "missing file: java.io.FileNotFoundException: /mc/missing.txt");
}

#[test]
fn generic_crash_quotes_the_last_exception_line() {
    let log = lines(&[
        "java.lang.IllegalStateException: first",
        "    at some.Frame(Frame.java:1)",
        "java.lang.IllegalStateException: second",
        "    at some.Frame(Frame.java:2)",
    ]);
    let c = classify(&log, 1);
    assert_eq!(c.reason, "crash");
    assert_eq!(c.details, "java.lang.IllegalStateException: second");
}

#[test]
fn quiet_log_is_unknown_with_the_exit_code() {
    let c = classify(&lines(&["nothing to see"]), -7);
    assert_eq!(c.reason, "unknown");
    assert_eq!(c.details, "exit code: -7");
}

#[test]
fn lwjgl_failure_is_its_own_category() {
    let c = classify(&lines(&["[LWJGL] Failed to load a library"]), 1);
    assert_eq!(c.reason, "lwjgl");
}

#[test]
fn mixin_failure_is_its_own_category() {
    let c = classify(&lines(&["org.spongepowered.asm.mixin.MixinApplyError: failed"]), 1);
    assert_eq!(c.reason, "mixin_injection");
}

#[test]
fn network_failure_needs_a_connection_word() {
    let c = classify(&lines(&["Connection refused while fetching resources"]), 1);
    assert_eq!(c.reason, "network");
}

#[test]
fn permission_trouble_is_recognized() {
    let c = classify(&lines(&["java.nio.file.AccessDeniedException: /mc/options.txt"]), 1);
    assert_eq!(c.reason, "permission_denied");
}

#[test]
fn log_tail_keeps_the_last_lines() {
    let log = lines(&["a", "b", "c", "d"]);
    assert_eq!(log_tail(&log, 2), lines(&["c", "d"]));
    assert_eq!(log_tail(&log, 10), log);
    assert!(log_tail(&log, 0).is_empty());
}

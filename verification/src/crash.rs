//! The crash classifier: a fixed-priority pattern cascade over lower-cased
//! log text, yielding a reason label, a best-effort detail line and a fixed
//! list of suggestions per category.
//!
//! The classification is advisory and purely a function of the log text
//! and the exit code; a false classification costs nothing but a less
//! helpful hint.
use vstd::prelude::*;
use crate::text::{
    chars_to_string, contains_chars, contains_seq, dec_rep, join_spec, join_with, lower_seq,
    push_dec_u64, str_chars, string_views, to_ascii_lower,
};

verus! {

/// What the classifier concludes about a crash.
#[derive(Debug)]
pub struct CrashClassification {
    /// The fixed label of the matched category.
    pub reason: String,
    /// A best-effort detail line.
    pub details: String,
    /// The fixed remediation suggestions of the matched category.
    pub suggestions: Vec<String>,
    /// The exit code the process ended with.
    pub exit_code: i32,
}

/// The lower-cased text the cascade is matched against: all log lines
/// joined with newlines.
pub open spec fn lowered_log(lines: Seq<Seq<char>>) -> Seq<char> {
    lower_seq(join_spec(lines, "\n"@))
}

/// A Java-version mismatch: class-file version complaints, classloader
/// casts that died with Java 9, or module-system conflicts.
pub open spec fn cat_java_version(t: Seq<char>) -> bool {
    ||| contains_seq(t, "unsupportedclassversionerror"@)
    ||| contains_seq(t, "class file version"@)
    ||| contains_seq(t, "has been compiled by a more recent version"@)
    ||| (contains_seq(t, "classcastexception"@) && contains_seq(t, "urlclassloader"@))
    ||| contains_seq(t, "cannot be cast to class java.net.urlclassloader"@)
    ||| contains_seq(t, "appclassloader cannot be cast"@)
    ||| contains_seq(t, "module java.base"@)
    ||| (contains_seq(t, "illegalaccesserror"@) && contains_seq(t, "module"@))
}

/// Java missing or unable to start at all.
pub open spec fn cat_java_missing(t: Seq<char>) -> bool {
    ||| contains_seq(t, "cannot find java"@)
    ||| contains_seq(t, "java not found"@)
    ||| contains_seq(t, "'java' is not recognized"@)
    ||| contains_seq(t, "error: could not find or load main class"@)
}

/// The heap ran out.
pub open spec fn cat_oom(t: Seq<char>) -> bool {
    ||| contains_seq(t, "outofmemoryerror"@)
    ||| contains_seq(t, "out of memory"@)
    ||| contains_seq(t, "gc overhead limit exceeded"@)
    ||| contains_seq(t, "java heap space"@)
}

/// Graphics driver or OpenGL failure.
pub open spec fn cat_gpu(t: Seq<char>) -> bool {
    (contains_seq(t, "opengl"@) || contains_seq(t, "gl error"@)) && (contains_seq(t, "error"@)
        || contains_seq(t, "failed"@) || contains_seq(t, "not supported"@))
}

/// The LWJGL graphics library failed to load.
pub open spec fn cat_lwjgl(t: Seq<char>) -> bool {
    contains_seq(t, "lwjgl"@) && (contains_seq(t, "error"@) || contains_seq(t, "failed"@)
        || contains_seq(t, "exception"@))
}

/// A mod's Mixin injection failed.
pub open spec fn cat_mixin(t: Seq<char>) -> bool {
    contains_seq(t, "mixin"@) && (contains_seq(t, "error"@) || contains_seq(t, "failed"@)
        || contains_seq(t, "exception"@))
}

/// Mods conflict with each other.
pub open spec fn cat_mod_conflict(t: Seq<char>) -> bool {
    (contains_seq(t, "mod"@) || contains_seq(t, "fabric"@) || contains_seq(t, "forge"@)) && (
    contains_seq(t, "conflict"@) || contains_seq(t, "duplicate"@) || contains_seq(
        t,
        "incompatible"@,
    ))
}

/// The Forge loader failed to start.
pub open spec fn cat_forge(t: Seq<char>) -> bool {
    (contains_seq(t, "forge"@) || contains_seq(t, "fml"@)) && (contains_seq(t, "error"@)
        || contains_seq(t, "failed"@) || contains_seq(t, "exception"@))
}

/// The Fabric loader failed to start.
pub open spec fn cat_fabric(t: Seq<char>) -> bool {
    contains_seq(t, "fabric"@) && (contains_seq(t, "error"@) || contains_seq(t, "failed"@))
}

/// A game file is missing.
pub open spec fn cat_file_missing(t: Seq<char>) -> bool {
    ||| contains_seq(t, "filenotfoundexception"@)
    ||| contains_seq(t, "nosuchfileexception"@)
    ||| contains_seq(t, "file not found"@)
}

/// The game lacked file-system permissions.
pub open spec fn cat_permission(t: Seq<char>) -> bool {
    ||| contains_seq(t, "access denied"@)
    ||| contains_seq(t, "permission denied"@)
    ||| contains_seq(t, "accessdeniedexception"@)
}

/// A network connection failed.
pub open spec fn cat_network(t: Seq<char>) -> bool {
    contains_seq(t, "connection"@) && (contains_seq(t, "refused"@) || contains_seq(t, "timeout"@)
        || contains_seq(t, "reset"@))
}

/// Some Java exception, with no more specific category.
pub open spec fn cat_generic(t: Seq<char>) -> bool {
    contains_seq(t, "exception"@) || contains_seq(t, "error"@)
}

/// The reason label of the first matching category, in fixed priority
/// order.
pub open spec fn reason_of(t: Seq<char>) -> Seq<char> {
    if cat_java_version(t) {
        "java_version_mismatch"@
    } else if cat_java_missing(t) {
        "java_not_found"@
    } else if cat_oom(t) {
        "out_of_memory"@
    } else if cat_gpu(t) {
        "gpu_opengl"@
    } else if cat_lwjgl(t) {
        "lwjgl"@
    } else if cat_mixin(t) {
        "mixin_injection"@
    } else if cat_mod_conflict(t) {
        "mod_conflict"@
    } else if cat_forge(t) {
        "forge_loader"@
    } else if cat_fabric(t) {
        "fabric_loader"@
    } else if cat_file_missing(t) {
        "missing_file"@
    } else if cat_permission(t) {
        "permission_denied"@
    } else if cat_network(t) {
        "network"@
    } else if cat_generic(t) {
        "crash"@
    } else {
        "unknown"@
    }
}

/// The decimal representation of a possibly negative exit code.
pub open spec fn code_rep(code: int) -> Seq<char> {
    if code < 0 {
        "-"@ + dec_rep((-code) as nat)
    } else {
        dec_rep(code as nat)
    }
}

/// The default detail line: the exit code spelled out.
pub open spec fn default_details(code: int) -> Seq<char> {
    "exit code: "@ + code_rep(code)
}

/// The detail line of a Java-version mismatch, narrowed by the class-file
/// version or classloader complaint found in the log.
pub open spec fn java_version_details(t: Seq<char>) -> Seq<char> {
    if contains_seq(t, "class file version 65"@) || contains_seq(t, "java 21"@) {
        "the game needs java 21, but the selected java is older"@
    } else if contains_seq(t, "class file version 61"@) || contains_seq(t, "java 17"@) {
        "the game needs java 17, but the selected java is older"@
    } else if contains_seq(t, "class file version 52"@) {
        "the game needs java 8; the selected java may be incompatible"@
    } else if contains_seq(t, "urlclassloader"@) || contains_seq(t, "appclassloader"@) {
        "the game or a mod uses the legacy urlclassloader api and needs java 8"@
    } else if contains_seq(t, "module java.base"@) {
        "java module system conflict, usually from a too-new java"@
    } else {
        "the java version does not match what the game needs"@
    }
}

/// The first log line that names the missing-file exception, if any.
pub open spec fn first_missing_file_line(lines: Seq<Seq<char>>) -> Option<Seq<char>>
    decreases lines.len(),
{
    if lines.len() == 0 {
        Option::None
    } else if contains_seq(lower_seq(lines[0]), "filenotfoundexception"@) || contains_seq(
        lower_seq(lines[0]),
        "nosuchfileexception"@,
    ) {
        Option::Some(lines[0])
    } else {
        first_missing_file_line(lines.drop_first(), )
    }
}

/// The last log line that names an exception and is not a stack frame,
/// if any.
pub open spec fn last_exception_line(lines: Seq<Seq<char>>) -> Option<Seq<char>>
    decreases lines.len(),
{
    if lines.len() == 0 {
        Option::None
    } else if (contains_seq(lower_seq(lines.last()), "exception"@) || contains_seq(
        lower_seq(lines.last()),
        "error"@,
    )) && !contains_seq(lower_seq(lines.last()), "at "@) {
        Option::Some(lines.last())
    } else {
        last_exception_line(lines.drop_last())
    }
}

/// The detail line of the first matching category.
pub open spec fn details_of(t: Seq<char>, lines: Seq<Seq<char>>, code: int) -> Seq<char> {
    if cat_java_version(t) {
        java_version_details(t)
    } else if cat_java_missing(t) {
        "java could not be found or did not start"@
    } else if cat_oom(t) {
        "the game ran out of memory"@
    } else if cat_gpu(t) {
        "graphics rendering failed; likely a driver or opengl version problem"@
    } else if cat_lwjgl(t) {
        "the lwjgl graphics library failed to load"@
    } else if cat_mixin(t) {
        "a mod failed while injecting code; usually a mod incompatibility"@
    } else if cat_mod_conflict(t) {
        "conflicting mods were detected"@
    } else if cat_forge(t) {
        "the forge mod loader failed to start"@
    } else if cat_fabric(t) {
        "the fabric mod loader failed to start"@
    } else if cat_file_missing(t) {
        match first_missing_file_line(lines) {
            Option::Some(l) => "missing file: "@ + l,
            Option::None => "some game files are missing or damaged"@,
        }
    } else if cat_permission(t) {
        "the game lacked permission to reach some files or directories"@
    } else if cat_network(t) {
        "a network connection failed"@
    } else if cat_generic(t) {
        match last_exception_line(lines) {
            Option::Some(l) => l,
            Option::None => default_details(code),
        }
    } else {
        default_details(code)
    }
}

/// The fixed suggestions of the first matching category.
pub open spec fn suggestions_of(t: Seq<char>) -> Seq<Seq<char>> {
    if cat_java_version(t) {
        seq![
            "game versions 1.8 through 1.16 need java 8"@,
            "game version 1.17 needs java 16 or newer"@,
            "game versions 1.18 through 1.20.4 need java 17 or newer"@,
            "game versions 1.20.5 and newer need java 21 or newer"@,
            "older forge builds and mods may need java 8"@,
            "pick the matching java in the version settings"@,
        ]
    } else if cat_java_missing(t) {
        seq![
            "check that the java path is correct"@,
            "check that java is properly installed"@,
            "select the java path again"@,
        ]
    } else if cat_oom(t) {
        seq![
            "give the game more memory, 4 gb or more"@,
            "close other memory-hungry programs"@,
            "lower the render distance and graphics settings"@,
            "with many mods installed, remove some"@,
        ]
    } else if cat_gpu(t) {
        seq![
            "update the graphics driver"@,
            "check that the gpu supports opengl 4.4 or newer"@,
            "lower the graphics quality in the game settings"@,
            "disable optifine or shaders if in use"@,
        ]
    } else if cat_lwjgl(t) {
        seq![
            "download the game version again"@,
            "check that the natives files are complete"@,
            "update the graphics driver"@,
            "check that no antivirus blocked the native libraries"@,
        ]
    } else if cat_mixin(t) {
        seq![
            "check that the mods match the game version"@,
            "remove the most recently added mods"@,
            "check for mods patching the same game code"@,
            "update all mods to their latest builds"@,
        ]
    } else if cat_mod_conflict(t) {
        seq![
            "check for duplicate mods"@,
            "find out which mods are incompatible"@,
            "bisect the mod list to find the culprit"@,
        ]
    } else if cat_forge(t) {
        seq![
            "check that the forge build matches the game version"@,
            "reinstall forge"@,
            "check for incompatible mods"@,
            "check that the java version is right"@,
        ]
    } else if cat_fabric(t) {
        seq![
            "check that the fabric build matches the game version"@,
            "check that the fabric api is installed"@,
            "check that the mods match the fabric build"@,
        ]
    } else if cat_file_missing(t) {
        seq![
            "download the game version again"@,
            "check that the game directory is complete"@,
            "check that no antivirus removed game files"@,
            "check the free disk space"@,
        ]
    } else if cat_permission(t) {
        seq![
            "run the launcher with higher privileges"@,
            "check the permissions of the game directory"@,
            "check that no antivirus blocks the game"@,
            "install the game into another directory"@,
        ]
    } else if cat_network(t) {
        seq![
            "check the network connection"@,
            "check the authentication servers when signed in"@,
            "try another network"@,
        ]
    } else if cat_generic(t) {
        seq![
            "read the full log for details"@,
            "start the game again"@,
            "reinstall the game if the crash persists"@,
            "check whether a mod causes the crash"@,
        ]
    } else {
        seq![
            "read the game log for details"@,
            "start the game again"@,
            "check that the game files are complete"@,
            "try another java version"@,
        ]
    }
}

/// The decimal text of a possibly negative exit code.
pub fn code_to_string(code: i32) -> (r: String)
    ensures
        r@ == code_rep(code as int),
{
    let mut v: Vec<char> = Vec::new();
    if code < 0 {
        v.push('-');
        let mag = if code == i32::MIN {
            2147483648u64
        } else {
            (-code) as u64
        };
        push_dec_u64(mag, &mut v);
        proof {
            reveal_strlit("-");
            assert(v@ =~= "-"@ + dec_rep((-(code as int)) as nat));
        }
    } else {
        push_dec_u64(code as u64, &mut v);
        proof {
            assert(v@ =~= dec_rep(code as nat));
        }
    }
    chars_to_string(&v)
}

/// The default detail line for `code`.
fn default_details_exec(code: i32) -> (r: String)
    ensures
        r@ == default_details(code as int),
{
    let mut r = "exit code: ".to_owned();
    r.append(code_to_string(code).as_str());
    r
}

/// The first log line naming the missing-file exception.
fn find_missing_file_line(lines: &Vec<String>) -> (r: Option<String>)
    ensures
        crate::model::opt_str_view(r) == first_missing_file_line(string_views(lines@)),
{
    let ghost lv = string_views(lines@);
    proof {
        assert(lv.subrange(0, lv.len() as int) =~= lv);
    }
    let pat1 = str_chars("filenotfoundexception");
    let pat2 = str_chars("nosuchfileexception");
    let mut i: usize = 0;
    while i < lines.len()
        invariant
            i <= lv.len(),
            lv == string_views(lines@),
            lv.len() == lines@.len(),
            pat1@ == "filenotfoundexception"@,
            pat2@ == "nosuchfileexception"@,
            first_missing_file_line(lv) == first_missing_file_line(
                lv.subrange(i as int, lv.len() as int),
            ),
        decreases lv.len() - i,
    {
        let ghost pre = lv.subrange(i as int, lv.len() as int);
        let low = to_ascii_lower(&str_chars(lines[i].as_str()));
        if contains_chars(&low, &pat1) || contains_chars(&low, &pat2) {
            proof {
                assert(pre[0] == lv[i as int]);
            }
            return Option::Some(lines[i].clone());
        }
        i = i + 1;
        proof {
            assert(pre[0] == lv[i - 1]);
            assert(pre.drop_first() =~= lv.subrange(i as int, lv.len() as int));
        }
    }
    proof {
        assert(lv.subrange(lv.len() as int, lv.len() as int) =~= Seq::<Seq<char>>::empty());
    }
    Option::None
}

/// The last log line naming an exception outside a stack frame.
fn find_last_exception_line(lines: &Vec<String>) -> (r: Option<String>)
    ensures
        crate::model::opt_str_view(r) == last_exception_line(string_views(lines@)),
{
    let ghost lv = string_views(lines@);
    proof {
        assert(lv.subrange(0, lv.len() as int) =~= lv);
    }
    let exc = str_chars("exception");
    let err = str_chars("error");
    let frame = str_chars("at ");
    let mut i: usize = lines.len();
    while i > 0
        invariant
            i <= lv.len(),
            lv == string_views(lines@),
            lv.len() == lines@.len(),
            exc@ == "exception"@,
            err@ == "error"@,
            frame@ == "at "@,
            last_exception_line(lv) == last_exception_line(lv.subrange(0, i as int)),
        decreases i,
    {
        let ghost pre = lv.subrange(0, i as int);
        i = i - 1;
        let low = to_ascii_lower(&str_chars(lines[i].as_str()));
        if (contains_chars(&low, &exc) || contains_chars(&low, &err)) && !contains_chars(
            &low,
            &frame,
        ) {
            proof {
                assert(pre.last() == lv[i as int]);
            }
            return Option::Some(lines[i].clone());
        }
        proof {
            assert(pre.last() == lv[i as int]);
            assert(pre.drop_last() =~= lv.subrange(0, i as int));
        }
    }
    proof {
        assert(lv.subrange(0, 0) =~= Seq::<Seq<char>>::empty());
    }
    Option::None
}

/// Pushes the fixed suggestion literals of one category.
fn push_suggestions(out: &mut Vec<String>, a: &str, b: &str, c: &str)
    ensures
        string_views(final (out)@) == string_views(old(out)@) + seq![a@, b@, c@],
{
    let ghost acc0 = string_views(out@);
    out.push(a.to_owned());
    out.push(b.to_owned());
    out.push(c.to_owned());
    proof {
        assert(string_views(out@) =~~= acc0 + seq![a@, b@, c@]);
    }
}

/// Classifies a crash from its log lines and exit code.
///
/// The cascade is evaluated on the lower-cased, newline-joined log text in
/// a fixed priority order; the first matching category decides the reason
/// label, the detail line and the suggestion list.
pub fn classify(lines: &Vec<String>, exit_code: i32) -> (r: CrashClassification)
    ensures
        ({
            let t = lowered_log(string_views(lines@));
            &&& r.reason@ == reason_of(t)
            &&& r.details@ == details_of(t, string_views(lines@), exit_code as int)
            &&& string_views(r.suggestions@) == suggestions_of(t)
            &&& r.exit_code == exit_code
        }),
{
    let joined = join_with(lines, "\n");
    let low = to_ascii_lower(&str_chars(joined.as_str()));
    let ghost t = lowered_log(string_views(lines@));
    proof {
        assert(low@ == t);
    }
    let reason: String;
    let details: String;
    let mut suggestions: Vec<String> = Vec::new();
    if has(&low, "unsupportedclassversionerror") || has(&low, "class file version") || has(
        &low,
        "has been compiled by a more recent version",
    ) || (has(&low, "classcastexception") && has(&low, "urlclassloader")) || has(
        &low,
        "cannot be cast to class java.net.urlclassloader",
    ) || has(&low, "appclassloader cannot be cast") || has(&low, "module java.base") || (has(
        &low,
        "illegalaccesserror",
    ) && has(&low, "module")) {
        reason = "java_version_mismatch".to_owned();
        details = if has(&low, "class file version 65") || has(&low, "java 21") {
            "the game needs java 21, but the selected java is older".to_owned()
        } else if has(&low, "class file version 61") || has(&low, "java 17") {
            "the game needs java 17, but the selected java is older".to_owned()
        } else if has(&low, "class file version 52") {
            "the game needs java 8; the selected java may be incompatible".to_owned()
        } else if has(&low, "urlclassloader") || has(&low, "appclassloader") {
            "the game or a mod uses the legacy urlclassloader api and needs java 8".to_owned()
        } else if has(&low, "module java.base") {
            "java module system conflict, usually from a too-new java".to_owned()
        } else {
            "the java version does not match what the game needs".to_owned()
        };
        push_suggestions(
            &mut suggestions,
            "game versions 1.8 through 1.16 need java 8",
            "game version 1.17 needs java 16 or newer",
            "game versions 1.18 through 1.20.4 need java 17 or newer",
        );
        push_suggestions(
            &mut suggestions,
            "game versions 1.20.5 and newer need java 21 or newer",
            "older forge builds and mods may need java 8",
            "pick the matching java in the version settings",
        );
    } else if has(&low, "cannot find java") || has(&low, "java not found") || has(
        &low,
        "'java' is not recognized",
    ) || has(&low, "error: could not find or load main class") {
        reason = "java_not_found".to_owned();
        details = "java could not be found or did not start".to_owned();
        push_suggestions(
            &mut suggestions,
            "check that the java path is correct",
            "check that java is properly installed",
            "select the java path again",
        );
    } else if has(&low, "outofmemoryerror") || has(&low, "out of memory") || has(
        &low,
        "gc overhead limit exceeded",
    ) || has(&low, "java heap space") {
        reason = "out_of_memory".to_owned();
        details = "the game ran out of memory".to_owned();
        push_suggestions(
            &mut suggestions,
            "give the game more memory, 4 gb or more",
            "close other memory-hungry programs",
            "lower the render distance and graphics settings",
        );
        push_one(&mut suggestions, "with many mods installed, remove some");
    } else if (has(&low, "opengl") || has(&low, "gl error")) && (has(&low, "error") || has(
        &low,
        "failed",
    ) || has(&low, "not supported")) {
        reason = "gpu_opengl".to_owned();
        details = "graphics rendering failed; likely a driver or opengl version problem".to_owned();
        push_suggestions(
            &mut suggestions,
            "update the graphics driver",
            "check that the gpu supports opengl 4.4 or newer",
            "lower the graphics quality in the game settings",
        );
        push_one(&mut suggestions, "disable optifine or shaders if in use");
    } else if has(&low, "lwjgl") && (has(&low, "error") || has(&low, "failed") || has(
        &low,
        "exception",
    )) {
        reason = "lwjgl".to_owned();
        details = "the lwjgl graphics library failed to load".to_owned();
        push_suggestions(
            &mut suggestions,
            "download the game version again",
            "check that the natives files are complete",
            "update the graphics driver",
        );
        push_one(&mut suggestions, "check that no antivirus blocked the native libraries");
    } else if has(&low, "mixin") && (has(&low, "error") || has(&low, "failed") || has(
        &low,
        "exception",
    )) {
        reason = "mixin_injection".to_owned();
        details = "a mod failed while injecting code; usually a mod incompatibility".to_owned();
        push_suggestions(
            &mut suggestions,
            "check that the mods match the game version",
            "remove the most recently added mods",
            "check for mods patching the same game code",
        );
        push_one(&mut suggestions, "update all mods to their latest builds");
    } else if (has(&low, "mod") || has(&low, "fabric") || has(&low, "forge")) && (has(
        &low,
        "conflict",
    ) || has(&low, "duplicate") || has(&low, "incompatible")) {
        reason = "mod_conflict".to_owned();
        details = "conflicting mods were detected".to_owned();
        push_suggestions(
            &mut suggestions,
            "check for duplicate mods",
            "find out which mods are incompatible",
            "bisect the mod list to find the culprit",
        );
    } else if (has(&low, "forge") || has(&low, "fml")) && (has(&low, "error") || has(
        &low,
        "failed",
    ) || has(&low, "exception")) {
        reason = "forge_loader".to_owned();
        details = "the forge mod loader failed to start".to_owned();
        push_suggestions(
            &mut suggestions,
            "check that the forge build matches the game version",
            "reinstall forge",
            "check for incompatible mods",
        );
        push_one(&mut suggestions, "check that the java version is right");
    } else if has(&low, "fabric") && (has(&low, "error") || has(&low, "failed")) {
        reason = "fabric_loader".to_owned();
        details = "the fabric mod loader failed to start".to_owned();
        push_suggestions(
            &mut suggestions,
            "check that the fabric build matches the game version",
            "check that the fabric api is installed",
            "check that the mods match the fabric build",
        );
    } else if has(&low, "filenotfoundexception") || has(&low, "nosuchfileexception") || has(
        &low,
        "file not found",
    ) {
        reason = "missing_file".to_owned();
        details = match find_missing_file_line(lines) {
            Option::Some(l) => {
                let mut d = "missing file: ".to_owned();
                d.append(l.as_str());
                d
            },
            Option::None => "some game files are missing or damaged".to_owned(),
        };
        push_suggestions(
            &mut suggestions,
            "download the game version again",
            "check that the game directory is complete",
            "check that no antivirus removed game files",
        );
        push_one(&mut suggestions, "check the free disk space");
    } else if has(&low, "access denied") || has(&low, "permission denied") || has(
        &low,
        "accessdeniedexception",
    ) {
        reason = "permission_denied".to_owned();
        details = "the game lacked permission to reach some files or directories".to_owned();
        push_suggestions(
            &mut suggestions,
            "run the launcher with higher privileges",
            "check the permissions of the game directory",
            "check that no antivirus blocks the game",
        );
        push_one(&mut suggestions, "install the game into another directory");
    } else if has(&low, "connection") && (has(&low, "refused") || has(&low, "timeout") || has(
        &low,
        "reset",
    )) {
        reason = "network".to_owned();
        details = "a network connection failed".to_owned();
        push_suggestions(
            &mut suggestions,
            "check the network connection",
            "check the authentication servers when signed in",
            "try another network",
        );
    } else if has(&low, "exception") || has(&low, "error") {
        reason = "crash".to_owned();
        details = match find_last_exception_line(lines) {
            Option::Some(l) => l,
            Option::None => default_details_exec(exit_code),
        };
        push_suggestions(
            &mut suggestions,
            "read the full log for details",
            "start the game again",
            "reinstall the game if the crash persists",
        );
        push_one(&mut suggestions, "check whether a mod causes the crash");
    } else {
        reason = "unknown".to_owned();
        details = default_details_exec(exit_code);
        push_suggestions(
            &mut suggestions,
            "read the game log for details",
            "start the game again",
            "check that the game files are complete",
        );
        push_one(&mut suggestions, "try another java version");
    }
    proof {
        assert(reason@ == reason_of(t));
        assert(details@ == details_of(t, string_views(lines@), exit_code as int));
        assert(string_views(suggestions@) =~~= suggestions_of(t));
    }
    CrashClassification { reason, details, suggestions, exit_code }
}

/// Whether the lower-cased log holds the text of `pat`.
fn has(low: &Vec<char>, pat: &str) -> (r: bool)
    ensures
        r == contains_seq(low@, pat@),
{
    let pv = str_chars(pat);
    contains_chars(low, &pv)
}

/// Appends one fixed suggestion.
fn push_one(out: &mut Vec<String>, a: &str)
    ensures
        string_views(final (out)@) == string_views(old(out)@) + seq![a@],
{
    let ghost acc0 = string_views(out@);
    out.push(a.to_owned());
    proof {
        assert(string_views(out@) =~~= acc0 + seq![a@]);
    }
}

/// The last `n` lines of a log, or all of them when there are fewer.
pub fn log_tail(lines: &Vec<String>, n: usize) -> (r: Vec<String>)
    ensures
        string_views(r@) == if lines@.len() <= n {
            string_views(lines@)
        } else {
            string_views(lines@).skip(lines@.len() - n)
        },
{
    let start = if lines.len() <= n {
        0
    } else {
        lines.len() - n
    };
    let mut r: Vec<String> = Vec::new();
    let mut i: usize = start;
    while i < lines.len()
        invariant
            start <= i <= lines@.len(),
            string_views(r@) == string_views(lines@).subrange(start as int, i as int),
        decreases lines@.len() - i,
    {
        let ghost prev = string_views(r@);
        r.push(lines[i].clone());
        i = i + 1;
        proof {
            assert(string_views(r@) =~~= prev.push(lines@[i - 1]@));
            assert(string_views(lines@).subrange(start as int, i as int) =~= string_views(
                lines@,
            ).subrange(start as int, i - 1).push(string_views(lines@)[i - 1]));
            assert(string_views(r@) =~~= string_views(lines@).subrange(start as int, i as int));
        }
    }
    proof {
        assert(string_views(r@) =~= string_views(lines@).subrange(
            start as int,
            lines@.len() as int,
        ));
        if lines@.len() <= n {
            assert(string_views(lines@).subrange(0, lines@.len() as int) =~= string_views(lines@));
        } else {
            assert(string_views(lines@).subrange(start as int, lines@.len() as int)
                =~= string_views(lines@).skip(lines@.len() - n));
        }
    }
    r
}

} // verus!

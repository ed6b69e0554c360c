//! Launch planning: from installed manifests, settings and the selected
//! account to the full process invocation — program, JVM arguments, main
//! class and game arguments — with the configuration and manifest errors
//! told apart exactly.
use vstd::prelude::*;
use crate::accounts::{select_account, selected_account, AccountsData};
use crate::args::{
    build_game_args, build_jvm_args, game_args_spec, jvm_args_spec, jvm_vars_spec, jvm_variables,
};
use crate::classpath::{
    build_classpath, classpath_spec, first_chain_jar, jar_path, jar_path_spec,
};
use crate::merge::{
    chain_ids_view, merge_chain_view, merge_version_chain, spec_chain, MergeError,
};
use crate::model::{descriptors_view, opt_str_view, FileSet, VersionDescriptor};
use crate::natives::{native_archives_spec, resolve_native_archives};
use crate::platform::{classpath_sep_spec, path_join, path_join_spec, Os};
use crate::settings::{
    effective_java_spec, effective_memory, effective_memory_spec, effective_window,
    effective_window_spec, resolve_java_path, LauncherSettings,
};
use crate::text::{contains_seq, join_spec, lower_seq, str_chars, string_views, to_ascii_lower};

verus! {

/// Why a launch could not even be planned.
#[derive(Clone, Copy, Debug, PartialEq, Eq, Structural)]
pub enum LaunchError {
    /// No account is selected and none was named.
    NoAccount,
    /// No usable Java path is configured for this version.
    NoJavaPath,
    /// The version's inheritance chain is cyclic.
    CyclicInheritance,
    /// The merged descriptor names no main class.
    MissingMainClass,
}

/// A fully planned process invocation.
#[derive(Debug)]
pub struct LaunchCommand {
    /// The Java executable to spawn.
    pub program: String,
    /// Every JVM argument, the classpath pair last.
    pub jvm_args: Vec<String>,
    /// The main class between JVM and game arguments.
    pub main_class: String,
    /// Every game argument.
    pub game_args: Vec<String>,
    /// The working directory of the child process.
    pub working_dir: String,
    /// The directory natives are extracted into before the spawn.
    pub natives_dir: String,
    /// The native archives to extract, in order.
    pub native_archives: Vec<String>,
}

/// The natives directory of a version.
pub open spec fn natives_dir_spec(mc_dir: Seq<char>, vid: Seq<char>, os: Os) -> Seq<char> {
    path_join_spec(
        path_join_spec(path_join_spec(mc_dir, "versions"@, os), vid, os),
        "natives"@,
        os,
    )
}

/// The jar handed to templates as the primary jar: the first existing jar
/// along the chain, or the version's own (possibly absent) jar path.
pub open spec fn primary_jar_spec(
    chain: Seq<Seq<char>>,
    mc_dir: Seq<char>,
    vid: Seq<char>,
    os: Os,
    files: FileSet,
) -> Seq<char> {
    match first_chain_jar(chain, mc_dir, os, files) {
        Option::Some(j) => j,
        Option::None => jar_path_spec(mc_dir, vid, os),
    }
}

/// Plans a launch of version `leaf` for one account.
///
/// Success is owed exactly when an account is found, a Java path is
/// configured, the inheritance chain is acyclic, and the merged descriptor
/// resolves a main class — in that order of failure. The planned command
/// carries the resolved classpath, JVM arguments, game arguments and the
/// native archives to extract, each pinned to its resolver's
/// specification.
pub fn plan_launch(
    table: &Vec<VersionDescriptor>,
    leaf: &VersionDescriptor,
    version_id: &String,
    settings: &LauncherSettings,
    accounts: &AccountsData,
    account_id: &Option<String>,
    mc_dir: &String,
    os: Os,
    arch64: bool,
    files: &FileSet,
) -> (r: Result<LaunchCommand, LaunchError>)
    ensures
        ({
            let account = selected_account(*accounts, opt_str_view(*account_id));
            let java = effective_java_spec(*settings, version_id@);
            let ch = spec_chain(descriptors_view(table@), leaf@, seq![leaf@.id], table@.len());
            match r {
                Result::Err(LaunchError::NoAccount) => account is None,
                Result::Err(LaunchError::NoJavaPath) => account is Some && java is None,
                Result::Err(LaunchError::CyclicInheritance) => account is Some && java is Some
                    && ch is None,
                Result::Err(LaunchError::MissingMainClass) => account is Some && java is Some
                    && ch is Some && merge_chain_view(ch.unwrap()).main_class is None,
                Result::Ok(cmd) => {
                    let m = merge_chain_view(ch.unwrap());
                    let ids = chain_ids_view(ch.unwrap());
                    let mem = effective_memory_spec(*settings, version_id@);
                    let win = effective_window_spec(*settings, version_id@);
                    let lib_dir = path_join_spec(mc_dir@, "libraries"@, os);
                    let cp = join_spec(
                        classpath_spec(m.libraries, ids, mc_dir@, lib_dir, os, *files),
                        classpath_sep_spec(os),
                    );
                    let ndir = natives_dir_spec(mc_dir@, version_id@, os);
                    let pj = primary_jar_spec(ids, mc_dir@, version_id@, os, *files);
                    &&& account is Some
                    &&& java is Some
                    &&& ch is Some
                    &&& m.main_class is Some
                    &&& cmd.program@ == java.unwrap()
                    &&& cmd.main_class@ == m.main_class.unwrap()
                    &&& cmd.working_dir@ == mc_dir@
                    &&& cmd.natives_dir@ == ndir
                    &&& string_views(cmd.game_args@) == game_args_spec(
                        m,
                        version_id@,
                        account.unwrap(),
                        win.0,
                        win.1,
                        mc_dir@,
                        os,
                    )
                    &&& string_views(cmd.jvm_args@) == jvm_args_spec(
                        m,
                        mem.0,
                        mem.1,
                        ndir,
                        cp,
                        jvm_vars_spec(ndir, cp, mc_dir@, version_id@, pj, os),
                        os,
                    )
                    &&& string_views(cmd.native_archives@) == native_archives_spec(
                        m.libraries,
                        lib_dir,
                        os,
                        arch64,
                        *files,
                    )
                },
            }
        }),
{
    let account = match select_account(accounts, account_id) {
        Option::Some(a) => a,
        Option::None => {
            return Result::Err(LaunchError::NoAccount);
        },
    };
    let java = match resolve_java_path(settings, version_id) {
        Option::Some(p) => p,
        Option::None => {
            return Result::Err(LaunchError::NoJavaPath);
        },
    };
    let merged = match merge_version_chain(table, leaf) {
        Result::Ok(m) => m,
        Result::Err(MergeError::CyclicInheritance) => {
            return Result::Err(LaunchError::CyclicInheritance);
        },
    };
    let main_class = match &merged.descriptor.main_class {
        Option::Some(c) => c.clone(),
        Option::None => {
            return Result::Err(LaunchError::MissingMainClass);
        },
    };
    let (mem_min, mem_max) = effective_memory(settings, version_id);
    let window = effective_window(settings, version_id);
    let versions_dir = path_join(mc_dir, "versions", os);
    let version_dir = path_join(&versions_dir, version_id.as_str(), os);
    let natives_dir = path_join(&version_dir, "natives", os);
    let classpath = build_classpath(&merged.descriptor, &merged.chain, mc_dir, os, files);
    let primary_jar = match first_existing_jar(&merged.chain, mc_dir, os, files) {
        Option::Some(p) => p,
        Option::None => jar_path(mc_dir, version_id, os),
    };
    let jvars = jvm_variables(&natives_dir, &classpath, mc_dir, version_id, &primary_jar, os);
    let jvm_args = build_jvm_args(
        &merged.descriptor,
        mem_min,
        mem_max,
        &natives_dir,
        &classpath,
        &jvars,
        os,
    );
    let game_args = build_game_args(&merged.descriptor, version_id, &account, &window, mc_dir, os);
    let native_archives = resolve_native_archives(&merged.descriptor, mc_dir, os, arch64, files);
    Result::Ok(
        LaunchCommand {
            program: java,
            jvm_args,
            main_class,
            game_args,
            working_dir: mc_dir.clone(),
            natives_dir,
            native_archives,
        },
    )
}

/// The first id of `chain` whose jar file exists, resolved to that jar's
/// path.
fn first_existing_jar(
    chain: &Vec<String>,
    mc_dir: &String,
    os: Os,
    files: &FileSet,
) -> (r: Option<String>)
    ensures
        opt_str_view(r) == first_chain_jar(string_views(chain@), mc_dir@, os, *files),
{
    let ghost ids = string_views(chain@);
    proof {
        assert(ids.subrange(0, ids.len() as int) =~= ids);
    }
    let mut j: usize = 0;
    while j < chain.len()
        invariant
            j <= chain@.len(),
            ids == string_views(chain@),
            ids.len() == chain@.len(),
            first_chain_jar(ids, mc_dir@, os, *files) == first_chain_jar(
                ids.subrange(j as int, ids.len() as int),
                mc_dir@,
                os,
                *files,
            ),
        decreases chain@.len() - j,
    {
        let ghost pre = ids.subrange(j as int, ids.len() as int);
        let jp = jar_path(mc_dir, &chain[j], os);
        proof {
            assert(pre[0] == ids[j as int]);
        }
        if files.contains(&jp) {
            return Option::Some(jp);
        }
        j = j + 1;
        proof {
            assert(pre.drop_first() =~= ids.subrange(j as int, ids.len() as int));
        }
    }
    proof {
        assert(ids.subrange(ids.len() as int, ids.len() as int) =~= Seq::<Seq<char>>::empty());
    }
    Option::None
}

/// A valid version name for a rename: non-empty and free of path
/// separators and drive colons.
pub open spec fn version_name_ok(s: Seq<char>) -> bool {
    s.len() > 0 && forall|i: int| 0 <= i < s.len() ==> s[i] != '/' && s[i] != '\\' && s[i] != ':'
}

/// Whether `s` may serve as a version directory name.
pub fn valid_version_name(s: &String) -> (r: bool)
    ensures
        r == version_name_ok(s@),
{
    let chars = str_chars(s.as_str());
    if chars.len() == 0 {
        return false;
    }
    let mut i: usize = 0;
    while i < chars.len()
        invariant
            i <= chars@.len(),
            chars@ == s@,
            forall|j: int| 0 <= j < i ==> s@[j] != '/' && s@[j] != '\\' && s@[j] != ':',
        decreases chars@.len() - i,
    {
        let c = chars[i];
        if c == '/' || c == '\\' || c == ':' {
            return false;
        }
        i = i + 1;
    }
    true
}

/// The major Java version a launch needs: what the manifest says when it
/// says anything, else inferred from the version id, defaulting to 8.
pub open spec fn required_java_spec(java_major: Option<u32>, vid: Seq<char>) -> u32 {
    match java_major {
        Option::Some(v) => v,
        Option::None => {
            let low = lower_seq(vid);
            if contains_seq(low, "1.20"@) || contains_seq(low, "1.21"@) {
                21
            } else if contains_seq(low, "1.18"@) || contains_seq(low, "1.19"@) {
                17
            } else if contains_seq(low, "1.17"@) {
                16
            } else {
                8
            }
        },
    }
}

/// Resolves the major Java version required for `version_id`.
pub fn required_java_version(java_major: Option<u32>, version_id: &String) -> (r: u32)
    ensures
        r == required_java_spec(java_major, version_id@),
{
    match java_major {
        Option::Some(v) => v,
        Option::None => {
            let low = to_ascii_lower(&str_chars(version_id.as_str()));
            let p20 = str_chars("1.20");
            let p21 = str_chars("1.21");
            let p18 = str_chars("1.18");
            let p19 = str_chars("1.19");
            let p17 = str_chars("1.17");
            if crate::text::contains_chars(&low, &p20) || crate::text::contains_chars(
                &low,
                &p21,
            ) {
                21
            } else if crate::text::contains_chars(&low, &p18) || crate::text::contains_chars(
                &low,
                &p19,
            ) {
                17
            } else if crate::text::contains_chars(&low, &p17) {
                16
            } else {
                8
            }
        },
    }
}

/// What the launcher window does once the game is running.
#[derive(Clone, Copy, Debug, PartialEq, Eq, Structural)]
pub enum WindowDirective {
    /// Hide the launcher window and leave it hidden.
    Hide,
    /// Hide the launcher window and restore it when every game exits.
    HideUntilExit,
    /// Quit the launcher.
    Exit,
    /// Leave the window as it is.
    Keep,
}

/// The directive a launcher-behavior setting decodes to.
pub open spec fn directive_spec(behavior: Seq<char>) -> WindowDirective {
    if behavior == "auto-hide"@ {
        WindowDirective::Hide
    } else if behavior == "hide-when-game-front"@ {
        WindowDirective::HideUntilExit
    } else if behavior == "auto-exit"@ {
        WindowDirective::Exit
    } else {
        WindowDirective::Keep
    }
}

/// Decodes a launcher-behavior setting.
pub fn behavior_directive(behavior: &String) -> (r: WindowDirective)
    ensures
        r == directive_spec(behavior@),
{
    if crate::text::string_is(behavior, "auto-hide") {
        WindowDirective::Hide
    } else if crate::text::string_is(behavior, "hide-when-game-front") {
        WindowDirective::HideUntilExit
    } else if crate::text::string_is(behavior, "auto-exit") {
        WindowDirective::Exit
    } else {
        WindowDirective::Keep
    }
}

} // verus!

//! The native-library extractor's decision logic: which archives hold the
//! platform's native binaries, and which of their entries to copy out.
//!
//! Opening archives and writing files is left to the caller; this module
//! computes the archive paths to open and, given an archive's entry names,
//! the exact set of entries to extract and the flat file names to write.
use vstd::prelude::*;
use crate::args::{lookup_var, lookup_var_exec, subst_spec};
use crate::classpath::{dots_to_slashes, dots_to_slashes_exec};
use crate::model::{
    string_pairs_view, FileSet, LibraryArtifactView, LibraryEntry, LibraryEntryView,
    VersionDescriptor,
};
use crate::platform::{os_key_spec, os_key_str, path_join, path_join_spec, Os};
use crate::rules::{check_rules, eval_rules};
use crate::text::{
    chars_to_string, ends_with_seq, split_chars, split_spec, starts_with_seq, str_chars,
    string_views, SepClass,
};

verus! {

/// The native classifier key template recorded for the platform named by
/// `os_key`, if the library has a natives map with that OS.
pub open spec fn natives_key(l: LibraryEntryView, os_key: Seq<char>) -> Option<Seq<char>> {
    match l.natives {
        Option::None => Option::None,
        Option::Some(pairs) => lookup_var(pairs, os_key),
    }
}

/// The `${arch}` replacement: the pointer width as manifests spell it.
pub open spec fn arch_str_spec(arch64: bool) -> Seq<char> {
    if arch64 {
        "64"@
    } else {
        "32"@
    }
}

/// The path recorded under classifier `key` in the library's download
/// section, if any.
pub open spec fn classifier_path(l: LibraryEntryView, key: Seq<char>) -> Option<Seq<char>> {
    match l.downloads {
        Option::Some(d) => classifier_lookup(d.classifiers, key),
        Option::None => Option::None,
    }
}

/// The first classifier record with the given key.
pub open spec fn classifier_lookup(
    cs: Seq<(Seq<char>, LibraryArtifactView)>,
    key: Seq<char>,
) -> Option<Seq<char>>
    decreases cs.len(),
{
    if cs.len() == 0 {
        Option::None
    } else if cs[0].0 == key {
        Option::Some(cs[0].1.path)
    } else {
        classifier_lookup(cs.drop_first(), key)
    }
}

/// The legacy path of a native archive below the libraries root, derived
/// from Maven coordinates and the classifier key:
/// `group/artifact/version/artifact-version-key.jar`.
pub open spec fn maven_native_rel(name: Seq<char>, key: Seq<char>, os: Os) -> Option<Seq<char>> {
    let parts = split_spec(name, SepClass::Exact(':'));
    if parts.len() < 3 {
        Option::None
    } else {
        let group = dots_to_slashes(parts[0]);
        let filename = parts[1] + "-"@ + parts[2] + "-"@ + key + ".jar"@;
        Option::Some(
            group + crate::platform::path_sep_spec(os) + parts[1]
                + crate::platform::path_sep_spec(os) + parts[2]
                + crate::platform::path_sep_spec(os) + filename,
        )
    }
}

/// The native archive one library contributes for the platform: resolved
/// through the modern classifier record first, else through the legacy
/// Maven-derived name; `None` when its rules reject the platform or it
/// carries no natives for it.
pub open spec fn native_archive(
    l: LibraryEntryView,
    lib_dir: Seq<char>,
    os: Os,
    arch64: bool,
) -> Option<Seq<char>> {
    if eval_rules(l.rules, os_key_spec(os)) {
        match natives_key(l, os_key_spec(os)) {
            Option::Some(tmpl) => {
                let key = subst_spec(tmpl, seq![("arch"@, arch_str_spec(arch64))]);
                match classifier_path(l, key) {
                    Option::Some(p) => Option::Some(path_join_spec(lib_dir, p, os)),
                    Option::None => match l.name {
                        Option::Some(n) => match maven_native_rel(n, key, os) {
                            Option::Some(rel) => Option::Some(path_join_spec(lib_dir, rel, os)),
                            Option::None => Option::None,
                        },
                        Option::None => Option::None,
                    },
                }
            },
            Option::None => Option::None,
        }
    } else {
        Option::None
    }
}

/// A library's native archive when its file exists; a missing archive is
/// skipped, not an error.
pub open spec fn existing_native_archive(
    l: LibraryEntryView,
    lib_dir: Seq<char>,
    os: Os,
    arch64: bool,
    files: FileSet,
) -> Option<Seq<char>> {
    match native_archive(l, lib_dir, os, arch64) {
        Option::Some(p) => if files.has(p) {
            Option::Some(p)
        } else {
            Option::None
        },
        Option::None => Option::None,
    }
}

/// The native archives of a whole library list, in list order.
pub open spec fn native_archives_spec(
    libs: Seq<LibraryEntryView>,
    lib_dir: Seq<char>,
    os: Os,
    arch64: bool,
    files: FileSet,
) -> Seq<Seq<char>> {
    libs.filter_map(
        |l: LibraryEntryView| existing_native_archive(l, lib_dir, os, arch64, files),
    )
}

/// Exec resolution of one library's native archive path.
fn native_archive_exec(l: &LibraryEntry, lib_dir: &String, os: Os, arch64: bool) -> (r: Option<
    String,
>)
    ensures
        crate::model::opt_str_view(r) == native_archive(l@, lib_dir@, os, arch64),
{
    if !check_rules(&l.rules, os) {
        return Option::None;
    }
    let pairs = match &l.natives {
        Option::Some(p) => p,
        Option::None => {
            return Option::None;
        },
    };
    let okey = str_chars(os_key_str(os));
    let tmpl = match lookup_var_exec(pairs, &okey) {
        Option::Some(t) => t,
        Option::None => {
            return Option::None;
        },
    };
    let mut arch_vars: Vec<(String, String)> = Vec::new();
    arch_vars.push((
        "arch".to_owned(),
        if arch64 {
            "64".to_owned()
        } else {
            "32".to_owned()
        },
    ));
    proof {
        assert(string_pairs_view(arch_vars@) =~~= seq![("arch"@, arch_str_spec(arch64))]);
    }
    let key = crate::args::replace_variables(&tmpl, &arch_vars);
    // modern format first: the classifier record names the archive
    if let Option::Some(d) = &l.downloads {
        let ghost cv = crate::model::classifiers_view(d.classifiers@);
        proof {
            assert(cv.subrange(0, cv.len() as int) =~= cv);
        }
        let mut i: usize = 0;
        while i < d.classifiers.len()
            invariant
                i <= d.classifiers@.len(),
                cv == crate::model::classifiers_view(d.classifiers@),
                cv.len() == d.classifiers@.len(),
                eval_rules(l@.rules, os_key_spec(os)),
                natives_key(l@, os_key_spec(os)) == Option::Some(tmpl@),
                key@ == subst_spec(tmpl@, seq![("arch"@, arch_str_spec(arch64))]),
                l@.downloads is Some && l@.downloads.unwrap().classifiers == cv,
                classifier_lookup(cv, key@) == classifier_lookup(
                    cv.subrange(i as int, cv.len() as int),
                    key@,
                ),
            decreases d.classifiers@.len() - i,
        {
            let ghost pre = cv.subrange(i as int, cv.len() as int);
            if d.classifiers[i].0.eq(&key) {
                proof {
                    assert(pre[0] == cv[i as int]);
                }
                return Option::Some(path_join(lib_dir, d.classifiers[i].1.path.as_str(), os));
            }
            i = i + 1;
            proof {
                assert(pre[0] == cv[i - 1]);
                assert(pre.drop_first() =~= cv.subrange(i as int, cv.len() as int));
            }
        }
        proof {
            assert(cv.subrange(cv.len() as int, cv.len() as int) =~= Seq::<
                (Seq<char>, LibraryArtifactView),
            >::empty());
        }
    }
    // legacy format: derive the archive name from the Maven coordinates
    let name = match &l.name {
        Option::Some(n) => n,
        Option::None => {
            return Option::None;
        },
    };
    let chars = str_chars(name.as_str());
    let parts = split_chars(&chars, SepClass::Exact(':'));
    proof {
        assert(crate::text::views_of(parts@) == split_spec(name@, SepClass::Exact(':')));
    }
    if parts.len() < 3 {
        return Option::None;
    }
    let group = dots_to_slashes_exec(&parts[0]);
    let mut filename = chars_to_string(&parts[1]);
    filename.append("-");
    filename.append(chars_to_string(&parts[2]).as_str());
    filename.append("-");
    filename.append(key.as_str());
    filename.append(".jar");
    let sep = crate::platform::path_separator(os);
    let mut rel = chars_to_string(&group);
    rel.append(sep);
    rel.append(chars_to_string(&parts[1]).as_str());
    rel.append(sep);
    rel.append(chars_to_string(&parts[2]).as_str());
    rel.append(sep);
    rel.append(filename.as_str());
    Option::Some(path_join(lib_dir, rel.as_str(), os))
}

/// Lists the native archives to extract for a launch: one path per
/// rule-passing library with natives for the platform, kept only when the
/// archive file exists.
pub fn resolve_native_archives(
    merged: &VersionDescriptor,
    mc_dir: &String,
    os: Os,
    arch64: bool,
    files: &FileSet,
) -> (r: Vec<String>)
    ensures
        string_views(r@) == native_archives_spec(
            crate::model::libraries_view(merged.libraries@),
            path_join_spec(mc_dir@, "libraries"@, os),
            os,
            arch64,
            *files,
        ),
{
    let ghost libs = crate::model::libraries_view(merged.libraries@);
    let ghost f = |l: LibraryEntryView| existing_native_archive(
        l,
        path_join_spec(mc_dir@, "libraries"@, os),
        os,
        arch64,
        *files,
    );
    let lib_dir = crate::classpath::libraries_dir(mc_dir, os);
    let mut r: Vec<String> = Vec::new();
    proof {
        assert(libs.subrange(0, 0) =~= Seq::<LibraryEntryView>::empty());
        assert(string_views(r@) =~= libs.subrange(0, 0).filter_map(f));
    }
    let mut i: usize = 0;
    while i < merged.libraries.len()
        invariant
            i <= merged.libraries@.len(),
            libs == crate::model::libraries_view(merged.libraries@),
            libs.len() == merged.libraries@.len(),
            lib_dir@ == path_join_spec(mc_dir@, "libraries"@, os),
            f == (|l: LibraryEntryView| existing_native_archive(
                l,
                path_join_spec(mc_dir@, "libraries"@, os),
                os,
                arch64,
                *files,
            )),
            string_views(r@) == libs.subrange(0, i as int).filter_map(f),
        decreases merged.libraries@.len() - i,
    {
        let ghost pre = libs.subrange(0, i as int);
        let ghost now = libs.subrange(0, i + 1);
        let ghost acc0 = string_views(r@);
        match native_archive_exec(&merged.libraries[i], &lib_dir, os, arch64) {
            Option::Some(p) => {
                if files.contains(&p) {
                    r.push(p);
                    proof {
                        assert(string_views(r@) =~~= acc0.push(r@[r@.len() - 1]@));
                    }
                }
            },
            Option::None => {},
        }
        i = i + 1;
        proof {
            assert(now.drop_last() =~= pre);
            assert(now.last() == libs[i - 1]);
            assert(now.filter_map(f) == if f(now.last()) is Some {
                now.drop_last().filter_map(f).push(f(now.last()).unwrap())
            } else {
                now.drop_last().filter_map(f)
            });
            assert(string_views(r@) =~~= now.filter_map(f));
        }
    }
    proof {
        assert(libs.subrange(0, libs.len() as int) =~= libs);
    }
    r
}

/// An archive entry that holds a native binary: not under the metadata
/// directory, not a directory entry, and named with a native extension.
pub open spec fn is_native_entry(name: Seq<char>) -> bool {
    &&& !starts_with_seq(name, "META-INF/"@)
    &&& !ends_with_seq(name, "/"@)
    &&& (ends_with_seq(name, ".dll"@) || ends_with_seq(name, ".so"@) || ends_with_seq(
        name,
        ".dylib"@,
    ) || ends_with_seq(name, ".jnilib"@))
}

/// The flat destination file name of an archive entry: its last
/// `/`-separated component.
pub open spec fn entry_base(name: Seq<char>) -> Seq<char> {
    split_spec(name, SepClass::Exact('/')).last()
}

/// The destinations already chosen by a plan.
pub open spec fn plan_dests(plan: Seq<(Seq<char>, Seq<char>)>) -> Seq<Seq<char>> {
    plan.map_values(|p: (Seq<char>, Seq<char>)| p.1)
}

/// One step of extraction planning: a native entry is planned unless its
/// flat destination already exists or an earlier entry claimed it.
pub open spec fn plan_step(
    acc: Seq<(Seq<char>, Seq<char>)>,
    name: Seq<char>,
    existing: FileSet,
) -> Seq<(Seq<char>, Seq<char>)> {
    if is_native_entry(name) && !existing.has(entry_base(name)) && !plan_dests(acc).contains(
        entry_base(name),
    ) {
        acc.push((name, entry_base(name)))
    } else {
        acc
    }
}

/// The extraction plan over a list of entry names, folded in order.
pub open spec fn plan_fold(
    names: Seq<Seq<char>>,
    acc: Seq<(Seq<char>, Seq<char>)>,
    existing: FileSet,
) -> Seq<(Seq<char>, Seq<char>)>
    decreases names.len(),
{
    if names.len() == 0 {
        acc
    } else {
        plan_fold(names.drop_first(), plan_step(acc, names[0], existing), existing)
    }
}

/// Whether some planned pair already writes to `dest`.
fn plan_has_dest(plan: &Vec<(String, String)>, dest: &String) -> (r: bool)
    ensures
        r == plan_dests(string_pairs_view(plan@)).contains(dest@),
{
    let mut i: usize = 0;
    while i < plan.len()
        invariant
            i <= plan@.len(),
            forall|j: int| 0 <= j < i ==> plan@[j].1@ != dest@,
        decreases plan@.len() - i,
    {
        if plan[i].1.eq(dest) {
            proof {
                assert(plan_dests(string_pairs_view(plan@))[i as int] == dest@);
            }
            return true;
        }
        i = i + 1;
    }
    proof {
        let pd = plan_dests(string_pairs_view(plan@));
        assert forall|j: int| 0 <= j < pd.len() implies pd[j] != dest@ by {
            assert(pd[j] == plan@[j].1@);
        }
    }
    false
}

/// Plans the extraction of one archive: for each entry name, in order,
/// decides whether to copy it out and under which flat file name.
///
/// `existing` holds the flat file names already present in the
/// destination directory, so re-running the plan after an extraction
/// copies nothing again. Every planned destination is absent from
/// `existing`, and no two planned entries share a destination.
pub fn plan_native_extraction(entries: &Vec<String>, existing: &FileSet) -> (r: Vec<
    (String, String),
>)
    ensures
        string_pairs_view(r@) == plan_fold(string_views(entries@), Seq::empty(), *existing),
        forall|i: int| 0 <= i < r@.len() ==> !existing.has(#[trigger] r@[i].1@),
        forall|i: int, j: int| 0 <= i < j < r@.len() ==> r@[i].1@ != r@[j].1@,
{
    let ghost ev = string_views(entries@);
    let mut r: Vec<(String, String)> = Vec::new();
    proof {
        assert(string_pairs_view(r@) =~= Seq::<(Seq<char>, Seq<char>)>::empty());
        assert(ev.subrange(0, ev.len() as int) =~= ev);
    }
    let mut i: usize = 0;
    while i < entries.len()
        invariant
            i <= entries@.len(),
            ev == string_views(entries@),
            ev.len() == entries@.len(),
            plan_fold(ev, Seq::empty(), *existing) == plan_fold(
                ev.subrange(i as int, ev.len() as int),
                string_pairs_view(r@),
                *existing,
            ),
            forall|k: int| 0 <= k < r@.len() ==> !existing.has(#[trigger] r@[k].1@),
            forall|k: int, l: int| 0 <= k < l < r@.len() ==> r@[k].1@ != r@[l].1@,
        decreases entries@.len() - i,
    {
        let ghost pre = ev.subrange(i as int, ev.len() as int);
        let ghost acc0 = string_pairs_view(r@);
        let name_chars = str_chars(entries[i].as_str());
        let meta = str_chars("META-INF/");
        let slash = str_chars("/");
        let dll = str_chars(".dll");
        let so = str_chars(".so");
        let dylib = str_chars(".dylib");
        let jnilib = str_chars(".jnilib");
        let native = !crate::text::starts_with_chars(&name_chars, &meta)
            && !crate::text::ends_with_chars(&name_chars, &slash) && (
        crate::text::ends_with_chars(&name_chars, &dll) || crate::text::ends_with_chars(
            &name_chars,
            &so,
        ) || crate::text::ends_with_chars(&name_chars, &dylib) || crate::text::ends_with_chars(
            &name_chars,
            &jnilib,
        ));
        if native {
            let base_parts = split_chars(&name_chars, SepClass::Exact('/'));
            proof {
                crate::text::lemma_split_nonempty(entries@[i as int]@, SepClass::Exact('/'));
                assert(crate::text::views_of(base_parts@).last() == base_parts@[base_parts@.len()
                    - 1]@);
            }
            let dest = chars_to_string(&base_parts[base_parts.len() - 1]);
            if !existing.contains(&dest) && !plan_has_dest(&r, &dest) {
                let ghost old_r = r@;
                let ghost dv = dest@;
                proof {
                    assert forall|k: int| 0 <= k < old_r.len() implies old_r[k].1@ != dv by {
                        if old_r[k].1@ == dv {
                            assert(plan_dests(string_pairs_view(old_r))[k] == dv);
                        }
                    }
                }
                let entry = entries[i].clone();
                r.push((entry, dest));
                proof {
                    assert(string_pairs_view(r@) =~~= acc0.push(
                        (r@[r@.len() - 1].0@, r@[r@.len() - 1].1@),
                    ));
                }
            }
        }
        i = i + 1;
        proof {
            assert(pre[0] == ev[i - 1]);
            assert(pre.drop_first() =~= ev.subrange(i as int, ev.len() as int));
            assert(string_pairs_view(r@) =~~= plan_step(acc0, ev[i - 1], *existing));
        }
    }
    proof {
        assert(ev.subrange(ev.len() as int, ev.len() as int) =~= Seq::<Seq<char>>::empty());
    }
    r
}

} // verus!

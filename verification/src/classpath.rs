//! The classpath resolver: computes the ordered classpath for a merged
//! descriptor, keeping only libraries whose files are present on disk.
//!
//! A library's file is found either at the explicit `downloads.artifact.path`
//! below the libraries root, or at the path derived from its Maven-style
//! coordinates. Entries are deduplicated by resolved path, first seen wins,
//! and the version's own jar — or the nearest ancestor's, for chains whose
//! leaf ships no jar — comes last.
use vstd::prelude::*;
use crate::model::{FileSet, LibraryEntry, LibraryEntryView, VersionDescriptor};
use crate::platform::{classpath_sep_spec, classpath_separator, os_key_spec, path_join, path_join_spec, path_sep_spec, Os};
use crate::rules::{check_rules, eval_rules};
use crate::text::{
    chars_to_string, find_char_from, join_spec, join_with, split_chars, split_spec, str_chars,
    string_views, SepClass,
};

verus! {

/// Dots replaced by slashes, as Maven group ids become directories.
pub open spec fn dots_to_slashes(s: Seq<char>) -> Seq<char> {
    s.map_values(
        |c: char|
            if c == '.' {
                '/'
            } else {
                c
            },
    )
}

/// Exec replacement of dots by slashes.
pub fn dots_to_slashes_exec(v: &Vec<char>) -> (r: Vec<char>)
    ensures
        r@ == dots_to_slashes(v@),
{
    let mut r: Vec<char> = Vec::new();
    let mut i: usize = 0;
    while i < v.len()
        invariant
            i <= v@.len(),
            r@ == dots_to_slashes(v@.subrange(0, i as int)),
        decreases v@.len() - i,
    {
        if v[i] == '.' {
            r.push('/');
        } else {
            r.push(v[i]);
        }
        i = i + 1;
        proof {
            assert(r@ =~= dots_to_slashes(v@.subrange(0, i as int)));
        }
    }
    proof {
        assert(v@.subrange(0, v@.len() as int) =~= v@);
    }
    r
}

/// The path below the libraries root that Maven-style coordinates
/// `group:artifact:version[:classifier]` denote, if they have at least
/// three fields. An `@ext` suffix on the version is stripped and suppresses
/// the classifier; the extension is always `.jar`.
pub open spec fn maven_rel_path(name: Seq<char>, os: Os) -> Option<Seq<char>> {
    let parts = split_spec(name, SepClass::Exact(':'));
    if parts.len() < 3 {
        Option::None
    } else {
        let group = dots_to_slashes(parts[0]);
        let artifact = parts[1];
        let vparts = split_spec(parts[2], SepClass::Exact('@'));
        let version = vparts[0];
        let classifier: Option<Seq<char>> = if vparts.len() > 1 {
            Option::None
        } else if parts.len() >= 4 {
            Option::Some(parts[3])
        } else {
            Option::None
        };
        let filename = artifact + "-"@ + version + (match classifier {
            Option::Some(c) => "-"@ + c,
            Option::None => Seq::<char>::empty(),
        }) + ".jar"@;
        Option::Some(
            group + path_sep_spec(os) + artifact + path_sep_spec(os) + version + path_sep_spec(os)
                + filename,
        )
    }
}

/// Exec derivation of the Maven-coordinate relative path.
pub fn maven_rel_path_exec(name: &str, os: Os) -> (r: Option<String>)
    ensures
        crate::model::opt_str_view(r) == maven_rel_path(name@, os),
{
    let chars = str_chars(name);
    let parts = split_chars(&chars, SepClass::Exact(':'));
    proof {
        assert(crate::text::views_of(parts@) == split_spec(name@, SepClass::Exact(':')));
    }
    if parts.len() < 3 {
        return Option::None;
    }
    let group = dots_to_slashes_exec(&parts[0]);
    let vparts = split_chars(&parts[2], SepClass::Exact('@'));
    proof {
        crate::text::lemma_split_nonempty(parts@[2]@, SepClass::Exact('@'));
        assert(crate::text::views_of(vparts@)[0] == split_spec(parts@[2]@, SepClass::Exact('@'))[0]);
    }
    let version = &vparts[0];
    let mut filename = chars_to_string(&parts[1]);
    filename.append("-");
    filename.append(chars_to_string(version).as_str());
    if vparts.len() > 1 {
        // extension override after `@`: classifier suppressed
    } else if parts.len() >= 4 {
        filename.append("-");
        filename.append(chars_to_string(&parts[3]).as_str());
    }
    filename.append(".jar");
    let sep = crate::platform::path_separator(os);
    let mut rel = chars_to_string(&group);
    rel.append(sep);
    rel.append(chars_to_string(&parts[1]).as_str());
    rel.append(sep);
    rel.append(chars_to_string(version).as_str());
    rel.append(sep);
    rel.append(filename.as_str());
    Option::Some(rel)
}

/// The full local path of a library's jar: the explicit artifact path when
/// the manifest gives one, else the Maven-coordinate path; `None` when
/// neither is available.
pub open spec fn library_path(l: LibraryEntryView, lib_dir: Seq<char>, os: Os) -> Option<
    Seq<char>,
> {
    match l.downloads {
        Option::Some(d) if d.artifact is Some => Option::Some(
            path_join_spec(lib_dir, d.artifact.unwrap().path, os),
        ),
        _ => match l.name {
            Option::Some(n) => match maven_rel_path(n, os) {
                Option::Some(rel) => Option::Some(path_join_spec(lib_dir, rel, os)),
                Option::None => Option::None,
            },
            Option::None => Option::None,
        },
    }
}

/// Exec resolution of a library's local jar path.
pub fn get_library_path(lib: &LibraryEntry, lib_dir: &String, os: Os) -> (r: Option<String>)
    ensures
        crate::model::opt_str_view(r) == library_path(lib@, lib_dir@, os),
{
    match &lib.downloads {
        Option::Some(d) if d.artifact.is_some() => {
            let art = d.artifact.as_ref().unwrap();
            Option::Some(path_join(lib_dir, art.path.as_str(), os))
        },
        _ => match &lib.name {
            Option::Some(n) => match maven_rel_path_exec(n.as_str(), os) {
                Option::Some(rel) => Option::Some(path_join(lib_dir, rel.as_str(), os)),
                Option::None => Option::None,
            },
            Option::None => Option::None,
        },
    }
}

/// Whether a library is left out of the classpath because it only carries
/// natives: it declares a `natives` map and has neither an artifact nor
/// coordinates to resolve a jar from.
pub open spec fn natives_only(l: LibraryEntryView) -> bool {
    l.natives is Some && !(match l.downloads {
        Option::Some(d) => d.artifact is Some,
        Option::None => false,
    }) && l.name is None
}

/// The classpath candidate of one library: its resolved path, if its rules
/// let it through and it is not natives-only.
pub open spec fn lib_candidate(l: LibraryEntryView, lib_dir: Seq<char>, os: Os) -> Option<
    Seq<char>,
> {
    if eval_rules(l.rules, os_key_spec(os)) && !natives_only(l) {
        library_path(l, lib_dir, os)
    } else {
        Option::None
    }
}

/// Exec test and resolution of one library's classpath candidate.
fn lib_candidate_exec(l: &LibraryEntry, lib_dir: &String, os: Os) -> (r: Option<String>)
    ensures
        crate::model::opt_str_view(r) == lib_candidate(l@, lib_dir@, os),
{
    if !check_rules(&l.rules, os) {
        return Option::None;
    }
    if l.natives.is_some() {
        let has_artifact = match &l.downloads {
            Option::Some(d) => d.artifact.is_some(),
            Option::None => false,
        };
        if !has_artifact && l.name.is_none() {
            return Option::None;
        }
    }
    get_library_path(l, lib_dir, os)
}

/// One step of classpath accumulation: a resolved, existing, not yet seen
/// path is appended; everything else leaves the list as it is.
pub open spec fn cp_step(
    acc: Seq<Seq<char>>,
    l: LibraryEntryView,
    lib_dir: Seq<char>,
    os: Os,
    files: FileSet,
) -> Seq<Seq<char>> {
    match lib_candidate(l, lib_dir, os) {
        Option::Some(p) => if files.has(p) && !acc.contains(p) {
            acc.push(p)
        } else {
            acc
        },
        Option::None => acc,
    }
}

/// The classpath entries contributed by `libs`, folded left to right
/// starting from `acc`.
pub open spec fn cp_fold(
    libs: Seq<LibraryEntryView>,
    acc: Seq<Seq<char>>,
    lib_dir: Seq<char>,
    os: Os,
    files: FileSet,
) -> Seq<Seq<char>>
    decreases libs.len(),
{
    if libs.len() == 0 {
        acc
    } else {
        cp_fold(libs.drop_first(), cp_step(acc, libs[0], lib_dir, os, files), lib_dir, os, files)
    }
}

/// The jar of version `id` inside the versions tree of `mc_dir`.
pub open spec fn jar_path_spec(mc_dir: Seq<char>, id: Seq<char>, os: Os) -> Seq<char> {
    path_join_spec(path_join_spec(path_join_spec(mc_dir, "versions"@, os), id, os), id + ".jar"@, os)
}

/// Exec path of a version's jar.
pub fn jar_path(mc_dir: &String, id: &String, os: Os) -> (r: String)
    ensures
        r@ == jar_path_spec(mc_dir@, id@, os),
{
    let versions = path_join(mc_dir, "versions", os);
    let dir = path_join(&versions, id.as_str(), os);
    let mut file = id.clone();
    file.append(".jar");
    path_join(&dir, file.as_str(), os)
}

/// The jar of the first id of `chain` whose jar file exists: the version's
/// own jar, or the nearest ancestor's when the leaf ships none.
pub open spec fn first_chain_jar(
    chain: Seq<Seq<char>>,
    mc_dir: Seq<char>,
    os: Os,
    files: FileSet,
) -> Option<Seq<char>>
    decreases chain.len(),
{
    if chain.len() == 0 {
        Option::None
    } else if files.has(jar_path_spec(mc_dir, chain[0], os)) {
        Option::Some(jar_path_spec(mc_dir, chain[0], os))
    } else {
        first_chain_jar(chain.drop_first(), mc_dir, os, files)
    }
}

/// The full ordered classpath of a merged descriptor: the entries of its
/// libraries in list order, deduplicated by path, then the version jar.
pub open spec fn classpath_spec(
    libs: Seq<LibraryEntryView>,
    chain: Seq<Seq<char>>,
    mc_dir: Seq<char>,
    lib_dir: Seq<char>,
    os: Os,
    files: FileSet,
) -> Seq<Seq<char>> {
    let base = cp_fold(libs, Seq::empty(), lib_dir, os, files);
    match first_chain_jar(chain, mc_dir, os, files) {
        Option::Some(j) => if !base.contains(j) {
            base.push(j)
        } else {
            base
        },
        Option::None => base,
    }
}

/// The libraries directory below the game directory.
pub fn libraries_dir(mc_dir: &String, os: Os) -> (r: String)
    ensures
        r@ == path_join_spec(mc_dir@, "libraries"@, os),
{
    path_join(mc_dir, "libraries", os)
}

/// Resolves the ordered classpath entries of a merged descriptor.
///
/// Every returned path names a file that `files` holds, and no path is
/// returned twice: a library whose resolved file is absent is silently
/// left out, and duplicates keep their first position.
pub fn resolve_classpath(
    merged: &VersionDescriptor,
    chain: &Vec<String>,
    mc_dir: &String,
    os: Os,
    files: &FileSet,
) -> (r: Vec<String>)
    ensures
        string_views(r@) == classpath_spec(
            crate::model::libraries_view(merged.libraries@),
            string_views(chain@),
            mc_dir@,
            path_join_spec(mc_dir@, "libraries"@, os),
            os,
            *files,
        ),
        forall|i: int| 0 <= i < r@.len() ==> files.has(#[trigger] r@[i]@),
        forall|i: int, j: int| 0 <= i < j < r@.len() ==> r@[i]@ != r@[j]@,
{
    let ghost libs = crate::model::libraries_view(merged.libraries@);
    let lib_dir = libraries_dir(mc_dir, os);
    let mut r: Vec<String> = Vec::new();
    proof {
        assert(string_views(r@) =~= Seq::<Seq<char>>::empty());
        assert(libs.subrange(0, libs.len() as int) =~= libs);
    }
    let mut i: usize = 0;
    while i < merged.libraries.len()
        invariant
            i <= merged.libraries@.len(),
            libs == crate::model::libraries_view(merged.libraries@),
            libs.len() == merged.libraries@.len(),
            lib_dir@ == path_join_spec(mc_dir@, "libraries"@, os),
            cp_fold(libs, Seq::empty(), lib_dir@, os, *files) == cp_fold(
                libs.subrange(i as int, libs.len() as int),
                string_views(r@),
                lib_dir@,
                os,
                *files,
            ),
            forall|k: int| 0 <= k < r@.len() ==> files.has(#[trigger] r@[k]@),
            forall|k: int, l: int| 0 <= k < l < r@.len() ==> r@[k]@ != r@[l]@,
        decreases merged.libraries@.len() - i,
    {
        let ghost pre = libs.subrange(i as int, libs.len() as int);
        let ghost acc0 = string_views(r@);
        match lib_candidate_exec(&merged.libraries[i], &lib_dir, os) {
            Option::Some(p) => {
                if files.contains(&p) && !crate::merge::contains_string(&r, &p) {
                    let ghost old_r = r@;
                    let ghost pv = p@;
                    proof {
                        assert forall|k: int| 0 <= k < old_r.len() implies old_r[k]@ != pv by {
                            if old_r[k]@ == pv {
                                assert(string_views(old_r)[k] == pv);
                            }
                        }
                    }
                    r.push(p);
                    proof {
                        assert(string_views(r@) =~~= acc0.push(r@[r@.len() - 1]@));
                    }
                }
            },
            Option::None => {},
        }
        i = i + 1;
        proof {
            assert(pre[0] == libs[i - 1]);
            assert(pre.drop_first() =~= libs.subrange(i as int, libs.len() as int));
            assert(string_views(r@) =~~= cp_step(acc0, libs[i - 1], lib_dir@, os, *files));
        }
    }
    proof {
        assert(libs.subrange(0, libs.len() as int) =~= libs);
        assert(libs.subrange(libs.len() as int, libs.len() as int) =~= Seq::<
            LibraryEntryView,
        >::empty());
        assert(string_views(r@) =~~= cp_fold(libs, Seq::empty(), lib_dir@, os, *files));
    }
    // the version's own jar, or the nearest ancestor's, comes last
    proof {
        assert(string_views(chain@).subrange(0, chain@.len() as int) =~= string_views(chain@));
    }
    let mut j: usize = 0;
    while j < chain.len()
        invariant
            j <= chain@.len(),
            first_chain_jar(string_views(chain@), mc_dir@, os, *files) == first_chain_jar(
                string_views(chain@).subrange(j as int, chain@.len() as int),
                mc_dir@,
                os,
                *files,
            ),
            string_views(r@) == cp_fold(libs, Seq::empty(), lib_dir@, os, *files),
            libs == crate::model::libraries_view(merged.libraries@),
            lib_dir@ == path_join_spec(mc_dir@, "libraries"@, os),
            forall|k: int| 0 <= k < r@.len() ==> files.has(#[trigger] r@[k]@),
            forall|k: int, l: int| 0 <= k < l < r@.len() ==> r@[k]@ != r@[l]@,
        decreases chain@.len() - j,
    {
        let ghost pre = string_views(chain@).subrange(j as int, chain@.len() as int);
        let jp = jar_path(mc_dir, &chain[j], os);
        if files.contains(&jp) {
            proof {
                assert(pre[0] == chain@[j as int]@);
            }
            let ghost acc0 = string_views(r@);
            if !crate::merge::contains_string(&r, &jp) {
                let ghost old_r = r@;
                let ghost pv = jp@;
                proof {
                    assert forall|k: int| 0 <= k < old_r.len() implies old_r[k]@ != pv by {
                        if old_r[k]@ == pv {
                            assert(string_views(old_r)[k] == pv);
                        }
                    }
                }
                r.push(jp);
                proof {
                    assert(string_views(r@) =~~= acc0.push(r@[r@.len() - 1]@));
                }
            }
            proof {
                assert(string_views(r@) =~~= classpath_spec(
                    libs,
                    string_views(chain@),
                    mc_dir@,
                    lib_dir@,
                    os,
                    *files,
                ));
            }
            return r;
        }
        j = j + 1;
        proof {
            assert(pre[0] == chain@[j - 1]@);
            assert(pre.drop_first() =~= string_views(chain@).subrange(
                j as int,
                chain@.len() as int,
            ));
        }
    }
    proof {
        assert(string_views(chain@).subrange(0, chain@.len() as int) =~= string_views(chain@));
        assert(string_views(chain@).subrange(chain@.len() as int, chain@.len() as int) =~= Seq::<
            Seq<char>,
        >::empty());
    }
    r
}

/// The classpath entries joined with the platform's separator, ready for
/// the `-cp` argument.
pub fn build_classpath(
    merged: &VersionDescriptor,
    chain: &Vec<String>,
    mc_dir: &String,
    os: Os,
    files: &FileSet,
) -> (r: String)
    ensures
        r@ == join_spec(
            classpath_spec(
                crate::model::libraries_view(merged.libraries@),
                string_views(chain@),
                mc_dir@,
                path_join_spec(mc_dir@, "libraries"@, os),
                os,
                *files,
            ),
            classpath_sep_spec(os),
        ),
{
    let entries = resolve_classpath(merged, chain, mc_dir, os, files);
    join_with(&entries, classpath_separator(os))
}

/// Every candidate path the classpath resolver may consult: each
/// rule-passing library's resolved path, then the jar of every chain link.
///
/// Callers use this to learn which files to look for on disk, and the
/// strict pre-flight check reports the absent ones.
pub open spec fn candidate_paths_spec(
    libs: Seq<LibraryEntryView>,
    chain: Seq<Seq<char>>,
    mc_dir: Seq<char>,
    lib_dir: Seq<char>,
    os: Os,
) -> Seq<Seq<char>> {
    libs.filter_map(|l: LibraryEntryView| lib_candidate(l, lib_dir, os)) + chain.map_values(
        |id: Seq<char>| jar_path_spec(mc_dir, id, os),
    )
}

/// Lists every path the classpath resolver would consult.
pub fn classpath_candidates(
    merged: &VersionDescriptor,
    chain: &Vec<String>,
    mc_dir: &String,
    os: Os,
) -> (r: Vec<String>)
    ensures
        string_views(r@) == candidate_paths_spec(
            crate::model::libraries_view(merged.libraries@),
            string_views(chain@),
            mc_dir@,
            path_join_spec(mc_dir@, "libraries"@, os),
            os,
        ),
{
    let ghost libs = crate::model::libraries_view(merged.libraries@);
    let ghost f = |l: LibraryEntryView| lib_candidate(l, path_join_spec(mc_dir@, "libraries"@, os), os);
    let lib_dir = libraries_dir(mc_dir, os);
    let mut r: Vec<String> = Vec::new();
    let mut i: usize = 0;
    while i < merged.libraries.len()
        invariant
            i <= merged.libraries@.len(),
            libs == crate::model::libraries_view(merged.libraries@),
            libs.len() == merged.libraries@.len(),
            lib_dir@ == path_join_spec(mc_dir@, "libraries"@, os),
            f == (|l: LibraryEntryView| lib_candidate(
                l,
                path_join_spec(mc_dir@, "libraries"@, os),
                os,
            )),
            string_views(r@) == libs.subrange(0, i as int).filter_map(f),
        decreases merged.libraries@.len() - i,
    {
        let ghost pre = libs.subrange(0, i as int);
        let ghost now = libs.subrange(0, i + 1);
        let ghost acc0 = string_views(r@);
        match lib_candidate_exec(&merged.libraries[i], &lib_dir, os) {
            Option::Some(p) => {
                r.push(p);
                proof {
                    assert(string_views(r@) =~~= acc0.push(r@[r@.len() - 1]@));
                }
            },
            Option::None => {},
        }
        i = i + 1;
        proof {
            assert(now.drop_last() =~= pre);
            assert(now.last() == libs[i - 1]);
            assert(now.filter_map(f) == if f(now.last()) is Some {
                now.drop_last().filter_map(f).push(f(now.last()).unwrap())
            } else {
                now.drop_last().filter_map(f)
            });
            assert(string_views(r@) =~~= now.filter_map(f));
        }
    }
    proof {
        assert(libs.subrange(0, libs.len() as int) =~= libs);
    }
    let ghost lib_part = string_views(r@);
    let mut j: usize = 0;
    while j < chain.len()
        invariant
            j <= chain@.len(),
            lib_part == libs.filter_map(f),
            f == (|l: LibraryEntryView| lib_candidate(
                l,
                path_join_spec(mc_dir@, "libraries"@, os),
                os,
            )),
            libs == crate::model::libraries_view(merged.libraries@),
            string_views(r@) == lib_part + string_views(chain@).subrange(0, j as int).map_values(
                |id: Seq<char>| jar_path_spec(mc_dir@, id, os),
            ),
        decreases chain@.len() - j,
    {
        let ghost acc0 = string_views(r@);
        let jp = jar_path(mc_dir, &chain[j], os);
        r.push(jp);
        j = j + 1;
        proof {
            assert(string_views(r@) =~~= acc0.push(r@[r@.len() - 1]@));
            assert(string_views(r@) =~~= lib_part + string_views(chain@).subrange(
                0,
                j as int,
            ).map_values(|id: Seq<char>| jar_path_spec(mc_dir@, id, os)));
        }
    }
    proof {
        assert(string_views(chain@).subrange(0, chain@.len() as int) =~= string_views(chain@));
        assert(string_views(r@) =~~= candidate_paths_spec(
            libs,
            string_views(chain@),
            mc_dir@,
            path_join_spec(mc_dir@, "libraries"@, os),
            os,
        ));
    }
    r
}

/// The candidate paths that are absent from `files`: the strict pre-flight
/// completeness check, for callers that want to find missing files before
/// launch instead of at crash time.
pub fn missing_classpath_files(
    merged: &VersionDescriptor,
    chain: &Vec<String>,
    mc_dir: &String,
    os: Os,
    files: &FileSet,
) -> (r: Vec<String>)
    ensures
        ({
            let cands = candidate_paths_spec(
                crate::model::libraries_view(merged.libraries@),
                string_views(chain@),
                mc_dir@,
                path_join_spec(mc_dir@, "libraries"@, os),
                os,
            );
            &&& forall|i: int| 0 <= i < r@.len() ==> cands.contains(#[trigger] r@[i]@) && !files.has(
                r@[i]@,
            )
            &&& forall|i: int|
                0 <= i < cands.len() && !files.has(#[trigger] cands[i]) ==> string_views(
                    r@,
                ).contains(cands[i])
        }),
{
    let cands = classpath_candidates(merged, chain, mc_dir, os);
    let ghost cv = string_views(cands@);
    let mut r: Vec<String> = Vec::new();
    let mut i: usize = 0;
    while i < cands.len()
        invariant
            i <= cands@.len(),
            cv == string_views(cands@),
            cv.len() == cands@.len(),
            forall|k: int| 0 <= k < r@.len() ==> cv.contains(#[trigger] r@[k]@) && !files.has(
                r@[k]@,
            ),
            forall|k: int|
                0 <= k < i && !files.has(#[trigger] cv[k]) ==> string_views(r@).contains(cv[k]),
        decreases cands@.len() - i,
    {
        let p = cands[i].clone();
        if !files.contains(&p) {
            let ghost old_r = r@;
            r.push(p);
            proof {
                assert(r@[r@.len() - 1]@ == cv[i as int]);
                assert(string_views(r@)[r@.len() - 1] == cv[i as int]);
                assert forall|k: int|
                    0 <= k < i + 1 && !files.has(#[trigger] cv[k]) implies string_views(
                    r@,
                ).contains(cv[k]) by {
                    if k < i {
                        let w = choose|w: int|
                            0 <= w < string_views(old_r).len() && string_views(old_r)[w] == cv[k];
                        assert(string_views(r@)[w] == cv[k]);
                    } else {
                        assert(string_views(r@)[r@.len() - 1] == cv[k]);
                    }
                }
            }
        }
        i = i + 1;
    }
    r
}

} // verus!

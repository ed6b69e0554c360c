//! The descriptor merger: resolves a version's inheritance chain into one
//! fully-merged descriptor.
//!
//! A child descriptor names its parent in `inherits_from`; the chain is
//! resolved parent-first and the child applies its overrides. A parent that
//! is not installed ends the chain leniently; a cycle in `inherits_from`
//! fails fast with `MergeError::CyclicInheritance`.
use vstd::prelude::*;
use crate::model::{
    clone_libraries, clone_opt_string, descriptors_view, libraries_view, ArgumentSetView,
    AssetIndexView, DownloadsView, LibraryEntryView, VersionDescriptor, VersionDescriptorView,
};
use crate::text::string_views;

verus! {

/// Why a merge failed.
#[derive(Clone, Copy, Debug, PartialEq, Eq, Structural)]
pub enum MergeError {
    /// The `inherits_from` chain revisits a version id. Such a manifest set
    /// is corrupt; resolving it would never end.
    CyclicInheritance,
}

/// The first descriptor of `table` whose id is `id`, if any.
pub open spec fn lookup_desc(table: Seq<VersionDescriptorView>, id: Seq<char>) -> Option<
    VersionDescriptorView,
>
    decreases table.len(),
{
    if table.len() == 0 {
        Option::None
    } else if table[0].id == id {
        Option::Some(table[0])
    } else {
        lookup_desc(table.drop_first(), id)
    }
}

/// The inheritance chain from `cur` towards the root, leaf first.
///
/// `visited` holds the ids already on the path; meeting one of them again
/// means the manifests form a cycle, and the result is `None`. A parent id
/// that `table` does not hold ends the chain. `fuel` bounds the depth; the
/// merger passes one more than the table's size, which no acyclic chain can
/// exhaust.
pub open spec fn spec_chain(
    table: Seq<VersionDescriptorView>,
    cur: VersionDescriptorView,
    visited: Seq<Seq<char>>,
    fuel: nat,
) -> Option<Seq<VersionDescriptorView>>
    decreases fuel,
{
    match cur.inherits_from {
        Option::None => Option::Some(seq![cur]),
        Option::Some(pid) => {
            if visited.contains(pid) {
                Option::None
            } else {
                match lookup_desc(table, pid) {
                    Option::None => Option::Some(seq![cur]),
                    Option::Some(parent) => {
                        if fuel == 0 {
                            Option::None
                        } else {
                            match spec_chain(table, parent, visited.push(pid), (fuel - 1) as nat) {
                                Option::None => Option::None,
                                Option::Some(rest) => Option::Some(seq![cur] + rest),
                            }
                        }
                    },
                }
            }
        },
    }
}

/// A resolved chain holds at least its leaf.
pub proof fn lemma_spec_chain_nonempty(
    table: Seq<VersionDescriptorView>,
    cur: VersionDescriptorView,
    visited: Seq<Seq<char>>,
    fuel: nat,
)
    ensures
        match spec_chain(table, cur, visited, fuel) {
            Option::Some(ch) => ch.len() >= 1 && ch[0] == cur,
            Option::None => true,
        },
    decreases fuel,
{
    match cur.inherits_from {
        Option::None => {},
        Option::Some(pid) => {
            if !visited.contains(pid) {
                match lookup_desc(table, pid) {
                    Option::None => {},
                    Option::Some(parent) => {
                        if fuel > 0 {
                            lemma_spec_chain_nonempty(table, parent, visited.push(pid), (fuel - 1) as nat);
                        }
                    },
                }
            }
        },
    }
}

/// The child's overrides applied over its parent's merged record: the child
/// wins field by field where it defines a value, and the libraries are the
/// parent's followed by the child's own.
pub open spec fn apply_child_view(
    c: VersionDescriptorView,
    p: VersionDescriptorView,
) -> VersionDescriptorView {
    VersionDescriptorView {
        id: c.id,
        version_type: c.version_type,
        inherits_from: c.inherits_from,
        java_major: c.java_major,
        main_class: if c.main_class is Some {
            c.main_class
        } else {
            p.main_class
        },
        assets: if c.assets is Some {
            c.assets
        } else {
            p.assets
        },
        asset_index: if c.asset_index is Some {
            c.asset_index
        } else {
            p.asset_index
        },
        minecraft_arguments: if c.minecraft_arguments is Some {
            c.minecraft_arguments
        } else {
            p.minecraft_arguments
        },
        arguments: if c.arguments is Some {
            c.arguments
        } else {
            p.arguments
        },
        downloads: if c.downloads is Some {
            c.downloads
        } else {
            p.downloads
        },
        libraries: p.libraries + c.libraries,
    }
}

/// The merged record of a leaf-first chain: the root merged first, each
/// child applying its overrides in turn.
pub open spec fn merge_chain_view(ch: Seq<VersionDescriptorView>) -> VersionDescriptorView
    recommends
        ch.len() >= 1,
    decreases ch.len(),
{
    if ch.len() <= 1 {
        ch[0]
    } else {
        apply_child_view(ch[0], merge_chain_view(ch.drop_first()))
    }
}

/// The ids of a chain, leaf first.
pub open spec fn chain_ids_view(ch: Seq<VersionDescriptorView>) -> Seq<Seq<char>> {
    ch.map_values(|d: VersionDescriptorView| d.id)
}

/// A fully-merged descriptor with the ids of the chain it came from,
/// leaf first.
#[derive(Debug)]
pub struct MergedDescriptor {
    pub descriptor: VersionDescriptor,
    pub chain: Vec<String>,
}

/// Whether `s` is one of the strings of `v`.
pub fn contains_string(v: &Vec<String>, s: &String) -> (r: bool)
    ensures
        r == string_views(v@).contains(s@),
{
    let mut i: usize = 0;
    while i < v.len()
        invariant
            i <= v@.len(),
            forall|j: int| 0 <= j < i ==> v@[j]@ != s@,
        decreases v@.len() - i,
    {
        if v[i].eq(s) {
            proof {
                assert(string_views(v@)[i as int] == s@);
            }
            return true;
        }
        i = i + 1;
    }
    proof {
        assert forall|j: int| 0 <= j < string_views(v@).len() implies string_views(v@)[j] != s@ by {
            assert(string_views(v@)[j] == v@[j]@);
        }
    }
    false
}

/// The first descriptor of `table` with the given id, if any is installed.
fn lookup_exec<'a>(table: &'a Vec<VersionDescriptor>, id: &String) -> (r: Option<
    &'a VersionDescriptor,
>)
    ensures
        match r {
            Option::Some(d) => lookup_desc(descriptors_view(table@), id@) == Option::Some(d@),
            Option::None => lookup_desc(descriptors_view(table@), id@) is None,
        },
{
    let ghost tv = descriptors_view(table@);
    proof {
        assert(tv.subrange(0, tv.len() as int) =~= tv);
    }
    let mut i: usize = 0;
    while i < table.len()
        invariant
            i <= table@.len(),
            tv == descriptors_view(table@),
            tv.len() == table@.len(),
            lookup_desc(tv, id@) == lookup_desc(tv.subrange(i as int, tv.len() as int), id@),
        decreases table@.len() - i,
    {
        let ghost pre = tv.subrange(i as int, tv.len() as int);
        if table[i].id.eq(id) {
            proof {
                assert(pre[0] == tv[i as int]);
                assert(tv[i as int] == table@[i as int]@);
            }
            return Option::Some(&table[i]);
        }
        i = i + 1;
        proof {
            assert(pre[0] == tv[i - 1]);
            assert(pre.drop_first() =~= tv.subrange(i as int, tv.len() as int));
        }
    }
    proof {
        assert(tv.subrange(tv.len() as int, tv.len() as int) =~= Seq::<
            VersionDescriptorView,
        >::empty());
    }
    Option::None
}

/// Builds the child's merged descriptor from its own fields and its
/// parent's merged descriptor.
fn apply_child(child: &VersionDescriptor, parent: VersionDescriptor) -> (m: VersionDescriptor)
    ensures
        m@ == apply_child_view(child@, parent@),
{
    let mut libs = parent.libraries;
    let mut child_libs = clone_libraries(&child.libraries);
    let ghost p_libs = libs@;
    libs.append(&mut child_libs);
    proof {
        assert(libraries_view(libs@) =~= libraries_view(p_libs) + libraries_view(
            child.libraries@,
        ));
    }
    VersionDescriptor {
        id: child.id.clone(),
        version_type: clone_opt_string(&child.version_type),
        inherits_from: clone_opt_string(&child.inherits_from),
        java_major: child.java_major,
        main_class: if child.main_class.is_some() {
            clone_opt_string(&child.main_class)
        } else {
            parent.main_class
        },
        assets: if child.assets.is_some() {
            clone_opt_string(&child.assets)
        } else {
            parent.assets
        },
        asset_index: match &child.asset_index {
            Option::Some(a) => Option::Some(a.duplicate()),
            Option::None => parent.asset_index,
        },
        minecraft_arguments: if child.minecraft_arguments.is_some() {
            clone_opt_string(&child.minecraft_arguments)
        } else {
            parent.minecraft_arguments
        },
        arguments: match &child.arguments {
            Option::Some(a) => Option::Some(a.duplicate()),
            Option::None => parent.arguments,
        },
        downloads: match &child.downloads {
            Option::Some(d) => Option::Some(d.duplicate()),
            Option::None => parent.downloads,
        },
        libraries: libs,
    }
}

/// Resolves the chain above `cur` and folds it into one descriptor.
fn merge_rec(
    table: &Vec<VersionDescriptor>,
    cur: &VersionDescriptor,
    visited: Vec<String>,
    fuel: usize,
) -> (r: Result<(VersionDescriptor, Vec<String>), MergeError>)
    ensures
        match spec_chain(descriptors_view(table@), cur@, string_views(visited@), fuel as nat) {
            Option::Some(ch) => r is Ok && r.unwrap().0@ == merge_chain_view(ch) && string_views(
                r.unwrap().1@,
            ) == chain_ids_view(ch),
            Option::None => r == Result::<(VersionDescriptor, Vec<String>), MergeError>::Err(
                MergeError::CyclicInheritance,
            ),
        },
    decreases fuel,
{
    let ghost tv = descriptors_view(table@);
    let ghost vis = string_views(visited@);
    match &cur.inherits_from {
        Option::None => {
            let m = cur.duplicate();
            let mut ids: Vec<String> = Vec::new();
            ids.push(cur.id.clone());
            proof {
                assert(string_views(ids@) =~= chain_ids_view(seq![cur@]));
                assert(merge_chain_view(seq![cur@]) == cur@);
            }
            Result::Ok((m, ids))
        },
        Option::Some(pid) => {
            if contains_string(&visited, pid) {
                return Result::Err(MergeError::CyclicInheritance);
            }
            match lookup_exec(table, pid) {
                Option::None => {
                    let m = cur.duplicate();
                    let mut ids: Vec<String> = Vec::new();
                    ids.push(cur.id.clone());
                    proof {
                        assert(string_views(ids@) =~= chain_ids_view(seq![cur@]));
                        assert(merge_chain_view(seq![cur@]) == cur@);
                    }
                    Result::Ok((m, ids))
                },
                Option::Some(parent) => {
                    if fuel == 0 {
                        return Result::Err(MergeError::CyclicInheritance);
                    }
                    let mut v2 = visited;
                    v2.push(pid.clone());
                    proof {
                        assert(string_views(v2@) =~= vis.push(pid@));
                    }
                    match merge_rec(table, parent, v2, fuel - 1) {
                        Result::Err(e) => Result::Err(e),
                        Result::Ok((pm, mut ids)) => {
                            let ghost rest = spec_chain(
                                tv,
                                parent@,
                                vis.push(pid@),
                                (fuel - 1) as nat,
                            ).unwrap();
                            proof {
                                lemma_spec_chain_nonempty(
                                    tv,
                                    parent@,
                                    vis.push(pid@),
                                    (fuel - 1) as nat,
                                );
                            }
                            let m = apply_child(cur, pm);
                            let ghost old_ids = ids@;
                            ids.insert(0, cur.id.clone());
                            let ghost ch = seq![cur@] + rest;
                            proof {
                                assert(ch.drop_first() =~= rest);
                                assert(ch[0] == cur@);
                                assert(ch.len() >= 2);
                                assert(merge_chain_view(ch) == apply_child_view(
                                    cur@,
                                    merge_chain_view(rest),
                                ));
                                assert(ids@[0] == cur.id);
                                assert(string_views(old_ids).len() == old_ids.len());
                                assert(chain_ids_view(rest).len() == rest.len());
                                assert(old_ids.len() == rest.len());
                                assert(ch.len() == rest.len() + 1);
                                assert(ids@.len() == old_ids.len() + 1);
                                assert forall|j: int| 0 < j < ids@.len() implies string_views(
                                    ids@,
                                )[j] == chain_ids_view(ch)[j] by {
                                    assert(ids@[j] == old_ids[j - 1]);
                                    assert(string_views(old_ids)[j - 1] == old_ids[j - 1]@);
                                    assert(chain_ids_view(rest)[j - 1] == rest[j - 1].id);
                                    assert(chain_ids_view(ch)[j] == ch[j].id);
                                }
                                assert(string_views(ids@) =~~= chain_ids_view(ch));
                            }
                            Result::Ok((m, ids))
                        },
                    }
                },
            }
        },
    }
}

/// Resolves the full inheritance chain of `leaf` against the installed
/// manifests in `table` and merges it into one descriptor.
///
/// The parent of each link is looked up by id in `table`; a missing parent
/// ends the chain leniently, so the fields the chain does define are still
/// usable. A cycle in `inherits_from` is reported as
/// `MergeError::CyclicInheritance`, and that is the only error.
pub fn merge_version_chain(table: &Vec<VersionDescriptor>, leaf: &VersionDescriptor) -> (r: Result<
    MergedDescriptor,
    MergeError,
>)
    ensures
        ({
            let ch = spec_chain(descriptors_view(table@), leaf@, seq![leaf@.id], table@.len());
            match r {
                Result::Ok(m) => ch is Some && m.descriptor@ == merge_chain_view(ch.unwrap())
                    && string_views(m.chain@) == chain_ids_view(ch.unwrap()),
                Result::Err(e) => e == MergeError::CyclicInheritance && ch is None,
            }
        }),
{
    let mut visited: Vec<String> = Vec::new();
    visited.push(leaf.id.clone());
    proof {
        assert(string_views(visited@) =~= seq![leaf@.id]);
    }
    let fuel = table.len();
    match merge_rec(table, leaf, visited, fuel) {
        Result::Ok((descriptor, chain)) => Result::Ok(MergedDescriptor { descriptor, chain }),
        Result::Err(e) => Result::Err(e),
    }
}

/// The selector of a chain field: the nearest descriptor, leaf first, that
/// defines the field provides its value.
pub open spec fn nearest_defined<T>(
    ch: Seq<VersionDescriptorView>,
    sel: spec_fn(VersionDescriptorView) -> Option<T>,
) -> Option<T>
    decreases ch.len(),
{
    if ch.len() == 0 {
        Option::None
    } else if sel(ch[0]) is Some {
        sel(ch[0])
    } else {
        nearest_defined(ch.drop_first(), sel)
    }
}

/// Selector of the `main_class` field.
pub open spec fn sel_main_class() -> spec_fn(VersionDescriptorView) -> Option<Seq<char>> {
    |d: VersionDescriptorView| d.main_class
}

/// Selector of the `assets` field.
pub open spec fn sel_assets() -> spec_fn(VersionDescriptorView) -> Option<Seq<char>> {
    |d: VersionDescriptorView| d.assets
}

/// Selector of the `asset_index` field.
pub open spec fn sel_asset_index() -> spec_fn(VersionDescriptorView) -> Option<AssetIndexView> {
    |d: VersionDescriptorView| d.asset_index
}

/// Selector of the `minecraft_arguments` field.
pub open spec fn sel_minecraft_arguments() -> spec_fn(VersionDescriptorView) -> Option<Seq<char>> {
    |d: VersionDescriptorView| d.minecraft_arguments
}

/// Selector of the `arguments` field.
pub open spec fn sel_arguments() -> spec_fn(VersionDescriptorView) -> Option<ArgumentSetView> {
    |d: VersionDescriptorView| d.arguments
}

/// Selector of the `downloads` field.
pub open spec fn sel_downloads() -> spec_fn(VersionDescriptorView) -> Option<DownloadsView> {
    |d: VersionDescriptorView| d.downloads
}

/// The libraries of a leaf-first chain in root-to-leaf order: every
/// ancestor's own libraries first, the leaf's own last.
pub open spec fn chain_libraries(ch: Seq<VersionDescriptorView>) -> Seq<LibraryEntryView>
    decreases ch.len(),
{
    if ch.len() == 0 {
        Seq::empty()
    } else {
        chain_libraries(ch.drop_first()) + ch[0].libraries
    }
}

/// The merged descriptor of an acyclic chain resolves every optional field
/// to the value of the nearest link, leaf first, that defines it; its
/// libraries are the concatenation of all links' own libraries in
/// root-to-leaf order; and its identity fields are the leaf's own.
pub proof fn lemma_merge_resolves_nearest(ch: Seq<VersionDescriptorView>)
    requires
        ch.len() >= 1,
    ensures
        merge_chain_view(ch).main_class == nearest_defined(ch, sel_main_class()),
        merge_chain_view(ch).assets == nearest_defined(ch, sel_assets()),
        merge_chain_view(ch).asset_index == nearest_defined(ch, sel_asset_index()),
        merge_chain_view(ch).minecraft_arguments == nearest_defined(ch, sel_minecraft_arguments()),
        merge_chain_view(ch).arguments == nearest_defined(ch, sel_arguments()),
        merge_chain_view(ch).downloads == nearest_defined(ch, sel_downloads()),
        merge_chain_view(ch).libraries == chain_libraries(ch),
        merge_chain_view(ch).id == ch[0].id,
        merge_chain_view(ch).version_type == ch[0].version_type,
        merge_chain_view(ch).inherits_from == ch[0].inherits_from,
        merge_chain_view(ch).java_major == ch[0].java_major,
    decreases ch.len(),
{
    if ch.len() == 1 {
        assert(ch.drop_first() =~= Seq::<VersionDescriptorView>::empty());
        assert(chain_libraries(ch.drop_first()) =~= Seq::<LibraryEntryView>::empty());
        assert(chain_libraries(ch) =~= ch[0].libraries);
        if ch[0].main_class is None {
            assert(nearest_defined(ch, sel_main_class()) == ch[0].main_class);
        }
        if ch[0].assets is None {
            assert(nearest_defined(ch, sel_assets()) == ch[0].assets);
        }
        if ch[0].asset_index is None {
            assert(nearest_defined(ch, sel_asset_index()) == ch[0].asset_index);
        }
        if ch[0].minecraft_arguments is None {
            assert(nearest_defined(ch, sel_minecraft_arguments()) == ch[0].minecraft_arguments);
        }
        if ch[0].arguments is None {
            assert(nearest_defined(ch, sel_arguments()) == ch[0].arguments);
        }
        if ch[0].downloads is None {
            assert(nearest_defined(ch, sel_downloads()) == ch[0].downloads);
        }
    } else {
        lemma_merge_resolves_nearest(ch.drop_first());
    }
}

} // verus!

//! The typed data model of the engine: version descriptors, library entries,
//! platform rules, argument templates, and the set of files known to exist.
//!
//! Manifests are held as strongly-typed values; loaders outside the engine
//! turn persisted JSON into these structures and hand them in as plain data.
//! Each type has a ghost view (`@`) — a record of sequences — and every
//! contract of the engine speaks of those views.
use vstd::prelude::*;

verus! {

/// One downloadable artifact of a version (client or server jar).
#[derive(Debug)]
pub struct DownloadInfo {
    pub sha1: Option<String>,
    pub size: Option<u64>,
    pub url: String,
}

/// Ghost record of a `DownloadInfo`.
pub struct DownloadInfoView {
    pub sha1: Option<Seq<char>>,
    pub size: Option<u64>,
    pub url: Seq<char>,
}

/// The view of an optional string.
pub open spec fn opt_str_view(o: Option<String>) -> Option<Seq<char>> {
    match o {
        Option::None => Option::None,
        Option::Some(s) => Option::Some(s@),
    }
}

impl View for DownloadInfo {
    type V = DownloadInfoView;

    open spec fn view(&self) -> DownloadInfoView {
        DownloadInfoView { sha1: opt_str_view(self.sha1), size: self.size, url: self.url@ }
    }
}

/// The view of an optional artifact record.
pub open spec fn opt_dl_view(o: Option<DownloadInfo>) -> Option<DownloadInfoView> {
    match o {
        Option::None => Option::None,
        Option::Some(d) => Option::Some(d@),
    }
}

/// The download section of a version descriptor.
#[derive(Debug)]
pub struct Downloads {
    pub client: Option<DownloadInfo>,
    pub server: Option<DownloadInfo>,
}

/// Ghost record of a `Downloads`.
pub struct DownloadsView {
    pub client: Option<DownloadInfoView>,
    pub server: Option<DownloadInfoView>,
}

impl View for Downloads {
    type V = DownloadsView;

    open spec fn view(&self) -> DownloadsView {
        DownloadsView { client: opt_dl_view(self.client), server: opt_dl_view(self.server) }
    }
}

/// The asset-index reference of a version descriptor.
#[derive(Debug)]
pub struct AssetIndex {
    pub id: String,
    pub sha1: Option<String>,
    pub size: Option<u64>,
    pub url: String,
    pub total_size: Option<u64>,
}

/// Ghost record of an `AssetIndex`.
pub struct AssetIndexView {
    pub id: Seq<char>,
    pub sha1: Option<Seq<char>>,
    pub size: Option<u64>,
    pub url: Seq<char>,
    pub total_size: Option<u64>,
}

impl View for AssetIndex {
    type V = AssetIndexView;

    open spec fn view(&self) -> AssetIndexView {
        AssetIndexView {
            id: self.id@,
            sha1: opt_str_view(self.sha1),
            size: self.size,
            url: self.url@,
            total_size: self.total_size,
        }
    }
}

/// One concrete artifact of a library: its path below the libraries root,
/// checksum, size and source URL.
#[derive(Debug)]
pub struct LibraryArtifact {
    pub path: String,
    pub sha1: Option<String>,
    pub size: Option<u64>,
    pub url: String,
}

/// Ghost record of a `LibraryArtifact`.
pub struct LibraryArtifactView {
    pub path: Seq<char>,
    pub sha1: Option<Seq<char>>,
    pub size: Option<u64>,
    pub url: Seq<char>,
}

impl View for LibraryArtifact {
    type V = LibraryArtifactView;

    open spec fn view(&self) -> LibraryArtifactView {
        LibraryArtifactView {
            path: self.path@,
            sha1: opt_str_view(self.sha1),
            size: self.size,
            url: self.url@,
        }
    }
}

/// The download section of a library entry: the main artifact and the
/// native variants keyed by classifier.
#[derive(Debug)]
pub struct LibraryDownloads {
    pub artifact: Option<LibraryArtifact>,
    pub classifiers: Vec<(String, LibraryArtifact)>,
}

/// Ghost record of a `LibraryDownloads`.
pub struct LibraryDownloadsView {
    pub artifact: Option<LibraryArtifactView>,
    pub classifiers: Seq<(Seq<char>, LibraryArtifactView)>,
}

/// The views of a classifier list.
pub open spec fn classifiers_view(s: Seq<(String, LibraryArtifact)>) -> Seq<
    (Seq<char>, LibraryArtifactView),
> {
    s.map_values(|p: (String, LibraryArtifact)| (p.0@, p.1@))
}

impl View for LibraryDownloads {
    type V = LibraryDownloadsView;

    open spec fn view(&self) -> LibraryDownloadsView {
        LibraryDownloadsView {
            artifact: match self.artifact {
                Option::None => Option::None,
                Option::Some(a) => Option::Some(a@),
            },
            classifiers: classifiers_view(self.classifiers@),
        }
    }
}

/// One platform/feature condition attached to a library or argument entry.
#[derive(Debug)]
pub struct Rule {
    /// `true` for an `allow` action, `false` for `disallow`.
    pub allow: bool,
    /// The OS name this rule is conditioned on, if any.
    pub os_name: Option<String>,
    /// Whether the rule carries a `features` key; such a rule never matches.
    pub has_features: bool,
}

/// Ghost record of a `Rule`.
pub struct RuleView {
    pub allow: bool,
    pub os_name: Option<Seq<char>>,
    pub has_features: bool,
}

impl View for Rule {
    type V = RuleView;

    open spec fn view(&self) -> RuleView {
        RuleView {
            allow: self.allow,
            os_name: opt_str_view(self.os_name),
            has_features: self.has_features,
        }
    }
}

/// The views of a rule list.
pub open spec fn rules_view(s: Seq<Rule>) -> Seq<RuleView> {
    s.map_values(|r: Rule| r@)
}

/// The view of an optional rule list.
pub open spec fn opt_rules_view(o: Option<Vec<Rule>>) -> Option<Seq<RuleView>> {
    match o {
        Option::None => Option::None,
        Option::Some(v) => Option::Some(rules_view(v@)),
    }
}

/// The value of a conditional argument entry: one string or several.
#[derive(Debug)]
pub enum ArgValue {
    One(String),
    Many(Vec<String>),
}

/// Ghost record of an `ArgValue`.
pub enum ArgValueView {
    One(Seq<char>),
    Many(Seq<Seq<char>>),
}

impl View for ArgValue {
    type V = ArgValueView;

    open spec fn view(&self) -> ArgValueView {
        match self {
            ArgValue::One(s) => ArgValueView::One(s@),
            ArgValue::Many(v) => ArgValueView::Many(crate::text::string_views(v@)),
        }
    }
}

/// One entry of a modern argument template list.
#[derive(Debug)]
pub enum ArgEntry {
    /// A bare template string.
    Plain(String),
    /// A rule-gated entry contributing its value only when the rules pass.
    Conditional { rules: Option<Vec<Rule>>, value: Option<ArgValue> },
}

/// Ghost record of an `ArgEntry`.
pub enum ArgEntryView {
    Plain(Seq<char>),
    Conditional { rules: Option<Seq<RuleView>>, value: Option<ArgValueView> },
}

impl View for ArgEntry {
    type V = ArgEntryView;

    open spec fn view(&self) -> ArgEntryView {
        match self {
            ArgEntry::Plain(s) => ArgEntryView::Plain(s@),
            ArgEntry::Conditional { rules, value } => ArgEntryView::Conditional {
                rules: opt_rules_view(*rules),
                value: match value {
                    Option::None => Option::None,
                    Option::Some(v) => Option::Some(v@),
                },
            },
        }
    }
}

/// The views of an argument entry list.
pub open spec fn arg_entries_view(s: Seq<ArgEntry>) -> Seq<ArgEntryView> {
    s.map_values(|e: ArgEntry| e@)
}

/// The modern argument schema: separate JVM and game template lists.
#[derive(Debug)]
pub struct ArgumentSet {
    pub jvm: Option<Vec<ArgEntry>>,
    pub game: Option<Vec<ArgEntry>>,
}

/// Ghost record of an `ArgumentSet`.
pub struct ArgumentSetView {
    pub jvm: Option<Seq<ArgEntryView>>,
    pub game: Option<Seq<ArgEntryView>>,
}

/// The view of an optional argument entry list.
pub open spec fn opt_args_view(o: Option<Vec<ArgEntry>>) -> Option<Seq<ArgEntryView>> {
    match o {
        Option::None => Option::None,
        Option::Some(v) => Option::Some(arg_entries_view(v@)),
    }
}

impl View for ArgumentSet {
    type V = ArgumentSetView;

    open spec fn view(&self) -> ArgumentSetView {
        ArgumentSetView { jvm: opt_args_view(self.jvm), game: opt_args_view(self.game) }
    }
}

/// One library dependency of a version.
#[derive(Debug)]
pub struct LibraryEntry {
    /// Maven-style coordinates `group:artifact:version[:classifier]`.
    pub name: Option<String>,
    pub downloads: Option<LibraryDownloads>,
    pub rules: Option<Vec<Rule>>,
    /// Map from OS name to native classifier key template, if present.
    pub natives: Option<Vec<(String, String)>>,
}

/// Ghost record of a `LibraryEntry`.
pub struct LibraryEntryView {
    pub name: Option<Seq<char>>,
    pub downloads: Option<LibraryDownloadsView>,
    pub rules: Option<Seq<RuleView>>,
    pub natives: Option<Seq<(Seq<char>, Seq<char>)>>,
}

/// The views of a list of string pairs.
pub open spec fn string_pairs_view(s: Seq<(String, String)>) -> Seq<(Seq<char>, Seq<char>)> {
    s.map_values(|p: (String, String)| (p.0@, p.1@))
}

impl View for LibraryEntry {
    type V = LibraryEntryView;

    open spec fn view(&self) -> LibraryEntryView {
        LibraryEntryView {
            name: opt_str_view(self.name),
            downloads: match self.downloads {
                Option::None => Option::None,
                Option::Some(d) => Option::Some(d@),
            },
            rules: opt_rules_view(self.rules),
            natives: match self.natives {
                Option::None => Option::None,
                Option::Some(v) => Option::Some(string_pairs_view(v@)),
            },
        }
    }
}

/// The views of a library list.
pub open spec fn libraries_view(s: Seq<LibraryEntry>) -> Seq<LibraryEntryView> {
    s.map_values(|l: LibraryEntry| l@)
}

/// One installed version's manifest, as read from disk.
#[derive(Debug)]
pub struct VersionDescriptor {
    pub id: String,
    pub version_type: Option<String>,
    pub main_class: Option<String>,
    pub inherits_from: Option<String>,
    pub assets: Option<String>,
    pub asset_index: Option<AssetIndex>,
    pub libraries: Vec<LibraryEntry>,
    pub arguments: Option<ArgumentSet>,
    pub minecraft_arguments: Option<String>,
    pub downloads: Option<Downloads>,
    /// The major Java version the manifest asks for, if it says.
    pub java_major: Option<u32>,
}

/// Ghost record of a `VersionDescriptor`.
pub struct VersionDescriptorView {
    pub id: Seq<char>,
    pub version_type: Option<Seq<char>>,
    pub main_class: Option<Seq<char>>,
    pub inherits_from: Option<Seq<char>>,
    pub assets: Option<Seq<char>>,
    pub asset_index: Option<AssetIndexView>,
    pub libraries: Seq<LibraryEntryView>,
    pub arguments: Option<ArgumentSetView>,
    pub minecraft_arguments: Option<Seq<char>>,
    pub downloads: Option<DownloadsView>,
    pub java_major: Option<u32>,
}

impl View for VersionDescriptor {
    type V = VersionDescriptorView;

    open spec fn view(&self) -> VersionDescriptorView {
        VersionDescriptorView {
            id: self.id@,
            version_type: opt_str_view(self.version_type),
            main_class: opt_str_view(self.main_class),
            inherits_from: opt_str_view(self.inherits_from),
            assets: opt_str_view(self.assets),
            asset_index: match self.asset_index {
                Option::None => Option::None,
                Option::Some(a) => Option::Some(a@),
            },
            libraries: libraries_view(self.libraries@),
            arguments: match self.arguments {
                Option::None => Option::None,
                Option::Some(a) => Option::Some(a@),
            },
            minecraft_arguments: opt_str_view(self.minecraft_arguments),
            downloads: match self.downloads {
                Option::None => Option::None,
                Option::Some(d) => Option::Some(d@),
            },
            java_major: self.java_major,
        }
    }
}

/// The views of a descriptor list.
pub open spec fn descriptors_view(s: Seq<VersionDescriptor>) -> Seq<VersionDescriptorView> {
    s.map_values(|d: VersionDescriptor| d@)
}

/// A copy of an optional string.
pub fn clone_opt_string(o: &Option<String>) -> (r: Option<String>)
    ensures
        r == *o,
{
    match o {
        Option::None => Option::None,
        Option::Some(s) => Option::Some(s.clone()),
    }
}

/// A copy of a string vector.
pub fn clone_strings(v: &Vec<String>) -> (r: Vec<String>)
    ensures
        r@ == v@,
{
    let r = v.clone();
    proof {
        assert(r@ =~= v@);
    }
    r
}

/// A copy of a vector of string pairs.
pub fn clone_string_pairs(v: &Vec<(String, String)>) -> (r: Vec<(String, String)>)
    ensures
        r@ == v@,
{
    let mut r: Vec<(String, String)> = Vec::new();
    let mut i: usize = 0;
    while i < v.len()
        invariant
            i <= v@.len(),
            r@ == v@.subrange(0, i as int),
        decreases v@.len() - i,
    {
        let a = v[i].0.clone();
        let b = v[i].1.clone();
        r.push((a, b));
        i = i + 1;
        proof {
            assert(r@ =~= v@.subrange(0, i as int));
        }
    }
    proof {
        assert(r@ =~= v@);
    }
    r
}

impl DownloadInfo {
    /// A copy of this artifact record.
    pub fn duplicate(&self) -> (r: Self)
        ensures
            r == *self,
    {
        DownloadInfo {
            sha1: clone_opt_string(&self.sha1),
            size: self.size,
            url: self.url.clone(),
        }
    }
}

impl Downloads {
    /// A copy of this download section.
    pub fn duplicate(&self) -> (r: Self)
        ensures
            r == *self,
    {
        Downloads {
            client: match &self.client {
                Option::None => Option::None,
                Option::Some(d) => Option::Some(d.duplicate()),
            },
            server: match &self.server {
                Option::None => Option::None,
                Option::Some(d) => Option::Some(d.duplicate()),
            },
        }
    }
}

impl AssetIndex {
    /// A copy of this asset-index reference.
    pub fn duplicate(&self) -> (r: Self)
        ensures
            r == *self,
    {
        AssetIndex {
            id: self.id.clone(),
            sha1: clone_opt_string(&self.sha1),
            size: self.size,
            url: self.url.clone(),
            total_size: self.total_size,
        }
    }
}

impl LibraryArtifact {
    /// A copy of this artifact record.
    pub fn duplicate(&self) -> (r: Self)
        ensures
            r == *self,
    {
        LibraryArtifact {
            path: self.path.clone(),
            sha1: clone_opt_string(&self.sha1),
            size: self.size,
            url: self.url.clone(),
        }
    }
}

impl LibraryDownloads {
    /// A copy of this download section, equal to it in view.
    pub fn duplicate(&self) -> (r: Self)
        ensures
            r@ == self@,
    {
        let mut classifiers: Vec<(String, LibraryArtifact)> = Vec::new();
        let mut i: usize = 0;
        while i < self.classifiers.len()
            invariant
                i <= self.classifiers@.len(),
                classifiers@.len() == i,
                forall|j: int| 0 <= j < i ==> classifiers@[j] == self.classifiers@[j],
            decreases self.classifiers@.len() - i,
        {
            let key = self.classifiers[i].0.clone();
            let art = self.classifiers[i].1.duplicate();
            classifiers.push((key, art));
            i = i + 1;
        }
        proof {
            assert(classifiers@ =~= self.classifiers@);
        }
        LibraryDownloads {
            artifact: match &self.artifact {
                Option::None => Option::None,
                Option::Some(a) => Option::Some(a.duplicate()),
            },
            classifiers,
        }
    }
}

impl Rule {
    /// A copy of this rule.
    pub fn duplicate(&self) -> (r: Self)
        ensures
            r == *self,
    {
        Rule {
            allow: self.allow,
            os_name: clone_opt_string(&self.os_name),
            has_features: self.has_features,
        }
    }
}

/// A copy of a rule vector.
pub fn clone_rules(v: &Vec<Rule>) -> (r: Vec<Rule>)
    ensures
        r@ == v@,
{
    let mut r: Vec<Rule> = Vec::new();
    let mut i: usize = 0;
    while i < v.len()
        invariant
            i <= v@.len(),
            r@ == v@.subrange(0, i as int),
        decreases v@.len() - i,
    {
        r.push(v[i].duplicate());
        i = i + 1;
        proof {
            assert(r@ =~= v@.subrange(0, i as int));
        }
    }
    proof {
        assert(r@ =~= v@);
    }
    r
}

/// A copy of an optional rule vector.
pub fn clone_opt_rules(o: &Option<Vec<Rule>>) -> (r: Option<Vec<Rule>>)
    ensures
        opt_rules_view(r) == opt_rules_view(*o),
{
    match o {
        Option::None => Option::None,
        Option::Some(v) => {
            let c = clone_rules(v);
            Option::Some(c)
        },
    }
}

impl ArgValue {
    /// A copy of this value, equal to it in view.
    pub fn duplicate(&self) -> (r: Self)
        ensures
            r@ == self@,
    {
        match self {
            ArgValue::One(s) => ArgValue::One(s.clone()),
            ArgValue::Many(v) => {
                let c = ArgValue::Many(clone_strings(v));
                c
            },
        }
    }
}

impl ArgEntry {
    /// A copy of this entry, equal to it in view.
    pub fn duplicate(&self) -> (r: Self)
        ensures
            r@ == self@,
    {
        match self {
            ArgEntry::Plain(s) => ArgEntry::Plain(s.clone()),
            ArgEntry::Conditional { rules, value } => ArgEntry::Conditional {
                rules: clone_opt_rules(rules),
                value: match value {
                    Option::None => Option::None,
                    Option::Some(v) => Option::Some(v.duplicate()),
                },
            },
        }
    }
}

/// A copy of an argument entry vector, elementwise equal in view.
pub fn clone_arg_entries(v: &Vec<ArgEntry>) -> (r: Vec<ArgEntry>)
    ensures
        arg_entries_view(r@) == arg_entries_view(v@),
{
    let mut r: Vec<ArgEntry> = Vec::new();
    let mut i: usize = 0;
    while i < v.len()
        invariant
            i <= v@.len(),
            r@.len() == i,
            forall|j: int| 0 <= j < i ==> r@[j]@ == v@[j]@,
        decreases v@.len() - i,
    {
        r.push(v[i].duplicate());
        i = i + 1;
    }
    proof {
        assert(arg_entries_view(r@) =~= arg_entries_view(v@));
    }
    r
}

impl ArgumentSet {
    /// A copy of this argument schema, equal to it in view.
    pub fn duplicate(&self) -> (r: Self)
        ensures
            r@ == self@,
    {
        let r = ArgumentSet {
            jvm: match &self.jvm {
                Option::None => Option::None,
                Option::Some(v) => Option::Some(clone_arg_entries(v)),
            },
            game: match &self.game {
                Option::None => Option::None,
                Option::Some(v) => Option::Some(clone_arg_entries(v)),
            },
        };
        r
    }
}

impl LibraryEntry {
    /// A copy of this library entry, equal to it in view.
    pub fn duplicate(&self) -> (r: Self)
        ensures
            r@ == self@,
    {
        let r = LibraryEntry {
            name: clone_opt_string(&self.name),
            downloads: match &self.downloads {
                Option::None => Option::None,
                Option::Some(d) => Option::Some(d.duplicate()),
            },
            rules: clone_opt_rules(&self.rules),
            natives: match &self.natives {
                Option::None => Option::None,
                Option::Some(v) => Option::Some(clone_string_pairs(v)),
            },
        };
        r
    }
}

/// A copy of a library vector, elementwise equal in view.
pub fn clone_libraries(v: &Vec<LibraryEntry>) -> (r: Vec<LibraryEntry>)
    ensures
        libraries_view(r@) == libraries_view(v@),
{
    let mut r: Vec<LibraryEntry> = Vec::new();
    let mut i: usize = 0;
    while i < v.len()
        invariant
            i <= v@.len(),
            r@.len() == i,
            forall|j: int| 0 <= j < i ==> r@[j]@ == v@[j]@,
        decreases v@.len() - i,
    {
        r.push(v[i].duplicate());
        i = i + 1;
    }
    proof {
        assert(libraries_view(r@) =~= libraries_view(v@));
    }
    r
}

impl VersionDescriptor {
    /// A copy of this descriptor, equal to it in view.
    pub fn duplicate(&self) -> (r: Self)
        ensures
            r@ == self@,
    {
        let r = VersionDescriptor {
            id: self.id.clone(),
            version_type: clone_opt_string(&self.version_type),
            main_class: clone_opt_string(&self.main_class),
            inherits_from: clone_opt_string(&self.inherits_from),
            assets: clone_opt_string(&self.assets),
            asset_index: match &self.asset_index {
                Option::None => Option::None,
                Option::Some(a) => Option::Some(a.duplicate()),
            },
            libraries: clone_libraries(&self.libraries),
            arguments: match &self.arguments {
                Option::None => Option::None,
                Option::Some(a) => Option::Some(a.duplicate()),
            },
            minecraft_arguments: clone_opt_string(&self.minecraft_arguments),
            downloads: match &self.downloads {
                Option::None => Option::None,
                Option::Some(d) => Option::Some(d.duplicate()),
            },
            java_major: self.java_major,
        };
        r
    }
}

/// The upstream version list: the latest ids and one entry per version.
#[derive(Debug)]
pub struct VersionManifest {
    pub latest: LatestVersions,
    pub versions: Vec<VersionEntry>,
}

/// The newest release and snapshot ids of the upstream version list.
#[derive(Debug)]
pub struct LatestVersions {
    pub release: String,
    pub snapshot: String,
}

/// One entry of the upstream version list.
#[derive(Debug)]
pub struct VersionEntry {
    pub id: String,
    pub version_type: String,
    pub url: String,
    pub time: String,
    pub release_time: String,
}

/// What a file-completion pass found and did.
#[derive(Debug)]
pub struct CompletionResult {
    pub success: bool,
    pub missing_files: Vec<String>,
    pub downloaded_files: Vec<String>,
    pub failed_files: Vec<String>,
}

/// The set of files known to exist on disk, as absolute or root-relative
/// path strings supplied by the caller.
///
/// The resolver trusts this set in both directions: a path it holds is
/// treated as present, and every other path as absent.
#[derive(Debug)]
pub struct FileSet {
    pub paths: Vec<String>,
}

impl FileSet {
    /// Whether `p` is a path of this set.
    pub open spec fn has(&self, p: Seq<char>) -> bool {
        exists|i: int| 0 <= i < self.paths@.len() && self.paths@[i]@ == p
    }

    /// An empty file set.
    pub fn empty() -> (r: Self)
        ensures
            forall|p: Seq<char>| !r.has(p),
    {
        FileSet { paths: Vec::new() }
    }

    /// A file set holding exactly the given paths.
    pub fn new(paths: Vec<String>) -> (r: Self)
        ensures
            r.paths@ == paths@,
    {
        FileSet { paths }
    }

    /// Whether the file at `p` exists.
    pub fn contains(&self, p: &String) -> (r: bool)
        ensures
            r == self.has(p@),
    {
        let mut i: usize = 0;
        while i < self.paths.len()
            invariant
                i <= self.paths@.len(),
                forall|j: int| 0 <= j < i ==> self.paths@[j]@ != p@,
            decreases self.paths@.len() - i,
    {
            if self.paths[i].eq(p) {
                return true;
            }
            i = i + 1;
        }
        false
    }
}

} // verus!

//! The data stored in the registry index: one record per published
//! version of a package, plus the metadata a client uploads with a
//! publish request.

use crate::requirement::{Requirement, RequirementView};
use crate::version::{copy_bytes, Version, VersionView};
use vstd::prelude::*;

verus! {

/// The different kinds of dependencies.
#[derive(Debug, Clone, Copy, PartialEq, Eq, Structural)]
pub enum CrateDependencyKind {
    /// A normal dependency.
    Normal,
    /// A build dependency.
    Build,
    /// A development dependency.
    Dev,
}

/// The mathematical value of a dependency.
pub ghost struct DependencyView {
    pub name: Seq<char>,
    pub req: RequirementView,
    pub features: Seq<Seq<char>>,
    pub optional: bool,
    pub default_features: bool,
    pub target: Option<Seq<char>>,
    pub kind: CrateDependencyKind,
    pub registry: Option<Seq<char>>,
    pub package: Option<Seq<char>>,
}

/// One dependency of a crate version.
#[derive(Debug)]
pub struct CrateDependency {
    /// The name of the dependency; if renamed, the new name, with the
    /// original name in `package`.
    pub name: String,
    /// The version requirement (for example `^1.2.0`).
    pub req: Requirement,
    /// The features requested for the dependency.
    pub features: Vec<String>,
    /// Whether the dependency is optional.
    pub optional: bool,
    /// Whether the default features of the dependency are enabled.
    pub default_features: bool,
    /// The target platform, such as `cfg(windows)`, if restricted.
    pub target: Option<String>,
    /// The kind of the dependency.
    pub kind: CrateDependencyKind,
    /// The URL of the registry index this dependency comes from, if
    /// not the current registry.
    pub registry: Option<String>,
    /// The original crate name when the dependency is renamed.
    pub package: Option<String>,
}

impl View for CrateDependency {
    type V = DependencyView;

    open spec fn view(&self) -> DependencyView {
        DependencyView {
            name: self.name@,
            req: self.req@,
            features: self.features.deep_view(),
            optional: self.optional,
            default_features: self.default_features,
            target: self.target.deep_view(),
            kind: self.kind,
            registry: self.registry.deep_view(),
            package: self.package.deep_view(),
        }
    }
}

impl DeepView for CrateDependency {
    type V = DependencyView;

    open spec fn deep_view(&self) -> DependencyView {
        self.view()
    }
}

/// The mathematical value of one feature-table entry.
pub ghost struct FeatureEntryView {
    pub name: Seq<char>,
    pub enables: Seq<Seq<char>>,
}

/// One entry of a crate's feature table: a feature name and what it
/// enables. The table's entry order carries no meaning.
#[derive(Debug)]
pub struct FeatureEntry {
    pub name: String,
    pub enables: Vec<String>,
}

impl View for FeatureEntry {
    type V = FeatureEntryView;

    open spec fn view(&self) -> FeatureEntryView {
        FeatureEntryView { name: self.name@, enables: self.enables.deep_view() }
    }
}

impl DeepView for FeatureEntry {
    type V = FeatureEntryView;

    open spec fn deep_view(&self) -> FeatureEntryView {
        self.view()
    }
}

/// The mathematical value of a version record.
pub ghost struct RecordView {
    pub name: Seq<char>,
    pub version: VersionView,
    pub dependencies: Seq<DependencyView>,
    pub checksum: Seq<char>,
    pub features: Seq<FeatureEntryView>,
    pub yanked: bool,
    pub links: Option<Seq<char>>,
}

impl RecordView {
    /// The same record with the yank flag set to `b` and every other
    /// field untouched.
    pub open spec fn with_yanked(self, b: bool) -> RecordView {
        RecordView {
            name: self.name,
            version: self.version,
            dependencies: self.dependencies,
            checksum: self.checksum,
            features: self.features,
            yanked: b,
            links: self.links,
        }
    }
}

/// One published version of one package, as stored in the index.
///
/// Created on the first successful publish of its `(name, version)`
/// pair; afterwards only the `yanked` flag ever changes, and no record
/// is ever removed.
#[derive(Debug)]
pub struct CrateVersion {
    /// The name of the crate.
    pub name: String,
    /// The version of the crate.
    pub version: Version,
    /// The dependencies of the crate.
    pub dependencies: Vec<CrateDependency>,
    /// The hex-encoded SHA-256 digest of the archive bytes; set once
    /// at creation and never changed.
    pub checksum: String,
    /// The features of the crate and what each enables.
    pub features: Vec<FeatureEntry>,
    /// Whether the version is yanked.
    pub yanked: bool,
    /// The native-library link key, if any.
    pub links: Option<String>,
}

impl View for CrateVersion {
    type V = RecordView;

    open spec fn view(&self) -> RecordView {
        RecordView {
            name: self.name@,
            version: self.version@,
            dependencies: self.dependencies.deep_view(),
            checksum: self.checksum@,
            features: self.features.deep_view(),
            yanked: self.yanked,
            links: self.links.deep_view(),
        }
    }
}

impl DeepView for CrateVersion {
    type V = RecordView;

    open spec fn deep_view(&self) -> RecordView {
        self.view()
    }
}

/// The metadata a package-manager client uploads with a publish
/// request, as far as the core consumes it.
#[derive(Debug)]
pub struct CrateMetadata {
    /// The name of the crate.
    pub name: String,
    /// The version to publish.
    pub version: Version,
    /// The dependencies of the crate.
    pub dependencies: Vec<CrateDependency>,
    /// The features of the crate.
    pub features: Vec<FeatureEntry>,
    /// A short description, for the catalog.
    pub description: Option<String>,
    /// The documentation URL, for the catalog.
    pub documentation: Option<String>,
    /// The repository URL, for the catalog.
    pub repository: Option<String>,
    /// The native-library link key, if any.
    pub links: Option<String>,
}

/// A copy of a string.
pub fn copy_string(s: &String) -> (r: String)
    ensures
        r@ == s@,
{
    s.as_str().to_owned()
}

/// A copy of an optional string.
pub fn copy_opt_string(s: &Option<String>) -> (r: Option<String>)
    ensures
        r.deep_view() == s.deep_view(),
{
    match s {
        Some(x) => Some(copy_string(x)),
        None => None,
    }
}

/// A copy of a vector of strings.
pub fn copy_strings(v: &Vec<String>) -> (r: Vec<String>)
    ensures
        r.deep_view() == v.deep_view(),
{
    let mut r: Vec<String> = Vec::new();
    let mut i: usize = 0;
    while i < v.len()
        invariant
            i <= v.len(),
            r.deep_view() =~= v.deep_view().take(i as int),
        decreases v.len() - i,
    {
        let ghost prev = r.deep_view();
        r.push(copy_string(&v[i]));
        proof {
            assert(r.deep_view() =~= prev.push(v@[i as int]@));
            assert(r.deep_view() =~= v.deep_view().take(i + 1));
        }
        i += 1;
    }
    proof {
        assert(r.deep_view() =~= v.deep_view());
    }
    r
}

impl Requirement {
    /// A structurally identical copy.
    pub fn duplicate(&self) -> (r: Requirement)
        ensures
            r@ == self@,
    {
        match self {
            Requirement::Exact(v) => Requirement::Exact(v.duplicate()),
            Requirement::Caret(v) => Requirement::Caret(v.duplicate()),
            Requirement::Wildcard => Requirement::Wildcard,
        }
    }
}

impl CrateDependency {
    /// A structurally identical copy.
    pub fn duplicate(&self) -> (r: CrateDependency)
        ensures
            r@ == self@,
    {
        CrateDependency {
            name: copy_string(&self.name),
            req: self.req.duplicate(),
            features: copy_strings(&self.features),
            optional: self.optional,
            default_features: self.default_features,
            target: copy_opt_string(&self.target),
            kind: self.kind,
            registry: copy_opt_string(&self.registry),
            package: copy_opt_string(&self.package),
        }
    }
}

/// A copy of a dependency list.
pub fn copy_dependencies(v: &Vec<CrateDependency>) -> (r: Vec<CrateDependency>)
    ensures
        r.deep_view() == v.deep_view(),
{
    let mut r: Vec<CrateDependency> = Vec::new();
    let mut i: usize = 0;
    while i < v.len()
        invariant
            i <= v.len(),
            r.deep_view() =~= v.deep_view().take(i as int),
        decreases v.len() - i,
    {
        let ghost prev = r.deep_view();
        r.push(v[i].duplicate());
        proof {
            assert(r.deep_view() =~= prev.push(v@[i as int]@));
            assert(r.deep_view() =~= v.deep_view().take(i + 1));
        }
        i += 1;
    }
    proof {
        assert(r.deep_view() =~= v.deep_view());
    }
    r
}

impl FeatureEntry {
    /// A structurally identical copy.
    pub fn duplicate(&self) -> (r: FeatureEntry)
        ensures
            r@ == self@,
    {
        FeatureEntry { name: copy_string(&self.name), enables: copy_strings(&self.enables) }
    }
}

/// A copy of a feature table.
pub fn copy_features(v: &Vec<FeatureEntry>) -> (r: Vec<FeatureEntry>)
    ensures
        r.deep_view() == v.deep_view(),
{
    let mut r: Vec<FeatureEntry> = Vec::new();
    let mut i: usize = 0;
    while i < v.len()
        invariant
            i <= v.len(),
            r.deep_view() =~= v.deep_view().take(i as int),
        decreases v.len() - i,
    {
        let ghost prev = r.deep_view();
        r.push(v[i].duplicate());
        proof {
            assert(r.deep_view() =~= prev.push(v@[i as int]@));
            assert(r.deep_view() =~= v.deep_view().take(i + 1));
        }
        i += 1;
    }
    proof {
        assert(r.deep_view() =~= v.deep_view());
    }
    r
}

impl CrateVersion {
    /// A structurally identical copy.
    pub fn duplicate(&self) -> (r: CrateVersion)
        ensures
            r@ == self@,
    {
        CrateVersion {
            name: copy_string(&self.name),
            version: self.version.duplicate(),
            dependencies: copy_dependencies(&self.dependencies),
            checksum: copy_string(&self.checksum),
            features: copy_features(&self.features),
            yanked: self.yanked,
            links: copy_opt_string(&self.links),
        }
    }
}

/// Builds the immutable index record for a publish: the metadata's
/// fields, the archive checksum computed during the publish, and the
/// yank flag clear.
pub fn record_from_metadata(meta: &CrateMetadata, checksum: String) -> (r: CrateVersion)
    ensures
        r@.name == meta.name@,
        r@.version == meta.version@,
        r@.dependencies == meta.dependencies.deep_view(),
        r@.checksum == checksum@,
        r@.features == meta.features.deep_view(),
        r@.yanked == false,
        r@.links == meta.links.deep_view(),
{
    CrateVersion {
        name: copy_string(&meta.name),
        version: meta.version.duplicate(),
        dependencies: copy_dependencies(&meta.dependencies),
        checksum,
        features: copy_features(&meta.features),
        yanked: false,
        links: copy_opt_string(&meta.links),
    }
}

} // verus!

//! The package API's data: the index, its packages and their manifests.
//!
//! The API is undocumented, so these types only pin down the fields that are
//! used; everything non-essential is optional.

use vstd::prelude::*;
use crate::foundry::local::VersionField;
use crate::foundry::PackageType;
use crate::text;

verus! {

/// The response of `POST /_api/packages/get` for one package type.
#[derive(Debug)]
pub struct PackagesResponse {
    /// `"success"` on success; anything else marks a failed request.
    pub status: String,
    /// Every package of the requested type known to `FoundryVTT`.
    pub packages: Vec<Package>,
    /// IDs of the protected packages this license has purchased.
    pub owned: Vec<u64>,
}

/// One package as listed in the index.
///
/// The index is a snapshot: [`Package::version`] describes the *latest*
/// version only, and older versions can never be retrieved.
#[derive(Clone, Debug)]
pub struct Package {
    /// Numeric package ID, matched against [`PackagesResponse::owned`].
    pub id: u64,
    /// The package slug (also its installation directory name).
    pub name: String,
    /// Human-readable title.
    pub title: String,
    /// Author display name.
    pub author: Option<String>,
    /// Short description (may contain HTML).
    pub description: Option<String>,
    /// Project or repository URL.
    pub url: Option<String>,
    /// Whether downloads require purchase and the auth endpoint.
    pub is_protected: bool,
    /// Slugs of the systems this package requires, when system-specific.
    ///
    /// Real module-to-module dependencies live in package manifests instead.
    pub systems: Vec<String>,
    /// The latest released version of the package.
    pub version: VersionInfo,
    /// The newest `FoundryVTT` generation the package is verified for.
    pub verified: Option<String>,
    /// When the package was last updated (ISO 8601).
    pub last_updated: Option<String>,
}

/// The latest-version snapshot of a package.
#[derive(Clone, Debug)]
pub struct VersionInfo {
    /// The version string; free-form in practice (`1.2.3`, `V1.1`, `1..1`).
    pub version: String,
    /// URL of the package manifest (`module.json` / `system.json`).
    pub manifest: String,
    /// Minimum `FoundryVTT` core version required, when declared.
    pub required_core_version: Option<String>,
    /// `FoundryVTT` core version the package is known compatible with.
    pub compatible_core_version: Option<String>,
    /// URL of the release notes, when published.
    pub notes: Option<String>,
}

/// A dependency on the latest version of another package.
#[derive(Clone, Debug)]
pub struct DependencyRef {
    /// The type of the package depended on.
    pub kind: PackageType,
    /// The id of the package depended on.
    pub id: String,
}

/// A package's type and name.
pub type Key = (PackageType, Seq<char>);

impl DependencyRef {
    /// The package depended on.
    pub open spec fn key(&self) -> Key {
        (self.kind, self.id@)
    }

    /// Another reference to the same package.
    pub fn duplicate(&self) -> (copy: DependencyRef)
        ensures
            copy.key() == self.key(),
    {
        DependencyRef { kind: self.kind, id: self.id.clone() }
    }
}

/// The packages a list of dependencies refers to.
pub open spec fn keys(dependencies: Seq<DependencyRef>) -> Seq<Key> {
    dependencies.map_values(|dependency: DependencyRef| dependency.key())
}

/// The subset of a remote package manifest that installs read.
#[derive(Clone, Debug)]
pub struct RemoteManifest {
    /// The package id (`FoundryVTT` v10+).
    pub id: Option<String>,
    /// The legacy package identifier (pre-v10 manifests).
    pub name: Option<String>,
    /// Declared version, when present.
    pub version: Option<VersionField>,
    /// URL of the release zip.
    pub download: Option<String>,
    /// Hard dependencies.
    pub needs: Vec<DependencyRef>,
    /// Recommended companions.
    pub suggests: Vec<DependencyRef>,
}

/// A text that may be absent.
pub open spec fn optional(text: Option<String>) -> Option<Seq<char>> {
    match text {
        Some(present) => Some(present@),
        None => None,
    }
}

impl RemoteManifest {
    /// The declared package id, as text.
    pub open spec fn id_text(&self) -> Option<Seq<char>> {
        match self.id {
            Some(id) => Some(id@),
            None => optional(self.name),
        }
    }

    /// The declared version, as text.
    pub open spec fn version_text(&self) -> Option<Seq<char>> {
        match self.version {
            Some(field) => Some(field.text()),
            None => None,
        }
    }

    /// The declared package id: the modern field, else the legacy one.
    #[must_use]
    pub fn id(&self) -> (id: Option<String>)
        ensures
            optional(id) == self.id_text(),
    {
        match &self.id {
            Some(id) => Some(id.clone()),
            None => match &self.name {
                Some(name) => Some(name.clone()),
                None => None,
            },
        }
    }

    /// The declared version.
    #[must_use]
    pub fn version(&self) -> (version: Option<String>)
        ensures
            optional(version) == self.version_text(),
    {
        match &self.version {
            Some(field) => Some(field.as_string()),
            None => None,
        }
    }
}

/// The first package called `name`.
pub open spec fn first_named(packages: Seq<Package>, name: Seq<char>) -> Option<Package>
    decreases packages.len(),
{
    if packages.len() == 0 {
        None
    } else if packages[0].name@ == name {
        Some(packages[0])
    } else {
        first_named(packages.drop_first(), name)
    }
}

/// The first package that is found bears the name that was looked for.
pub proof fn first_named_is_listed(packages: Seq<Package>, name: Seq<char>)
    ensures
        first_named(packages, name) matches Some(package) ==> package.name@ == name
            && packages.contains(package),
        first_named(packages, name) is None ==> forall|i: int|
            0 <= i < packages.len() ==> (#[trigger] packages[i]).name@ != name,
    decreases packages.len(),
{
    if packages.len() > 0 && packages[0].name@ != name {
        let rest = packages.drop_first();
        first_named_is_listed(rest, name);
        if let Some(package) = first_named(rest, name) {
            let i = choose|i: int| 0 <= i < rest.len() && rest[i] == package;
            assert(packages[i + 1] == package);
        } else {
            assert forall|i: int| 0 <= i < packages.len() implies (#[trigger] packages[i]).name@
                != name by {
                if i > 0 {
                    assert(rest[i - 1] == packages[i]);
                }
            }
        }
    }
    if packages.len() > 0 {
        assert(packages[0] == packages.first());
    }
}

/// The package that is found is the one in front of all others of its name.
pub proof fn the_first_of_a_name_is_found(packages: Seq<Package>, name: Seq<char>, at: int)
    requires
        0 <= at < packages.len(),
        packages[at].name@ == name,
        forall|i: int| 0 <= i < at ==> (#[trigger] packages[i]).name@ != name,
    ensures
        first_named(packages, name) == Some(packages[at]),
    decreases packages.len(),
{
    if at > 0 {
        let rest = packages.drop_first();
        assert(packages[0].name@ != name);
        assert forall|i: int| 0 <= i < at - 1 implies (#[trigger] rest[i]).name@ != name by {
            assert(rest[i] == packages[i + 1]);
        }
        the_first_of_a_name_is_found(rest, name, at - 1);
    }
}

/// Finds the first package called `name`.
pub fn find<'a>(packages: &'a Vec<Package>, name: &str) -> (found: Option<&'a Package>)
    ensures
        match found {
            Some(package) => first_named(packages@, name@) == Some(*package),
            None => first_named(packages@, name@) is None,
        },
{
    let mut i: usize = 0;
    assert(packages@.skip(0) =~= packages@);
    while i < packages.len()
        invariant
            0 <= i <= packages@.len(),
            first_named(packages@, name@) == first_named(packages@.skip(i as int), name@),
        decreases packages@.len() - i,
    {
        assert(packages@.skip(i as int)[0] == packages@[i as int]);
        assert(packages@.skip(i as int).drop_first() =~= packages@.skip(i + 1));
        if text::same(packages[i].name.as_str(), name) {
            return Some(&packages[i]);
        }
        i = i + 1;
    }
    None
}

/// Whether a package stands in front of all others of its name.
pub open spec fn stands_first(packages: Seq<Package>, name: Seq<char>, at: int) -> bool {
    0 <= at < packages.len() && packages[at].name@ == name && forall|i: int|
        0 <= i < at ==> (#[trigger] packages[i]).name@ != name
}

/// A package is found by its name just when one is listed, and then it is the
/// one in front of all others of that name.
pub proof fn packages_are_found_by_name(packages: Seq<Package>, name: Seq<char>)
    ensures
        first_named(packages, name) matches Some(package) ==> exists|at: int| #[trigger]
            stands_first(packages, name, at) && packages[at] == package,
        first_named(packages, name) is None ==> forall|i: int|
            0 <= i < packages.len() ==> (#[trigger] packages[i]).name@ != name,
        forall|at: int| #[trigger]
            stands_first(packages, name, at) ==> first_named(packages, name) == Some(packages[at]),
    decreases packages.len(),
{
    first_named_is_listed(packages, name);
    assert forall|at: int| #[trigger] stands_first(packages, name, at) implies first_named(
        packages,
        name,
    ) == Some(packages[at]) by {
        the_first_of_a_name_is_found(packages, name, at);
    }
    if packages.len() > 0 && first_named(packages, name) is Some {
        if packages[0].name@ == name {
            assert(stands_first(packages, name, 0));
        } else {
            let rest = packages.drop_first();
            packages_are_found_by_name(rest, name);
            let at = choose|at: int| #[trigger]
                stands_first(rest, name, at) && rest[at] == first_named(packages, name)->0;
            assert(packages[at + 1] == rest[at]);
            assert forall|i: int| 0 <= i < at + 1 implies (#[trigger] packages[i]).name@ != name by {
                if i > 0 {
                    assert(rest[i - 1].name@ != name);
                }
            }
            assert(stands_first(packages, name, at + 1));
        }
    }
}

} // verus!

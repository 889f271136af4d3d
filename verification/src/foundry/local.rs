//! Scanning the packages installed in a local `FoundryVTT` data directory.
//!
//! The on-disk state is the only source of truth: `FoundryVTT` itself can
//! install, update or remove packages at any time, so `Data/modules/` and
//! `Data/systems/` are rescanned on every invocation and no bookkeeping is
//! kept. What was found on disk comes in as plain values.

use vstd::prelude::*;
use crate::foundry::{Installation, PackageType};
use crate::order::{self, Keyed};
use crate::paths;
use crate::text;

verus! {

/// An installed package found on disk.
#[derive(Clone, Debug)]
pub struct Installed {
    /// The package slug (directory name, validated against the manifest).
    pub id: String,
    /// Human-readable title from the manifest.
    pub title: Option<String>,
    /// Installed version from the manifest, when declared.
    pub version: Option<String>,
}

impl Keyed for Installed {
    open spec fn key(&self) -> Seq<char> {
        self.id@
    }

    fn key_text(&self) -> (text: &str) {
        self.id.as_str()
    }
}

/// The result of scanning one package directory tree.
#[derive(Debug)]
pub struct Scan {
    /// All packages with a readable manifest, sorted by id.
    pub packages: Vec<Installed>,
    /// Directories that exist but could not be understood, with the reason.
    /// These still *occupy* their slug, so callers must surface them rather
    /// than treat them as absent.
    pub skipped: Vec<(String, String)>,
}

/// Errors that can occur while scanning for installed packages.
#[derive(Clone, Debug)]
pub enum Error {
    /// The packages directory exists but could not be listed.
    Unlistable {
        /// The directory that could not be listed.
        path: String,
        /// Why the listing failed.
        reason: String,
    },
}

impl Error {
    /// The text of this error.
    pub open spec fn text(self) -> Seq<char> {
        match self {
            Error::Unlistable { path, reason } => "could not list "@ + path@,
        }
    }

    /// The texts of what caused this error, outermost first.
    pub open spec fn causes(self) -> Seq<Seq<char>> {
        match self {
            Error::Unlistable { path, reason } => seq![reason@],
        }
    }

    /// The text of this error.
    #[must_use]
    pub fn message(&self) -> (message: String)
        ensures
            message@ == self.text(),
    {
        match self {
            Error::Unlistable { path, .. } => {
                let mut message = "could not list ".to_owned();
                message.append(path.as_str());
                message
            },
        }
    }

    /// The texts of this error and of what caused it, outermost first.
    #[must_use]
    pub fn chain(&self) -> (chain: Vec<String>)
        ensures
            text::views(chain@) == seq![self.text()] + self.causes(),
    {
        let chain = match self {
            Error::Unlistable { reason, .. } => vec![self.message(), reason.clone()],
        };
        assert(text::views(chain@) =~= seq![self.text()] + self.causes());
        chain
    }
}

/// The subset of a package manifest (`module.json` / `system.json`) that the
/// installed-package scan reads.
#[derive(Clone, Debug)]
pub struct Manifest {
    /// The package id (`FoundryVTT` v10+).
    pub id: Option<String>,
    /// The legacy package identifier (pre-v10 manifests).
    pub name: Option<String>,
    /// Human-readable title.
    pub title: Option<String>,
    /// Declared version; a string in modern manifests but occasionally a
    /// bare JSON number in old ones.
    pub version: Option<VersionField>,
}

/// A manifest version that may be either a string or a bare number.
#[derive(Clone, Debug)]
pub enum VersionField {
    /// The common case: a version string.
    Text(String),
    /// Legacy manifests sometimes declare `"version": 1.0`; this holds the
    /// number in JSON notation.
    Number(String),
}

impl VersionField {
    /// The version as a string.
    pub open spec fn string(self) -> String {
        match self {
            VersionField::Text(text) => text,
            VersionField::Number(number) => number,
        }
    }

    /// The version, as text.
    pub open spec fn text(self) -> Seq<char> {
        self.string()@
    }

    /// Normalizes the version to a string, consuming the field.
    pub fn into_string(self) -> (text: String)
        ensures
            text == self.string(),
    {
        match self {
            VersionField::Text(text) => text,
            VersionField::Number(number) => number,
        }
    }

    /// Normalizes the version to a string.
    pub fn as_string(&self) -> (text: String)
        ensures
            text == self.string(),
    {
        match self {
            VersionField::Text(text) => text.clone(),
            VersionField::Number(number) => number.clone(),
        }
    }
}

/// What a package directory holds in place of its manifest.
#[derive(Clone, Debug)]
pub enum ManifestFile {
    /// The manifest could not be read, with the reason.
    Unreadable(String),
    /// The manifest is not a manifest, with the reason.
    Invalid(String),
    /// The manifest.
    Parsed(Manifest),
}

/// The package a directory holds, or why it is not understood.
pub open spec fn installed_from(kind: PackageType, manifest: ManifestFile) -> Result<
    Installed,
    Seq<char>,
> {
    match manifest {
        ManifestFile::Unreadable(error) => Err(
            "no readable "@ + kind.manifest_text() + ": "@ + error@,
        ),
        ManifestFile::Invalid(error) => Err("invalid "@ + kind.manifest_text() + ": "@ + error@),
        ManifestFile::Parsed(manifest) => {
            let id = if manifest.id is Some {
                manifest.id
            } else {
                manifest.name
            };
            match id {
                None => Err(kind.manifest_text() + " declares no id or name"@),
                Some(id) => Ok(
                    Installed {
                        id,
                        title: manifest.title,
                        version: match manifest.version {
                            Some(version) => Some(version.string()),
                            None => None,
                        },
                    },
                ),
            }
        },
    }
}

/// Reads one installed (or staged) package directory into an [`Installed`]
/// entry. Its id is what the manifest declares, wherever the directory is.
///
/// # Errors
///
/// Returns a human-readable reason when the manifest is missing, unreadable
/// or lacks an id.
pub fn read_installed(kind: PackageType, manifest: ManifestFile) -> (installed: Result<
    Installed,
    String,
>)
    ensures
        match installed_from(kind, manifest) {
            Ok(package) => installed == Ok::<Installed, String>(package),
            Err(reason) => installed matches Err(text) && text@ == reason,
        },
{
    let manifest = match manifest {
        ManifestFile::Unreadable(error) => {
            let mut reason = "no readable ".to_owned();
            reason.append(kind.manifest_filename());
            reason.append(": ");
            reason.append(error.as_str());
            return Err(reason);
        },
        ManifestFile::Invalid(error) => {
            let mut reason = "invalid ".to_owned();
            reason.append(kind.manifest_filename());
            reason.append(": ");
            reason.append(error.as_str());
            return Err(reason);
        },
        ManifestFile::Parsed(manifest) => manifest,
    };
    let Manifest { id, name, title, version } = manifest;
    let id = match id {
        Some(id) => id,
        None => match name {
            Some(name) => name,
            None => {
                let mut reason = kind.manifest_filename().to_owned();
                reason.append(" declares no id or name");
                return Err(reason);
            },
        },
    };
    let version = match version {
        Some(version) => Some(version.into_string()),
        None => None,
    };
    Ok(Installed { id, title, version })
}

/// One entry of a packages directory.
#[derive(Clone, Debug)]
pub struct Entry {
    /// Where it is.
    pub path: String,
    /// Its manifest; nothing when the entry is no directory.
    pub manifest: Option<ManifestFile>,
}

/// What listing a packages directory gave.
#[derive(Clone, Debug)]
pub enum Listing {
    /// There is no such directory.
    Missing,
    /// It could not be listed, with the reason.
    Unlistable(String),
    /// Its entries.
    Entries(Vec<Entry>),
}

/// The package that a directory at `path` holds, or why it is not understood:
/// its manifest has to declare the name of the directory as its id.
pub open spec fn package_at(kind: PackageType, path: Seq<char>, manifest: ManifestFile) -> Result<
    Installed,
    Seq<char>,
> {
    match installed_from(kind, manifest) {
        Err(reason) => Err(reason),
        Ok(package) => if package.id@ == paths::name_part(path) {
            Ok(package)
        } else {
            Err(
                kind.manifest_text() + " declares the id `"@ + package.id@
                    + "`, which is not the name of its directory"@,
            )
        },
    }
}

/// Reads the package directory at `path` into an [`Installed`] entry.
///
/// # Errors
///
/// Returns a human-readable reason when the manifest is missing, unreadable,
/// lacks an id or declares one that is not the name of the directory.
pub fn read_package(kind: PackageType, path: &str, manifest: ManifestFile) -> (package: Result<
    Installed,
    String,
>)
    ensures
        match package_at(kind, path@, manifest) {
            Ok(found) => package == Ok::<Installed, String>(found),
            Err(reason) => package matches Err(text) && text@ == reason,
        },
{
    match read_installed(kind, manifest) {
        Err(reason) => Err(reason),
        Ok(package) => {
            let name = paths::name(path);
            if text::same(package.id.as_str(), name.as_str()) {
                Ok(package)
            } else {
                let mut reason = kind.manifest_filename().to_owned();
                reason.append(" declares the id `");
                reason.append(package.id.as_str());
                reason.append("`, which is not the name of its directory");
                Err(reason)
            }
        },
    }
}

/// The packages among the entries, in their order.
pub open spec fn packages_in(kind: PackageType, entries: Seq<Entry>) -> Seq<Installed>
    decreases entries.len(),
{
    if entries.len() == 0 {
        Seq::empty()
    } else {
        let init = packages_in(kind, entries.drop_last());
        match entries.last().manifest {
            Some(manifest) => match package_at(kind, entries.last().path@, manifest) {
                Ok(package) => init.push(package),
                Err(_) => init,
            },
            None => init,
        }
    }
}

/// The directories among the entries that are not understood, in their order.
pub open spec fn skipped_in(kind: PackageType, entries: Seq<Entry>) -> Seq<(Seq<char>, Seq<char>)>
    decreases entries.len(),
{
    if entries.len() == 0 {
        Seq::empty()
    } else {
        let init = skipped_in(kind, entries.drop_last());
        match entries.last().manifest {
            Some(manifest) => match package_at(kind, entries.last().path@, manifest) {
                Ok(_) => init,
                Err(reason) => init.push((entries.last().path@, reason)),
            },
            None => init,
        }
    }
}

/// Makes sense of a listing of the installed packages of the given type.
///
/// A missing packages directory yields an empty scan (a fresh installation
/// may not have created it yet). Directories without a parseable manifest, or
/// with one that declares another id, are reported in [`Scan::skipped`] instead
/// of failing the whole scan.
///
/// # Errors
///
/// Returns an [`Error`] only when the packages directory exists but cannot
/// be listed at all.
pub fn scan(installation: &Installation, kind: PackageType, listing: Listing) -> (result: Result<
    Scan,
    Error,
>)
    ensures
        match listing {
            Listing::Missing => result matches Ok(scan) && scan.packages@.len() == 0
                && scan.skipped@.len() == 0,
            Listing::Unlistable(reason) => result matches Err(
                Error::Unlistable { path, reason: given },
            ) && path@ == installation.packages_text(kind) && given == reason,
            Listing::Entries(entries) => result matches Ok(scan) && scan.packages@ == order::sorted(
                packages_in(kind, entries@),
            ) && text::pair_views(scan.skipped@) == skipped_in(kind, entries@),
        },
{
    let entries = match listing {
        Listing::Missing => return Ok(Scan { packages: Vec::new(), skipped: Vec::new() }),
        Listing::Unlistable(reason) => return Err(
            Error::Unlistable { path: installation.packages_dir(kind), reason },
        ),
        Listing::Entries(entries) => entries,
    };
    let ghost all = entries@;
    let mut packages: Vec<Installed> = Vec::new();
    let mut skipped: Vec<(String, String)> = Vec::new();
    let ghost mut seen: int = 0;
    assert(all.take(0) =~= Seq::empty());
    assert(text::pair_views(skipped@) =~= Seq::empty());
    for entry in it: entries
        invariant
            it.seq() == all,
            seen == it.index(),
            packages@ == packages_in(kind, all.take(it.index() as int)),
            text::pair_views(skipped@) == skipped_in(kind, all.take(it.index() as int)),
    {
        proof {
            assert(all.take(seen + 1).drop_last() =~= all.take(seen));
            assert(all.take(seen + 1).last() == entry);
            seen = seen + 1;
        }
        let Entry { path, manifest } = entry;
        if let Some(manifest) = manifest {
            match read_package(kind, path.as_str(), manifest) {
                Ok(installed) => packages.push(installed),
                Err(reason) => {
                    let ghost shorter = text::pair_views(skipped@);
                    let ghost added = (path@, reason@);
                    skipped.push((path, reason));
                    assert(text::pair_views(skipped@) =~= shorter.push(added));
                },
            }
        }
    }
    assert(all.take(seen) =~= all);
    Ok(Scan { packages: order::sort(packages), skipped })
}

/// Whether a package was read from an entry: from its manifest, which declares
/// the name of the entry as the id.
pub open spec fn read_from(kind: PackageType, package: Installed, entry: Entry) -> bool {
    entry.manifest matches Some(manifest) && installed_from(kind, manifest) == Ok::<
        Installed,
        Seq<char>,
    >(package) && package.id@ == paths::name_part(entry.path@)
}

/// Every package among the entries was read from one of them.
proof fn packages_were_read(kind: PackageType, entries: Seq<Entry>, at: int)
    requires
        0 <= at < packages_in(kind, entries).len(),
    ensures
        exists|i: int|
            0 <= i < entries.len() && #[trigger] read_from(
                kind,
                packages_in(kind, entries)[at],
                entries[i],
            ),
    decreases entries.len(),
{
    let init = entries.drop_last();
    let found = packages_in(kind, entries)[at];
    if at < packages_in(kind, init).len() {
        packages_were_read(kind, init, at);
        let i = choose|i: int|
            0 <= i < init.len() && #[trigger] read_from(
                kind,
                packages_in(kind, init)[at],
                init[i],
            );
        assert(read_from(kind, found, entries[i]));
    } else {
        assert(read_from(kind, found, entries[entries.len() - 1]));
    }
}

/// The id of every scanned package is the name of the directory that it was
/// read from, and what the manifest there declares.
pub proof fn scanned_ids_are_directory_names(kind: PackageType, entries: Seq<Entry>, at: int)
    requires
        0 <= at < order::sorted(packages_in(kind, entries)).len(),
    ensures
        exists|i: int|
            0 <= i < entries.len() && #[trigger] read_from(
                kind,
                order::sorted(packages_in(kind, entries))[at],
                entries[i],
            ),
{
    broadcast use vstd::seq_lib::group_to_multiset_ensures;

    let packages = packages_in(kind, entries);
    let scanned = order::sorted(packages);
    order::sorting_is_stable(packages, order::key_of(), Seq::empty());
    assert(scanned.contains(scanned[at]));
    assert(packages.to_multiset().count(scanned[at]) > 0);
    assert(packages.contains(scanned[at]));
    let k = choose|k: int| 0 <= k < packages.len() && packages[k] == scanned[at];
    packages_were_read(kind, entries, k);
}

/// Every directory is accounted for: a scan finds a package in it or reports
/// it as skipped.
pub proof fn every_directory_is_accounted_for(kind: PackageType, entries: Seq<Entry>)
    ensures
        packages_in(kind, entries).len() + skipped_in(kind, entries).len() == entries.filter(
            |entry: Entry| entry.manifest is Some,
        ).len(),
    decreases entries.len(),
{
    reveal(Seq::filter);
    if entries.len() > 0 {
        every_directory_is_accounted_for(kind, entries.drop_last());
    }
}

/// A manifest is understood just when it can be read and declares an id or, in
/// older ones, a name; the id counts where both are there. Title and version
/// are taken over as declared, whatever the kind.
pub proof fn manifests_declare_their_package(kind: PackageType, manifest: Manifest)
    ensures
        installed_from(kind, ManifestFile::Parsed(manifest)) is Ok <==> manifest.id is Some
            || manifest.name is Some,
        installed_from(kind, ManifestFile::Parsed(manifest)) matches Ok(package) ==> {
            &&& manifest.id matches Some(id) ==> package.id == id
            &&& manifest.id is None ==> manifest.name == Some(package.id)
            &&& package.title == manifest.title
            &&& package.version is Some <==> manifest.version is Some
            &&& manifest.version matches Some(VersionField::Text(text)) ==> package.version == Some(
                text,
            )
            &&& manifest.version matches Some(VersionField::Number(number)) ==> package.version
                == Some(number)
        },
        forall|file: ManifestFile|
            file !is Parsed ==> (#[trigger] installed_from(kind, file)) is Err,
{
}

/// Whether an entry of a packages directory holds a package that is understood:
/// its manifest declares the name of the directory.
pub open spec fn holds_package(entry: Entry) -> bool {
    entry.manifest matches Some(ManifestFile::Parsed(manifest)) && match manifest.id {
        Some(id) => id@ == paths::name_part(entry.path@),
        None => manifest.name matches Some(name) && name@ == paths::name_part(entry.path@),
    }
}

/// The test for entries with an understood package.
pub open spec fn with_package() -> spec_fn(Entry) -> bool {
    |entry: Entry| holds_package(entry)
}

/// The test for directories without one.
pub open spec fn without_package() -> spec_fn(Entry) -> bool {
    |entry: Entry| entry.manifest is Some && !holds_package(entry)
}

/// The id of a package, as a function.
pub open spec fn id_of() -> spec_fn(Installed) -> Seq<char> {
    |package: Installed| package.id@
}

/// The name of an entry, as a function.
pub open spec fn name_of() -> spec_fn(Entry) -> Seq<char> {
    |entry: Entry| paths::name_part(entry.path@)
}

/// Where a skipped directory is, as a function.
pub open spec fn skipped_path() -> spec_fn((Seq<char>, Seq<char>)) -> Seq<char> {
    |skipped: (Seq<char>, Seq<char>)| skipped.0
}

/// Where an entry is, as a function.
pub open spec fn path_of() -> spec_fn(Entry) -> Seq<char> {
    |entry: Entry| entry.path@
}

/// A scan finds a package in every directory whose manifest declares its name,
/// and skips every other directory, in the order of the entries and whatever
/// the kind; what is no directory is passed over.
pub proof fn every_understood_directory_is_a_package(kind: PackageType, entries: Seq<Entry>)
    ensures
        packages_in(kind, entries).map_values(id_of()) == entries.filter(
            with_package(),
        ).map_values(name_of()),
        skipped_in(kind, entries).map_values(skipped_path()) == entries.filter(
            without_package(),
        ).map_values(path_of()),
    decreases entries.len(),
{
    reveal(Seq::filter);
    if entries.len() == 0 {
        assert(packages_in(kind, entries).map_values(id_of()) =~= entries.filter(
            with_package(),
        ).map_values(name_of()));
        assert(skipped_in(kind, entries).map_values(skipped_path()) =~= entries.filter(
            without_package(),
        ).map_values(path_of()));
    } else {
        let init = entries.drop_last();
        let last = entries.last();
        every_understood_directory_is_a_package(kind, init);
        let found = packages_in(kind, init);
        let skipped = skipped_in(kind, init);
        let with = init.filter(with_package());
        let without = init.filter(without_package());
        if let Some(manifest) = last.manifest {
            match package_at(kind, last.path@, manifest) {
                Ok(package) => {
                    assert(with_package()(last));
                    assert(found.push(package).map_values(id_of()) =~= found.map_values(id_of()).push(
                        id_of()(package),
                    ));
                    assert(with.push(last).map_values(name_of()) =~= with.map_values(
                        name_of(),
                    ).push(name_of()(last)));
                },
                Err(reason) => {
                    assert(without_package()(last));
                    assert(skipped.push((last.path@, reason)).map_values(skipped_path())
                        =~= skipped.map_values(skipped_path()).push(last.path@));
                    assert(without.push(last).map_values(path_of()) =~= without.map_values(
                        path_of(),
                    ).push(last.path@));
                },
            }
        }
    }
}

/// An error names the directory it is about, and has its reason as its cause.
pub proof fn errors_name_their_subject(error: Error)
    ensures
        error matches Error::Unlistable { path, reason } ==> text::contains_text(error.text(), path@)
            && error.causes() == seq![reason@],
{
    let Error::Unlistable { path, reason } = error;
    text::texts_contain_their_middle("could not list "@, path@, Seq::empty());
}

} // verus!

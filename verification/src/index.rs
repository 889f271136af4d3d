//! The locally cached package index.
//!
//! Fetching the index is one slow, unpaginated API call per package type, so
//! responses are cached on disk (in the platform cache directory) with a TTL
//! ([`constants::INDEX_TTL`]). The raw response body is stored verbatim inside
//! a small envelope, which keeps the cache forward-compatible with API changes
//! and trivially diagnosable.
//!
//! When a refresh fails but stale data exists on disk, the stale data is
//! served with an explicit [`Source::StaleFallback`] marker — on a spotty
//! connection, old data beats no data.

use std::collections::HashSet;
use vstd::prelude::*;
use crate::api;
use crate::api::types::{Package, PackagesResponse};
use crate::constants;
use crate::foundry::PackageType;
use crate::paths;
use crate::text;

verus! {

broadcast use vstd::std_specs::hash::group_hash_axioms;

/// Errors produced by the index cache.
#[derive(Clone, Debug)]
pub enum Error {
    /// The platform has no known cache directory.
    NoCacheDir,
    /// A cache file could not be read or written.
    Io {
        /// The file or directory the operation failed on.
        path: String,
        /// Why it failed.
        reason: String,
    },
    /// The index could not be fetched and no cached fallback exists.
    Api(api::Error),
}

impl Error {
    /// The text of this error.
    pub open spec fn text(self) -> Seq<char> {
        match self {
            Error::NoCacheDir => "could not determine the platform cache directory"@,
            Error::Io { path, reason } => "cache I/O failed at "@ + path@,
            Error::Api(error) => error.text(),
        }
    }

    /// The texts of what caused this error, outermost first.
    pub open spec fn causes(self) -> Seq<Seq<char>> {
        match self {
            Error::NoCacheDir => Seq::empty(),
            Error::Io { path, reason } => seq![reason@],
            Error::Api(error) => error.causes(),
        }
    }

    /// The text of this error.
    #[must_use]
    pub fn message(&self) -> (message: String)
        ensures
            message@ == self.text(),
    {
        match self {
            Error::NoCacheDir => "could not determine the platform cache directory".to_owned(),
            Error::Io { path, .. } => {
                let mut message = "cache I/O failed at ".to_owned();
                message.append(path.as_str());
                message
            },
            Error::Api(error) => error.message(),
        }
    }

    /// The texts of this error and of what caused it, outermost first.
    #[must_use]
    pub fn chain(&self) -> (chain: Vec<String>)
        ensures
            text::views(chain@) == seq![self.text()] + self.causes(),
    {
        match self {
            Error::NoCacheDir => {
                let chain = vec![self.message()];
                assert(text::views(chain@) =~= seq![self.text()] + self.causes());
                chain
            },
            Error::Io { reason, .. } => {
                let chain = vec![self.message(), reason.clone()];
                assert(text::views(chain@) =~= seq![self.text()] + self.causes());
                chain
            },
            Error::Api(error) => error.chain(),
        }
    }
}

/// How a returned [`Snapshot`] was obtained.
///
/// The snapshot's own [`Snapshot::age`] tells how old the served data is.
#[derive(Clone, Debug)]
pub enum Source {
    /// Freshly fetched from the API.
    Refreshed,
    /// Served from disk; the cached data is within its TTL.
    Cached,
    /// Refreshing failed; stale cached data was served as a fallback.
    StaleFallback {
        /// Why the refresh failed.
        error: api::Error,
    },
}

/// A loaded package index for one package type.
#[derive(Debug)]
pub struct Snapshot {
    /// Every package of this type, as returned by the API.
    pub packages: Vec<Package>,
    /// IDs of the protected packages this license owns.
    pub owned: HashSet<u64>,
    /// When the index was fetched, in seconds since the Unix epoch.
    pub fetched_at: u64,
}

impl Snapshot {
    /// Whether the license owns the package with this id.
    pub open spec fn owns(&self, id: u64) -> bool {
        self.owned@.contains(id)
    }

    /// Whether the license owns the package with this id.
    #[must_use]
    pub fn is_owned(&self, id: u64) -> (owned: bool)
        ensures
            owned == self.owns(id),
    {
        self.owned.contains(&id)
    }

    /// Builds a snapshot from a parsed API response.
    pub fn from_response(response: PackagesResponse, fetched_at: u64) -> (snapshot: Self)
        ensures
            snapshot.packages == response.packages,
            snapshot.owned@ == response.owned@.to_set(),
            snapshot.fetched_at == fetched_at,
    {
        let mut owned: HashSet<u64> = HashSet::new();
        let mut i: usize = 0;
        while i < response.owned.len()
            invariant
                0 <= i <= response.owned@.len(),
                owned@ == response.owned@.take(i as int).to_set(),
            decreases response.owned@.len() - i,
        {
            owned.insert(response.owned[i]);
            assert(owned@ =~= response.owned@.take(i + 1).to_set()) by {
                let shorter = response.owned@.take(i as int);
                let longer = response.owned@.take(i + 1);
                assert forall|id: u64| longer.to_set().contains(id) implies shorter.to_set().contains(
                    id,
                ) || id == response.owned@[i as int] by {
                    let k = choose|k: int| 0 <= k < longer.len() && longer[k] == id;
                    if k < i {
                        assert(shorter[k] == id);
                    }
                }
                assert forall|id: u64| shorter.to_set().contains(id) || id == response.owned@[i as int]
                    implies longer.to_set().contains(id) by {
                    if shorter.to_set().contains(id) {
                        let k = choose|k: int| 0 <= k < shorter.len() && shorter[k] == id;
                        assert(longer[k] == id);
                    } else {
                        assert(longer[i as int] == id);
                    }
                }
            }
            i = i + 1;
        }
        assert(response.owned@.take(i as int) =~= response.owned@);
        Snapshot { packages: response.packages, owned, fetched_at }
    }

    /// How old this snapshot is at a time, in seconds; a snapshot from the
    /// future counts as new.
    pub open spec fn age_at(&self, now: u64) -> u64 {
        if now >= self.fetched_at {
            (now - self.fetched_at) as u64
        } else {
            0
        }
    }

    /// How old this snapshot is at `now`, in seconds.
    #[must_use]
    pub fn age(&self, now: u64) -> (age: u64)
        ensures
            age == self.age_at(now),
    {
        now.saturating_sub(self.fetched_at)
    }
}

/// Summary of one cached index file, for `ufpm cache info`.
#[derive(Clone, Debug)]
pub struct Info {
    /// How old the cached data is, in seconds.
    pub age: u64,
    /// Number of packages in the cached index.
    pub packages: usize,
    /// Number of owned (purchased) protected packages.
    pub owned: usize,
}

/// The on-disk envelope wrapped around a raw API response.
#[derive(Debug)]
pub struct Envelope {
    /// When the response was fetched, in seconds since the Unix epoch.
    pub fetched_at: u64,
    /// The API response body, or why it is not of the expected shape.
    pub response: Result<PackagesResponse, String>,
}

/// Handle to the on-disk index cache.
#[derive(Debug)]
pub struct Cache {
    /// The directory all cached data lives in.
    dir: String,
}

/// What came of writing a fresh response to the cache.
#[derive(Debug)]
pub enum Written {
    /// It was written.
    Done,
    /// The cache directory could not be created, with the reason.
    NoDirectory(String),
    /// The response could not be put into an envelope, with the reason.
    NotSerialized(String),
    /// The file could not be written, with the reason.
    NotWritten(String),
}

impl Cache {
    /// The directory this cache stores its data in, as text.
    pub closed spec fn dir_text(&self) -> Seq<char> {
        self.dir@
    }

    /// The cache file holding the index for one package type, as text.
    pub open spec fn file_text(&self, kind: PackageType) -> Seq<char> {
        paths::under(self.dir_text(), "index-"@ + kind.api_text() + ".json"@)
    }

    /// Opens the cache at the platform default location (e.g. `~/.cache/ufpm`),
    /// given the platform's cache directory.
    ///
    /// # Errors
    ///
    /// Returns an [`Error`] when the platform has no cache directory.
    pub fn open(base: Option<&str>) -> (cache: Result<Cache, Error>)
        ensures
            match base {
                Some(base) => cache matches Ok(opened) && opened.dir_text() == paths::under(
                    base@,
                    "ufpm"@,
                ),
                None => cache == Err::<Cache, Error>(Error::NoCacheDir),
            },
    {
        match base {
            Some(base) => Ok(Cache::at(paths::join(base, "ufpm"))),
            None => Err(Error::NoCacheDir),
        }
    }

    /// Opens a cache rooted at an explicit directory.
    #[must_use]
    pub fn at(dir: String) -> (cache: Cache)
        ensures
            cache.dir_text() == dir@,
    {
        Cache { dir }
    }

    /// The directory this cache stores its data in.
    #[must_use]
    pub fn dir(&self) -> (dir: &str)
        ensures
            dir@ == self.dir_text(),
    {
        self.dir.as_str()
    }

    /// The directory package archives (and partial downloads) are kept in.
    #[must_use]
    pub fn downloads_dir(&self) -> (dir: String)
        ensures
            dir@ == paths::under(self.dir_text(), "downloads"@),
    {
        paths::join(self.dir.as_str(), "downloads")
    }

    /// The cache file holding the index for one package type.
    #[must_use]
    pub fn file(&self, kind: PackageType) -> (path: String)
        ensures
            path@ == self.file_text(kind),
    {
        let mut name = "index-".to_owned();
        name.append(kind.api_name());
        name.append(".json");
        paths::join(self.dir.as_str(), name.as_str())
    }

    /// The index in a cache file, given its envelope, if it could be read.
    ///
    /// Any failure (missing file, corrupt envelope, unparseable response) is
    /// treated as "no cache": the file will simply be refetched, which makes
    /// the cache self-healing.
    #[must_use]
    pub fn read(envelope: Option<Envelope>) -> (snapshot: Option<Snapshot>)
        ensures
            match envelope {
                None => snapshot is None,
                Some(envelope) => match api::accepted(envelope.response) {
                    Err(_) => snapshot is None,
                    Ok(response) => snapshot matches Some(read) && read.packages
                        == response.packages && read.owned@ == response.owned@.to_set()
                        && read.fetched_at == envelope.fetched_at,
                },
            },
    {
        match envelope {
            None => None,
            Some(envelope) => match api::parse_packages(envelope.response) {
                Ok(response) => Some(Snapshot::from_response(response, envelope.fetched_at)),
                Err(_) => None,
            },
        }
    }

    /// Accepts the outcome of persisting a raw API response.
    ///
    /// # Errors
    ///
    /// Returns an [`Error`] when the response is not valid JSON or the cache
    /// file could not be written.
    pub fn write(&self, kind: PackageType, outcome: Written) -> (result: Result<(), Error>)
        ensures
            match outcome {
                Written::Done => result is Ok,
                Written::NoDirectory(reason) => result matches Err(
                    Error::Io { path, reason: given },
                ) && path@ == self.dir_text() && given == reason,
                Written::NotSerialized(reason) => result == Err::<(), Error>(
                    Error::Api(api::Error::Invalid(reason)),
                ),
                Written::NotWritten(reason) => result matches Err(
                    Error::Io { path, reason: given },
                ) && path@ == self.file_text(kind) && given == reason,
            },
    {
        match outcome {
            Written::Done => Ok(()),
            Written::NoDirectory(reason) => Err(Error::Io { path: self.dir.clone(), reason }),
            Written::NotSerialized(reason) => Err(Error::Api(api::Error::Invalid(reason))),
            Written::NotWritten(reason) => Err(Error::Io { path: self.file(kind), reason }),
        }
    }

    /// Summarizes a cached index at `now`, if a readable one exists.
    #[must_use]
    pub fn info(snapshot: &Option<Snapshot>, now: u64) -> (info: Option<Info>)
        ensures
            match snapshot {
                None => info is None,
                Some(snapshot) => info matches Some(summary) && summary.age == snapshot.age_at(now)
                    && summary.packages == snapshot.packages@.len() && summary.owned
                    == snapshot.owned@.len(),
            },
    {
        match snapshot {
            None => None,
            Some(snapshot) => Some(
                Info {
                    age: snapshot.age(now),
                    packages: snapshot.packages.len(),
                    owned: snapshot.owned.len(),
                },
            ),
        }
    }

    /// Accepts the outcome of deleting all cached data; nothing was to be done
    /// when the cache directory does not exist.
    ///
    /// # Errors
    ///
    /// Returns an [`Error`] when the cache directory exists but could not be
    /// removed.
    pub fn clear(&self, removed: Option<Result<(), String>>) -> (result: Result<(), Error>)
        ensures
            match removed {
                Some(Err(reason)) => result matches Err(Error::Io { path, reason: given }) && path@
                    == self.dir_text() && given == reason,
                _ => result is Ok,
            },
    {
        match removed {
            Some(Err(reason)) => Err(Error::Io { path: self.dir.clone(), reason }),
            _ => Ok(()),
        }
    }
}

/// What to do to get an index.
#[derive(Debug)]
pub enum Ensure {
    /// Serve the cached index.
    Serve(Snapshot),
    /// Fetch the index; the cached one, if any, is the fallback.
    Fetch(Option<Snapshot>),
}

/// Whether a cached index is served at a time.
pub open spec fn is_served(cached: Option<Snapshot>, now: u64, force: bool) -> bool {
    !force && (cached matches Some(snapshot) && snapshot.age_at(now) <= constants::INDEX_TTL)
}

impl Cache {
    /// Decides how to get the index for one package type at `now`: serve the
    /// cached one while within the TTL (unless `force` is set), otherwise fetch
    /// it from the API.
    #[must_use]
    pub fn ensure(cached: Option<Snapshot>, now: u64, force: bool) -> (decision: Ensure)
        ensures
            decision == if is_served(cached, now, force) {
                Ensure::Serve(cached->0)
            } else {
                Ensure::Fetch(cached)
            },
    {
        match cached {
            Some(snapshot) => if !force && snapshot.age(now) <= constants::INDEX_TTL {
                Ensure::Serve(snapshot)
            } else {
                Ensure::Fetch(Some(snapshot))
            },
            None => Ensure::Fetch(None),
        }
    }
}

/// What became of a fetched index.
#[derive(Debug)]
pub enum Refresh {
    /// It is good: persist the response, then serve it.
    Persist(Snapshot),
    /// The fetch failed; the stale index is served.
    Fallback(Snapshot, Source),
    /// The fetch failed, and there is nothing to fall back to.
    Failed(Error),
}

/// Decides what becomes of the attempt to fetch the index at `fetched_at`.
/// When the fetch failed but stale data exists, the stale data is served with
/// a [`Source::StaleFallback`] marker instead of failing.
#[must_use]
pub fn refresh(
    stale: Option<Snapshot>,
    fetched: Result<PackagesResponse, api::Error>,
    fetched_at: u64,
) -> (refreshed: Refresh)
    ensures
        match fetched {
            Ok(response) => refreshed matches Refresh::Persist(snapshot) && snapshot.packages
                == response.packages && snapshot.owned@ == response.owned@.to_set()
                && snapshot.fetched_at == fetched_at,
            Err(error) => match stale {
                Some(snapshot) => refreshed == Refresh::Fallback(
                    snapshot,
                    Source::StaleFallback { error },
                ),
                None => refreshed == Refresh::Failed(Error::Api(error)),
            },
        },
{
    match fetched {
        Ok(response) => Refresh::Persist(Snapshot::from_response(response, fetched_at)),
        Err(error) => match stale {
            Some(snapshot) => Refresh::Fallback(snapshot, Source::StaleFallback { error }),
            None => Refresh::Failed(Error::Api(error)),
        },
    }
}

/// Serves a fresh index, once it was persisted.
///
/// # Errors
///
/// Returns an [`Error`] when the response could not be persisted.
pub fn persisted(snapshot: Snapshot, written: Result<(), Error>) -> (served: Result<
    (Snapshot, Source),
    Error,
>)
    ensures
        match written {
            Ok(()) => served == Ok::<(Snapshot, Source), Error>((snapshot, Source::Refreshed)),
            Err(error) => served == Err::<(Snapshot, Source), Error>(error),
        },
{
    match written {
        Ok(()) => Ok((snapshot, Source::Refreshed)),
        Err(error) => Err(error),
    }
}

/// The index is fetched at most once a day, unless that is forced: what was
/// fetched is served from the cache until it is older than the TTL, and
/// fetched anew from then on.
pub proof fn indexes_are_fetched_once_per_ttl(snapshot: Snapshot, now: u64)
    requires
        snapshot.fetched_at <= now,
    ensures
        is_served(Some(snapshot), now, false) <==> now - snapshot.fetched_at <= constants::INDEX_TTL,
        !is_served(Some(snapshot), now, true),
{
}

/// The age of an index is the time since it was fetched, and one from the future
/// counts as new; so it is served unless a fetch is forced. Without a cached
/// index nothing is served.
pub proof fn ages_start_with_the_fetch(snapshot: Snapshot, now: u64)
    ensures
        now <= snapshot.fetched_at ==> snapshot.age_at(now) == 0 && is_served(
            Some(snapshot),
            now,
            false,
        ),
        now > snapshot.fetched_at ==> snapshot.fetched_at + snapshot.age_at(now) == now,
        !is_served(None, now, false),
        !is_served(None, now, true),
{
}

/// Errors name the path they are about, and are followed by what caused them; a
/// failed fetch is told as it is.
pub proof fn errors_name_their_subject(error: Error)
    ensures
        error is NoCacheDir ==> error.causes().len() == 0,
        error matches Error::Io { path, reason } ==> text::contains_text(error.text(), path@)
            && error.causes() == seq![reason@],
        error matches Error::Api(source) ==> error.text() == source.text() && error.causes()
            == source.causes(),
{
    if let Error::Io { path, reason } = error {
        text::texts_contain_their_middle("cache I/O failed at "@, path@, Seq::empty());
    }
}

/// The index of each package type is cached in a file of its own.
pub proof fn cache_files_are_kept_apart(cache: Cache)
    ensures
        cache.file_text(PackageType::Module) == paths::under(
            cache.dir_text(),
            "index-module.json"@,
        ),
        cache.file_text(PackageType::System) == paths::under(
            cache.dir_text(),
            "index-system.json"@,
        ),
        cache.file_text(PackageType::Module) != cache.file_text(PackageType::System),
{
    reveal_strlit("index-");
    reveal_strlit("module");
    reveal_strlit("system");
    reveal_strlit(".json");
    reveal_strlit("index-module.json");
    reveal_strlit("index-system.json");
    reveal_strlit("/");
    assert("index-"@ + "module"@ + ".json"@ =~= "index-module.json"@);
    assert("index-"@ + "system"@ + ".json"@ =~= "index-system.json"@);
    let one = cache.file_text(PackageType::Module);
    let other = cache.file_text(PackageType::System);
    assert(one.len() == other.len());
    assert(one[one.len() - 11] == 'm' && other[one.len() - 11] == 's');
}

} // verus!

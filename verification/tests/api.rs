//! Tests for the API models and the index cache.

use ufpm::api::types::{Package, PackagesResponse, VersionInfo};
use ufpm::api::{accept, packages_request, parse_packages, Error, BASE_URL};
use ufpm::constants::{foundry_version, FOUNDRY_VERSION, INDEX_TTL};
use ufpm::foundry::PackageType;
use ufpm::index::{self, persisted, refresh, Cache, Ensure, Envelope, Refresh, Snapshot, Source, Written};

/// A package of the index.
fn package(id: u64, name: &str) -> Package {
    Package {
        id,
        name: name.to_owned(),
        title: name.to_owned(),
        author: None,
        description: None,
        url: None,
        is_protected: false,
        systems: Vec::new(),
        version: VersionInfo {
            version: "1.0.0".to_owned(),
            manifest: format!("https://example.test/{name}.json"),
            required_core_version: None,
            compatible_core_version: None,
            notes: None,
        },
        verified: None,
        last_updated: None,
    }
}

/// A response with a status and eight packages, three of which are protected.
/// One of these is owned.
fn response(status: &str) -> PackagesResponse {
    let protected = |id: u64, name: &str| Package { is_protected: true, ..package(id, name) };
    PackagesResponse {
        status: status.to_owned(),
        packages: vec![
            package(1, "one"),
            package(2, "two"),
            protected(3293, "three"),
            package(4, "four"),
            protected(5, "five"),
            package(6, "six"),
            protected(7, "seven"),
            package(8, "eight"),
        ],
        owned: vec![3293],
    }
}

/// A snapshot fetched at a time.
fn snapshot(fetched_at: u64) -> Snapshot {
    Snapshot::from_response(response("success"), fetched_at)
}

/// A body-level non-success status is reported as a failure.
#[test]
fn reports_body_level_failures() {
    let body = PackagesResponse { status: "error".to_owned(), packages: Vec::new(), owned: Vec::new() };
    let error = parse_packages(Ok(body)).unwrap_err();
    assert_eq!(error.message(), "the FoundryVTT API reported status \"error\"");
    assert!(matches!(error, Error::Failed(status) if status == "error"));
}

/// Garbage bodies are reported as parse errors.
#[test]
fn reports_unparseable_bodies() {
    let problem =
        serde_json::from_str::<serde_json::Value>("<html>nope</html>").unwrap_err().to_string();
    let error = parse_packages(Err(problem.clone())).unwrap_err();
    assert_eq!(
        error.chain(),
        [
            "could not parse the FoundryVTT API response; has the undocumented API changed?"
                .to_owned(),
            problem
        ]
    );
    assert!(matches!(error, Error::Invalid(_)));
}

/// A success is handed through.
#[test]
fn accepts_successful_bodies() {
    assert_eq!(parse_packages(Ok(response("success"))).unwrap().packages.len(), 8);
}

/// A non-success HTTP status is reported as an HTTP error.
#[test]
fn reports_http_errors() {
    let error = accept(403).unwrap_err();
    assert!(matches!(error, Error::Http { status: 403 }));
    assert_eq!(
        error.message(),
        "the FoundryVTT API answered HTTP 403 Forbidden; has the undocumented API changed?"
    );
    assert!(accept(200).is_ok());
    assert!(accept(299).is_ok());
    assert!(accept(199).is_err());
    assert!(accept(300).is_err());
    assert_eq!(
        accept(7).unwrap_err().message(),
        "the FoundryVTT API answered HTTP 7; has the undocumented API changed?"
    );
}

/// Failed requests keep their causes.
#[test]
fn transport_errors_keep_their_causes() {
    let error = Error::Transport(vec!["connect".to_owned(), "refused".to_owned()]);
    assert_eq!(error.chain(), ["request to the FoundryVTT API failed", "connect", "refused"]);
}

/// The request names the endpoint, the package type and the version.
#[test]
fn requests_name_the_endpoint() {
    let request = packages_request(BASE_URL, PackageType::Module, foundry_version(None));
    assert_eq!(request.url, "https://foundryvtt.com/_api/packages/get");
    assert_eq!(request.package_type, "module");
    assert_eq!(request.version, FOUNDRY_VERSION);
    assert_eq!(foundry_version(Some("13.1".to_owned())), "13.1");
    assert_eq!(FOUNDRY_VERSION, "14.362");
}

/// A first load fetches from the API and persists the result.
#[test]
fn first_load_fetches_and_persists() {
    let cache = Cache::at("/cache/ufpm".to_owned());
    let Ensure::Fetch(stale) = Cache::ensure(None, 100, false) else { panic!("served nothing") };
    let Refresh::Persist(fresh) = refresh(stale, parse_packages(Ok(response("success"))), 100)
    else {
        panic!("not persisted")
    };
    let written = cache.write(PackageType::Module, Written::Done);
    let (snapshot, source) = persisted(fresh, written).unwrap();
    assert_eq!(snapshot.packages.len(), 8);
    assert_eq!(snapshot.fetched_at, 100);
    assert!(matches!(source, Source::Refreshed));
    assert_eq!(cache.file(PackageType::Module), "/cache/ufpm/index-module.json");
}

/// A second load within the TTL is served from disk without a request.
#[test]
fn fresh_cache_skips_the_network() {
    for now in [1_000, 1_000 + INDEX_TTL, 0] {
        let decision = Cache::ensure(Some(snapshot(1_000)), now, false);
        assert!(matches!(decision, Ensure::Serve(snapshot) if snapshot.packages.len() == 8));
    }
    let expired = Cache::ensure(Some(snapshot(1_000)), 1_001 + INDEX_TTL, false);
    assert!(matches!(expired, Ensure::Fetch(Some(_))));
}

/// `force` refetches even when the cache is fresh.
#[test]
fn force_always_refetches() {
    let decision = Cache::ensure(Some(snapshot(1_000)), 1_000, true);
    assert!(matches!(decision, Ensure::Fetch(Some(_))));
}

/// A corrupt cache file is treated as missing and refetched.
#[test]
fn corrupt_cache_self_heals() {
    assert!(Cache::read(None).is_none());
    let garbage = Envelope { fetched_at: 5, response: Err("garbage".to_owned()) };
    assert!(Cache::read(Some(garbage)).is_none());
    let failed = Envelope { fetched_at: 5, response: Ok(response("error")) };
    assert!(Cache::read(Some(failed)).is_none());
    let good = Envelope { fetched_at: 5, response: Ok(response("success")) };
    assert_eq!(Cache::read(Some(good)).unwrap().fetched_at, 5);
}

/// When a forced refresh fails but cached data exists, the stale data is
/// served with an explicit marker, whatever the failure was.
#[test]
fn failed_refresh_falls_back_to_stale_data() {
    let failures = [
        accept(500).unwrap_err(),
        parse_packages(Ok(response("error"))).unwrap_err(),
        parse_packages(Err("garbage".to_owned())).unwrap_err(),
    ];
    for error in failures {
        let Refresh::Fallback(kept, source) = refresh(Some(snapshot(7)), Err(error), 100) else {
            panic!("no fallback")
        };
        assert_eq!(kept.fetched_at, 7);
        assert_eq!(kept.packages.len(), 8);
        assert!(matches!(source, Source::StaleFallback { .. }));
    }
}

/// A failed fetch with no cached fallback is an error.
#[test]
fn failed_fetch_without_fallback_errors() {
    let refreshed = refresh(None, Err(accept(500).unwrap_err()), 100);
    assert!(matches!(refreshed, Refresh::Failed(index::Error::Api(Error::Http { status: 500 }))));
}

/// A response that cannot be persisted is an error.
#[test]
fn unpersisted_responses_are_errors() {
    let cache = Cache::at("/cache/ufpm".to_owned());
    let failed = |outcome: Written| {
        let written = cache.write(PackageType::System, outcome);
        persisted(snapshot(1), written).unwrap_err()
    };
    let error = failed(Written::NoDirectory("denied".to_owned()));
    assert_eq!(error.chain(), ["cache I/O failed at /cache/ufpm", "denied"]);
    let error = failed(Written::NotWritten("full".to_owned()));
    assert_eq!(error.message(), "cache I/O failed at /cache/ufpm/index-system.json");
    let error = failed(Written::NotSerialized("bad".to_owned()));
    assert!(matches!(error, index::Error::Api(Error::Invalid(_))));
}

/// `info` summarizes cached data and `clear` removes it.
#[test]
fn info_and_clear_round_trip() {
    let cache = Cache::open(Some("/home/me/.cache")).unwrap();
    assert_eq!(cache.dir(), "/home/me/.cache/ufpm");
    assert_eq!(cache.downloads_dir(), "/home/me/.cache/ufpm/downloads");
    assert!(Cache::info(&None, 0).is_none());

    let info = Cache::info(&Some(snapshot(10)), 70).unwrap();
    assert_eq!(info.packages, 8);
    assert_eq!(info.owned, 1);
    assert_eq!(info.age, 60);

    assert!(cache.clear(Some(Ok(()))).is_ok());
    assert!(cache.clear(None).is_ok());
    let error = cache.clear(Some(Err("busy".to_owned()))).unwrap_err();
    assert_eq!(error.chain(), ["cache I/O failed at /home/me/.cache/ufpm", "busy"]);

    let error = Cache::open(None).unwrap_err();
    assert_eq!(error.message(), "could not determine the platform cache directory");
    assert_eq!(error.chain().len(), 1);
}

/// A package counts as owned once, however often it is listed.
#[test]
fn owned_packages_are_listed_once() {
    let twice = PackagesResponse { owned: vec![3293, 3293], ..response("success") };
    let snapshot = Snapshot::from_response(twice, 1);
    assert_eq!(Cache::info(&Some(snapshot), 1).unwrap().owned, 1);
}

/// A snapshot from the future counts as new.
#[test]
fn ages_never_go_negative() {
    assert_eq!(snapshot(100).age(40), 0);
    assert_eq!(snapshot(100).age(140), 40);
}

//! Resolution tests over a synthetic index and a synthetic manifest host.

use std::collections::HashSet;
use ufpm::api::types::{DependencyRef, Package, RemoteManifest, VersionInfo};
use ufpm::foundry::local::VersionField;
use ufpm::foundry::PackageType;
use ufpm::index::Snapshot;
use ufpm::install::Job;
use ufpm::resolve::{plan, Indexes, InstalledSets, Outcome, Plan, Reply};

/// Builds an index package.
fn package(id: u64, name: &str, systems: &[&str]) -> Package {
    Package {
        id,
        name: name.to_owned(),
        title: name.to_owned(),
        author: None,
        description: None,
        url: None,
        is_protected: false,
        systems: systems.iter().map(|&s| s.to_owned()).collect(),
        version: VersionInfo {
            version: "1.0.0".to_owned(),
            manifest: format!("https://host.test/{name}.json"),
            required_core_version: None,
            compatible_core_version: None,
            notes: None,
        },
        verified: None,
        last_updated: None,
    }
}

/// Dependencies on modules.
fn modules(names: &[&str]) -> Vec<DependencyRef> {
    names
        .iter()
        .map(|&id| DependencyRef { kind: PackageType::Module, id: id.to_owned() })
        .collect()
}

/// A manifest with the given relationships.
fn manifest(name: &str, requires: &[&str], recommends: &[&str]) -> RemoteManifest {
    RemoteManifest {
        id: Some(name.to_owned()),
        name: None,
        version: Some(VersionField::Text("1.0.0".to_owned())),
        download: Some(format!("https://host.test/{name}.zip")),
        needs: modules(requires),
        suggests: modules(recommends),
    }
}

/// Builds the two index snapshots.
fn indexes(module: Vec<Package>, system: Vec<Package>) -> Indexes {
    Indexes {
        module: Snapshot { packages: module, owned: HashSet::new(), fetched_at: 0 },
        system: Snapshot { packages: system, owned: HashSet::new(), fetched_at: 0 },
    }
}

/// Names of the jobs in a bucket, sorted.
fn names(jobs: &[Job]) -> Vec<&str> {
    let mut names: Vec<&str> = jobs.iter().map(|job| job.name.as_str()).collect();
    names.sort_unstable();
    names
}

/// Resolves, answering every question from the manifests; the downloads of
/// protected packages are authorized unless they are called `denied`.
fn resolve(
    indexes: &Indexes,
    installed: &InstalledSets,
    requested: &[&Package],
    recommends: bool,
    manifests: &[RemoteManifest],
) -> Plan {
    let mut replies: Vec<Reply> = Vec::new();
    loop {
        match plan(indexes, installed, PackageType::Module, requested, recommends, &replies) {
            Outcome::Ready(plan) => return plan,
            Outcome::Ask(question) => {
                assert!(replies.iter().all(|reply| reply.name != question.name));
                let found = manifests
                    .iter()
                    .find(|manifest| manifest.id.as_deref() == Some(question.name.as_str()));
                replies.push(Reply {
                    kind: question.kind,
                    manifest: found.cloned().ok_or_else(|| "HTTP 404".to_owned()),
                    download: if question.name == "denied" {
                        Err("forbidden".to_owned())
                    } else {
                        Ok(format!("https://signed.test/{}", question.name))
                    },
                    name: question.name,
                });
            }
        }
    }
}

/// Requires are pulled in recursively; recommends are bucketed apart;
/// installed and unknown dependencies are skipped (the latter with a
/// warning); cycles terminate.
#[test]
fn resolves_the_full_closure() {
    let manifests = [
        manifest("alpha", &["beta", "alpha", "installed-dep", "ghost"], &["gamma"]),
        manifest("beta", &["delta"], &[]),
        manifest("gamma", &[], &[]),
        manifest("delta", &[], &[]),
    ];
    let indexes = indexes(
        vec![
            package(1, "alpha", &[]),
            package(2, "beta", &[]),
            package(3, "gamma", &[]),
            package(4, "delta", &[]),
        ],
        Vec::new(),
    );
    let installed =
        InstalledSets { modules: vec!["installed-dep".to_owned()], systems: Vec::new() };
    let requested = [&indexes.module.packages[0]];

    let plan = resolve(&indexes, &installed, &requested, true, &manifests);

    assert_eq!(names(&plan.requested), ["alpha"]);
    assert_eq!(names(&plan.required), ["beta", "delta"]);
    assert_eq!(names(&plan.recommended), ["gamma"]);
    assert!(plan.failures.is_empty());
    assert_eq!(plan.warnings.len(), 1, "ghost should warn: {:?}", plan.warnings);
    assert_eq!(plan.warnings[0], "skipping dependency `ghost`: not found in the index");
}

/// A single-system requirement becomes a hard system dependency; an
/// ambiguous multi-system requirement only warns.
#[test]
fn handles_system_requirements() {
    let manifests =
        [manifest("single", &[], &[]), manifest("multi", &[], &[]), manifest("pf2e", &[], &[])];
    let indexes = indexes(
        vec![package(1, "single", &["pf2e"]), package(2, "multi", &["dnd5e", "pf2e-old"])],
        vec![package(10, "pf2e", &[])],
    );
    let requested: Vec<&Package> = indexes.module.packages.iter().collect();

    let plan = resolve(&indexes, &InstalledSets::default(), &requested, true, &manifests);

    assert_eq!(names(&plan.requested), ["multi", "single"]);
    assert_eq!(names(&plan.required), ["pf2e"]);
    assert_eq!(plan.warnings.len(), 1, "{:?}", plan.warnings);
    assert!(plan.warnings[0].contains("multi"));
    assert_eq!(
        plan.warnings[0],
        "`multi` requires one of the systems [dnd5e, pf2e-old], none of which is installed"
    );
}

/// A package recommended by one node but required by another always
/// lands in the required bucket.
#[test]
fn requirement_beats_recommendation() {
    let manifests = [
        manifest("rec-first", &[], &["shared"]),
        manifest("req-second", &["shared"], &[]),
        manifest("shared", &[], &[]),
    ];
    let indexes = indexes(
        vec![
            package(1, "rec-first", &[]),
            package(2, "req-second", &[]),
            package(3, "shared", &[]),
        ],
        Vec::new(),
    );
    let requested = [&indexes.module.packages[0], &indexes.module.packages[1]];

    let plan = resolve(&indexes, &InstalledSets::default(), &requested, true, &manifests);

    assert_eq!(names(&plan.required), ["shared"]);
    assert!(plan.recommended.is_empty());
}

/// Recommendations are only followed when asked for.
#[test]
fn recommendations_are_optional() {
    let manifests = [manifest("a", &[], &["b"]), manifest("b", &["c"], &[]), manifest("c", &[], &[])];
    let indexes =
        indexes(vec![package(1, "a", &[]), package(2, "b", &[]), package(3, "c", &[])], Vec::new());
    let requested = [&indexes.module.packages[0]];
    let none = InstalledSets::default();

    let without = resolve(&indexes, &none, &requested, false, &manifests);
    assert!(without.recommended.is_empty());

    let with = resolve(&indexes, &none, &requested, true, &manifests);
    assert_eq!(names(&with.recommended), ["b", "c"]);
}

/// Installed packages are only touched when requested.
#[test]
fn installed_packages_are_left_alone() {
    let manifests = [manifest("a", &["b"], &[]), manifest("b", &[], &[])];
    let indexes = indexes(vec![package(1, "a", &["pf2e"]), package(2, "b", &[])], Vec::new());
    let installed = InstalledSets {
        modules: vec!["a".to_owned(), "b".to_owned()],
        systems: vec!["pf2e".to_owned()],
    };
    assert!(installed.contains(PackageType::System, "pf2e"));
    assert!(!installed.contains(PackageType::System, "a"));

    let plan = resolve(&indexes, &installed, &[&indexes.module.packages[0]], true, &manifests);

    assert_eq!(names(&plan.requested), ["a"]);
    assert!(plan.required.is_empty());
    assert!(plan.warnings.is_empty());
}

/// A request that cannot be resolved fails alone, with its reason; each
/// package appears once.
#[test]
fn bad_requests_fail_alone() {
    let mut wrong = manifest("wrong", &[], &[]);
    wrong.download = None;
    let manifests = [manifest("good", &[], &[]), wrong];
    let mut owned = package(5, "owned", &[]);
    owned.is_protected = true;
    let mut denied = package(6, "denied", &[]);
    denied.is_protected = true;
    let mut unowned = package(7, "unowned", &[]);
    unowned.is_protected = true;
    let mut indexes = indexes(
        vec![package(1, "good", &[]), package(2, "wrong", &[]), package(3, "gone", &[]), owned, denied, unowned],
        Vec::new(),
    );
    indexes.module.owned = HashSet::from([5, 6]);
    let mut requested: Vec<&Package> = indexes.module.packages.iter().collect();
    requested.push(&indexes.module.packages[0]);

    let plan = resolve(&indexes, &InstalledSets::default(), &requested, true, &manifests);

    assert_eq!(names(&plan.requested), ["good", "owned"]);
    let owned = plan.requested.iter().find(|job| job.name == "owned").unwrap();
    assert!(owned.protected);
    assert_eq!(owned.download_url, "https://signed.test/owned");
    assert_eq!(
        plan.failures,
        [
            ("wrong".to_owned(), "the manifest declares no download URL".to_owned()),
            ("gone".to_owned(), "manifest fetch failed: HTTP 404".to_owned()),
            (
                "denied".to_owned(),
                "protected download authorization failed: forbidden".to_owned()
            ),
            ("unowned".to_owned(), "protected; purchase required".to_owned()),
        ]
    );
}

/// A manifest that belongs to another package is refused.
#[test]
fn foreign_manifests_are_refused() {
    let indexes = indexes(vec![package(1, "mine", &[])], Vec::new());
    let reply = Reply {
        kind: PackageType::Module,
        name: "mine".to_owned(),
        manifest: Ok(manifest("theirs", &[], &[])),
        download: Err(String::new()),
    };
    let outcome = plan(
        &indexes,
        &InstalledSets::default(),
        PackageType::Module,
        &[&indexes.module.packages[0]],
        true,
        &vec![reply],
    );
    let Outcome::Ready(plan) = outcome else { panic!("asked again") };
    assert_eq!(plan.failures[0].1, "the manifest belongs to `theirs`, not `mine`");
}

//! Tests for the installed-package scan.

use ufpm::foundry::local::{
    read_installed, read_package, scan, Entry, Error, Listing, Manifest, ManifestFile, VersionField,
};
use ufpm::foundry::{Installation, PackageType, RootSource};

/// A resolved installation.
fn fake_foundry() -> Installation {
    Installation::new("/foundry".to_owned(), RootSource::Explicit)
}

/// Reads a manifest the way the program does.
fn manifest_file(raw: &str) -> ManifestFile {
    let value: serde_json::Value = match serde_json::from_str(raw) {
        Ok(value) => value,
        Err(error) => return ManifestFile::Invalid(error.to_string()),
    };
    let text = |name: &str| value.get(name).and_then(|member| member.as_str()).map(str::to_owned);
    ManifestFile::Parsed(Manifest {
        id: text("id"),
        name: text("name"),
        title: text("title"),
        version: match value.get("version") {
            Some(serde_json::Value::String(version)) => Some(VersionField::Text(version.clone())),
            Some(serde_json::Value::Number(version)) => {
                Some(VersionField::Number(version.to_string()))
            }
            _ => None,
        },
    })
}

/// A module directory with the given manifest contents.
fn module(dir_name: &str, manifest: &str) -> Entry {
    Entry {
        path: format!("/foundry/Data/modules/{dir_name}"),
        manifest: Some(manifest_file(manifest)),
    }
}

/// Modern manifests parse with id, title and version.
#[test]
fn scans_modern_manifests() {
    let entries = vec![module(
        "dice-so-nice",
        r#"{ "id": "dice-so-nice", "title": "Dice So Nice!", "version": "5.1.1" }"#,
    )];

    let scan = scan(&fake_foundry(), PackageType::Module, Listing::Entries(entries)).unwrap();

    assert_eq!(scan.packages.len(), 1);
    let module = &scan.packages[0];
    assert_eq!(module.id, "dice-so-nice");
    assert_eq!(module.title.as_deref(), Some("Dice So Nice!"));
    assert_eq!(module.version.as_deref(), Some("5.1.1"));
    assert!(scan.skipped.is_empty());
}

/// Legacy manifests using `name` and a numeric version still parse.
#[test]
fn scans_legacy_manifests() {
    let entries = vec![module("old-module", r#"{ "name": "old-module", "version": 1.5 }"#)];

    let scan = scan(&fake_foundry(), PackageType::Module, Listing::Entries(entries)).unwrap();

    assert_eq!(scan.packages[0].id, "old-module");
    assert_eq!(scan.packages[0].version.as_deref(), Some("1.5"));
}

/// Broken directories are reported as skipped, not silently dropped.
#[test]
fn reports_unreadable_directories() {
    let entries = vec![
        module("broken", "not json at all"),
        Entry {
            path: "/foundry/Data/modules/empty".to_owned(),
            manifest: Some(ManifestFile::Unreadable("no such file".to_owned())),
        },
    ];

    let scan = scan(&fake_foundry(), PackageType::Module, Listing::Entries(entries)).unwrap();

    assert!(scan.packages.is_empty());
    assert_eq!(scan.skipped.len(), 2);
    assert_eq!(scan.skipped[0].0, "/foundry/Data/modules/broken");
    assert!(scan.skipped[0].1.starts_with("invalid module.json: "));
    assert_eq!(scan.skipped[1].1, "no readable module.json: no such file");
}

/// A missing packages directory yields an empty scan.
#[test]
fn missing_directory_is_empty() {
    let scan = scan(&fake_foundry(), PackageType::System, Listing::Missing).unwrap();

    assert!(scan.packages.is_empty());
    assert!(scan.skipped.is_empty());
}

/// Results come back sorted by id.
#[test]
fn results_are_sorted() {
    let entries = vec![module("zeta", r#"{ "id": "zeta" }"#), module("alpha", r#"{ "id": "alpha" }"#)];

    let scan = scan(&fake_foundry(), PackageType::Module, Listing::Entries(entries)).unwrap();
    let ids: Vec<&str> = scan.packages.iter().map(|p| p.id.as_str()).collect();

    assert_eq!(ids, ["alpha", "zeta"]);
}

/// A package has to be in a directory of its name: one that declares another
/// id is skipped, and does not pass for the package that it declares.
#[test]
fn ids_are_directory_names() {
    let entries = vec![
        module("foo", r#"{ "id": "bar", "version": "1" }"#),
        module("alpha", r#"{ "id": "alpha" }"#),
        module("old", r#"{ "name": "older" }"#),
    ];

    let scan = scan(&fake_foundry(), PackageType::Module, Listing::Entries(entries)).unwrap();

    assert_eq!(scan.packages.len(), 1);
    assert_eq!(scan.packages[0].id, "alpha");
    assert_eq!(
        scan.skipped,
        [
            (
                "/foundry/Data/modules/foo".to_owned(),
                "module.json declares the id `bar`, which is not the name of its directory"
                    .to_owned()
            ),
            (
                "/foundry/Data/modules/old".to_owned(),
                "module.json declares the id `older`, which is not the name of its directory"
                    .to_owned()
            ),
        ]
    );
    let elsewhere = manifest_file(r#"{ "id": "bar" }"#);
    assert!(read_package(PackageType::Module, "staging/bar", elsewhere).is_ok());
}

/// Plain files next to the package directories are no packages.
#[test]
fn plain_files_are_no_packages() {
    let entries = vec![
        Entry { path: "/foundry/Data/modules/README.md".to_owned(), manifest: None },
        module("alpha", r#"{ "id": "alpha" }"#),
    ];

    let scan = scan(&fake_foundry(), PackageType::Module, Listing::Entries(entries)).unwrap();

    assert_eq!(scan.packages.len(), 1);
    assert!(scan.skipped.is_empty());
}

/// A packages directory that cannot be listed is an error.
#[test]
fn unlistable_directories_are_errors() {
    let listing = Listing::Unlistable("denied".to_owned());
    let error = scan(&fake_foundry(), PackageType::Module, listing).unwrap_err();
    assert_eq!(error.message(), "could not list /foundry/Data/modules");
    assert_eq!(error.chain(), ["could not list /foundry/Data/modules", "denied"]);
    let Error::Unlistable { reason, .. } = error;
    assert_eq!(reason, "denied");
}

/// The id wins over the legacy name, and one of them is needed.
#[test]
fn manifests_need_an_id_or_a_name() {
    let both = manifest_file(r#"{ "id": "new", "name": "old" }"#);
    assert_eq!(read_installed(PackageType::Module, both).unwrap().id, "new");

    let neither = manifest_file(r#"{ "title": "Nameless" }"#);
    assert_eq!(
        read_installed(PackageType::System, neither).unwrap_err(),
        "system.json declares no id or name"
    );
    assert_eq!(VersionField::Number("1.5".to_owned()).as_string(), "1.5");
    assert_eq!(VersionField::Text("v1".to_owned()).into_string(), "v1");
}

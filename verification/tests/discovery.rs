//! Tests for installation discovery.

use ufpm::foundry::discovery::{
    candidate, default_options_path, from_default_base, from_explicit, resolve, validate, Error,
    FoundryOptions, OptionsFile, RootFacts,
};
use ufpm::foundry::{Installation, LicenseError, PackageType, RootSource};

/// The facts of a valid root without an `options.json` of its own.
fn valid_root() -> RootFacts {
    RootFacts { config: true, data: true, options: OptionsFile::Absent }
}

/// An `options.json`, parsed.
fn options(data_path: Option<&str>, aws_config: bool) -> OptionsFile {
    OptionsFile::Parsed(FoundryOptions { data_path: data_path.map(str::to_owned), aws_config })
}

/// Reads an `options.json` the way the program does.
fn parse_options(raw: &str) -> OptionsFile {
    match serde_json::from_str::<serde_json::Value>(raw) {
        Ok(value) => OptionsFile::Parsed(FoundryOptions {
            data_path: value.get("dataPath").and_then(|path| path.as_str()).map(str::to_owned),
            aws_config: value.get("awsConfig").is_some_and(|config| !config.is_null()),
        }),
        Err(error) => OptionsFile::Invalid(error.to_string()),
    }
}

/// An explicit root with a valid layout resolves as-is.
#[test]
fn explicit_valid_root() {
    let installation = from_explicit("/foundry", valid_root()).unwrap();
    assert_eq!(installation.root(), "/foundry");
    assert_eq!(installation.source(), RootSource::Explicit);
}

/// An explicit root without a `Data` directory is rejected.
#[test]
fn explicit_root_missing_data_dir() {
    let facts = RootFacts { data: false, ..valid_root() };
    let error = from_explicit("/foundry", facts).unwrap_err();
    assert!(matches!(error, Error::InvalidRoot { missing: "Data", .. }));
    assert_eq!(
        error.message(),
        "/foundry does not look like a FoundryVTT root: missing the `Data` directory"
    );
}

/// An explicit root without a `Config` directory is rejected first.
#[test]
fn explicit_root_missing_config_dir() {
    let facts = RootFacts { config: false, data: false, options: OptionsFile::Absent };
    let error = from_explicit("/foundry", facts).unwrap_err();
    assert!(matches!(error, Error::InvalidRoot { missing: "Config", .. }));
}

/// Discovery follows `dataPath` to a custom root.
#[test]
fn discovery_follows_data_path() {
    let options = parse_options(r#"{ "dataPath": "/custom", "awsConfig": null }"#);
    let installation = from_default_base("/base", options).unwrap();
    assert_eq!(installation.root(), "/custom");
    assert_eq!(installation.source(), RootSource::Discovered);
    assert!(validate(&installation, valid_root()).is_ok());
}

/// Discovery falls back to the default folder when `dataPath` is absent.
#[test]
fn discovery_defaults_to_base_folder() {
    let installation = from_default_base("/base", parse_options("{}")).unwrap();
    assert_eq!(installation.root(), "/base/FoundryVTT");
    assert!(validate(&installation, valid_root()).is_ok());
}

/// A missing `options.json` produces a "not found" error.
#[test]
fn discovery_without_options_json() {
    let error = from_default_base("/base", OptionsFile::Absent).unwrap_err();
    assert!(matches!(error, Error::OptionsNotFound(_)));
    assert_eq!(error.chain(), [error.message()]);
    assert_eq!(
        error.message(),
        "no FoundryVTT configuration found at /base/FoundryVTT/Config/options.json; \
         pass --data-path if your installation is portable"
    );
}

/// A non-null `awsConfig` is rejected as an unsupported S3 installation.
#[test]
fn s3_installations_are_rejected() {
    let options = parse_options(r#"{ "awsConfig": { "region": "eu-west-1" } }"#);
    let error = from_default_base("/base", options).unwrap_err();
    assert!(matches!(error, Error::S3Unsupported(_)));
}

/// An explicit root whose own `options.json` declares S3 is rejected too.
#[test]
fn explicit_root_with_s3_options_is_rejected() {
    let facts = RootFacts {
        options: parse_options(r#"{ "awsConfig": "s3-config.json" }"#),
        ..valid_root()
    };
    let error = from_explicit("/foundry", facts).unwrap_err();
    assert!(matches!(&error, Error::S3Unsupported(path) if path == "/foundry/Config/options.json"));
    assert_eq!(
        error.message(),
        "this installation stores its data on S3 (`awsConfig` is set in \
         /foundry/Config/options.json), which ufpm does not support yet"
    );
}

/// `awsConfig: null` counts as a local installation.
#[test]
fn null_aws_config_is_local() {
    let facts = RootFacts { options: parse_options(r#"{ "awsConfig": null }"#), ..valid_root() };
    assert!(from_explicit("/foundry", facts).is_ok());
}

/// Invalid JSON in `options.json` is reported as a parse error.
#[test]
fn invalid_options_json() {
    let error = from_default_base("/base", parse_options("not json")).unwrap_err();
    assert!(matches!(&error, Error::OptionsInvalid { .. }));
    assert_eq!(error.message(), "failed to parse /base/FoundryVTT/Config/options.json");
}

/// An unreadable `options.json` is reported as such, wherever it is.
#[test]
fn unreadable_options_json() {
    let error =
        from_default_base("/base", OptionsFile::Unreadable("denied".to_owned())).unwrap_err();
    assert!(matches!(&error, Error::OptionsUnreadable { reason, .. } if reason == "denied"));
    assert_eq!(
        error.chain(),
        ["failed to read /base/FoundryVTT/Config/options.json", "denied"]
    );

    let facts =
        RootFacts { options: OptionsFile::Unreadable("denied".to_owned()), ..valid_root() };
    let error = from_explicit("/foundry", facts).unwrap_err();
    assert!(matches!(error, Error::OptionsUnreadable { path, .. } if path == "/foundry/Config/options.json"));
}

/// An explicit root wins over the platform default, which is needed otherwise.
#[test]
fn resolution_order() {
    let found =
        resolve(Some("/mine"), None, OptionsFile::Absent, valid_root()).unwrap();
    assert_eq!(found.root(), "/mine");

    let error = resolve(None, None, OptionsFile::Absent, valid_root()).unwrap_err();
    assert!(matches!(error, Error::NoPlatformDefault));
    assert_eq!(
        error.message(),
        "could not determine the platform data directory; pass --data-path"
    );

    let found = resolve(None, Some("/base"), options(Some("/data"), false), valid_root()).unwrap();
    assert_eq!(found.root(), "/data");
    assert_eq!(found.source(), RootSource::Discovered);

    let looked_at = candidate(None, Some("/base"), options(None, false)).unwrap();
    assert_eq!(looked_at.root(), "/base/FoundryVTT");
    assert_eq!(default_options_path("/base"), "/base/FoundryVTT/Config/options.json");
}

/// The directories of an installation.
#[test]
fn installation_layout() {
    let installation = Installation::new("/foundry".to_owned(), RootSource::Explicit);
    assert_eq!(installation.config_dir(), "/foundry/Config");
    assert_eq!(installation.license_path(), "/foundry/Config/license.json");
    assert_eq!(installation.data_dir(), "/foundry/Data");
    assert_eq!(installation.packages_dir(PackageType::Module), "/foundry/Data/modules");
    assert_eq!(installation.packages_dir(PackageType::System), "/foundry/Data/systems");
    assert_eq!(installation.worlds_dir(), "/foundry/Data/worlds");
    assert_eq!(PackageType::Module.api_name(), "module");
    assert_eq!(PackageType::System.manifest_filename(), "system.json");
    assert_eq!(PackageType::System.label(), "system");
}

/// The license is passed through verbatim when it is JSON.
#[test]
fn licenses_are_opaque() {
    let installation = Installation::new("/foundry".to_owned(), RootSource::Explicit);
    let raw = r#"{ "license":  "opaque-blob" }"#;
    assert_eq!(installation.load_license(Ok(raw.to_owned())).unwrap(), raw);

    let error = installation.load_license(Ok("not json".to_owned())).unwrap_err();
    assert!(matches!(&error, LicenseError::Invalid { .. }));
    assert_eq!(error.message(), "could not parse /foundry/Config/license.json");
    assert_eq!(error.chain().len(), 2);

    let error = installation.load_license(Err("denied".to_owned())).unwrap_err();
    assert!(matches!(&error, LicenseError::Unreadable { reason, .. } if reason == "denied"));
    assert_eq!(
        error.message(),
        "could not read /foundry/Config/license.json; is FoundryVTT licensed on this machine?"
    );
}

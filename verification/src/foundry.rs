//! Reading and modelling a local `FoundryVTT` installation.

pub mod discovery;
pub mod local;
pub mod version;
pub mod worlds;

use vstd::prelude::*;
use crate::json;
use crate::paths;
use crate::text;

verus! {

/// The kinds of `FoundryVTT` packages this crate manages.
///
/// `FoundryVTT` also knows a `world` package type, which is deprecated and
/// deliberately unsupported.
#[derive(Clone, Copy, Debug, Eq, Hash, PartialEq, Structural)]
pub enum PackageType {
    /// A module: an addon that extends systems or the core software.
    Module,
    /// A system: the rules implementation a world is built on.
    System,
}

impl PackageType {
    /// The name of this type in API requests, as text.
    pub open spec fn api_text(self) -> Seq<char> {
        match self {
            PackageType::Module => "module"@,
            PackageType::System => "system"@,
        }
    }

    /// The `Data` subdirectory of this type, as text.
    pub open spec fn directory_text(self) -> Seq<char> {
        match self {
            PackageType::Module => "modules"@,
            PackageType::System => "systems"@,
        }
    }

    /// The manifest filename of this type, as text.
    pub open spec fn manifest_text(self) -> Seq<char> {
        match self {
            PackageType::Module => "module.json"@,
            PackageType::System => "system.json"@,
        }
    }

    /// The name used for this type in `FoundryVTT` API requests.
    #[must_use]
    pub fn api_name(self) -> (name: &'static str)
        ensures
            name@ == self.api_text(),
    {
        match self {
            PackageType::Module => "module",
            PackageType::System => "system",
        }
    }

    /// The `Data` subdirectory installed packages of this type live in.
    #[must_use]
    pub fn directory(self) -> (name: &'static str)
        ensures
            name@ == self.directory_text(),
    {
        match self {
            PackageType::Module => "modules",
            PackageType::System => "systems",
        }
    }

    /// The manifest filename packages of this type carry.
    #[must_use]
    pub fn manifest_filename(self) -> (name: &'static str)
        ensures
            name@ == self.manifest_text(),
    {
        match self {
            PackageType::Module => "module.json",
            PackageType::System => "system.json",
        }
    }

    /// The text this type is shown as.
    #[must_use]
    pub fn label(self) -> (text: String)
        ensures
            text@ == self.api_text(),
    {
        self.api_name().to_owned()
    }
}

/// Errors that can occur while loading the `license.json`.
#[derive(Clone, Debug)]
pub enum LicenseError {
    /// The file could not be read.
    Unreadable {
        /// The `license.json` that could not be read.
        path: String,
        /// Why the read failed.
        reason: String,
    },
    /// The file is not valid JSON.
    Invalid {
        /// The `license.json` that could not be parsed.
        path: String,
        /// Why the parse failed.
        reason: String,
    },
}

impl LicenseError {
    /// The text of this error.
    pub open spec fn text(self) -> Seq<char> {
        match self {
            LicenseError::Unreadable { path, reason } => "could not read "@ + path@
                + "; is FoundryVTT licensed on this machine?"@,
            LicenseError::Invalid { path, reason } => "could not parse "@ + path@,
        }
    }

    /// The texts of what caused this error, outermost first.
    pub open spec fn causes(self) -> Seq<Seq<char>> {
        match self {
            LicenseError::Unreadable { path, reason } => seq![reason@],
            LicenseError::Invalid { path, reason } => seq![reason@],
        }
    }

    /// The text of this error.
    #[must_use]
    pub fn message(&self) -> (message: String)
        ensures
            message@ == self.text(),
    {
        match self {
            LicenseError::Unreadable { path, .. } => {
                let mut message = "could not read ".to_owned();
                message.append(path.as_str());
                message.append("; is FoundryVTT licensed on this machine?");
                message
            },
            LicenseError::Invalid { path, .. } => {
                let mut message = "could not parse ".to_owned();
                message.append(path.as_str());
                message
            },
        }
    }

    /// The texts of this error and of what caused it, outermost first.
    #[must_use]
    pub fn chain(&self) -> (chain: Vec<String>)
        ensures
            text::views(chain@) == seq![self.text()] + self.causes(),
    {
        let chain = match self {
            LicenseError::Unreadable { reason, .. } => vec![self.message(), reason.clone()],
            LicenseError::Invalid { reason, .. } => vec![self.message(), reason.clone()],
        };
        assert(text::views(chain@) =~= seq![self.text()] + self.causes());
        chain
    }
}

/// How the root of an [`Installation`] was determined.
#[derive(Clone, Copy, Debug, Eq, PartialEq, Structural)]
pub enum RootSource {
    /// Through `--data-path` or the `UFPM_DATA_PATH` environment variable.
    Explicit,
    /// By following `dataPath` in the platform-default `options.json`.
    Discovered,
}

/// A resolved local `FoundryVTT` installation.
///
/// `FoundryVTT` owns this directory tree and may modify it at any time; the
/// on-disk state is the only source of truth about installed packages.
#[derive(Clone, Debug)]
pub struct Installation {
    /// The root directory, containing `Config/` and `Data/`.
    root: String,
    /// How the root was located.
    source: RootSource,
}

impl Installation {
    /// The root directory, as text.
    pub closed spec fn root_text(&self) -> Seq<char> {
        self.root@
    }

    /// How the root was located.
    pub closed spec fn located(&self) -> RootSource {
        self.source
    }

    /// The `Config` directory, as text.
    pub open spec fn config_text(&self) -> Seq<char> {
        paths::under(self.root_text(), "Config"@)
    }

    /// The `Data` directory, as text.
    pub open spec fn data_text(&self) -> Seq<char> {
        paths::under(self.root_text(), "Data"@)
    }

    /// The `license.json` file, as text.
    pub open spec fn license_text(&self) -> Seq<char> {
        paths::under(self.config_text(), "license.json"@)
    }

    /// The directory of installed packages of one type, as text.
    pub open spec fn packages_text(&self, kind: PackageType) -> Seq<char> {
        paths::under(self.data_text(), kind.directory_text())
    }

    /// The directory of the user's worlds, as text.
    pub open spec fn worlds_text(&self) -> Seq<char> {
        paths::under(self.data_text(), "worlds"@)
    }

    /// Creates an installation rooted at `root`.
    pub fn new(root: String, source: RootSource) -> (installation: Self)
        ensures
            installation.root_text() == root@,
            installation.located() == source,
    {
        Installation { root, source }
    }

    /// The root directory of the installation.
    #[must_use]
    pub fn root(&self) -> (root: &str)
        ensures
            root@ == self.root_text(),
    {
        self.root.as_str()
    }

    /// How the root was located.
    #[must_use]
    pub fn source(&self) -> (source: RootSource)
        ensures
            source == self.located(),
    {
        self.source
    }

    /// The `Config` directory.
    #[must_use]
    pub fn config_dir(&self) -> (dir: String)
        ensures
            dir@ == self.config_text(),
    {
        paths::join(self.root.as_str(), "Config")
    }

    /// The `license.json` file.
    ///
    /// Its contents are opaque and sensitive: pass them through verbatim,
    /// never log or inspect them.
    #[must_use]
    pub fn license_path(&self) -> (path: String)
        ensures
            path@ == self.license_text(),
    {
        let config = self.config_dir();
        paths::join(config.as_str(), "license.json")
    }

    /// The `Data` directory holding worlds, systems and modules.
    #[must_use]
    pub fn data_dir(&self) -> (dir: String)
        ensures
            dir@ == self.data_text(),
    {
        paths::join(self.root.as_str(), "Data")
    }

    /// The directory containing installed packages of the given type.
    #[must_use]
    pub fn packages_dir(&self, kind: PackageType) -> (dir: String)
        ensures
            dir@ == self.packages_text(kind),
    {
        let data = self.data_dir();
        paths::join(data.as_str(), kind.directory())
    }

    /// The directory containing the user's worlds.
    #[must_use]
    pub fn worlds_dir(&self) -> (dir: String)
        ensures
            dir@ == self.worlds_text(),
    {
        let data = self.data_dir();
        paths::join(data.as_str(), "worlds")
    }

    /// Accepts the contents that were read from [`Installation::license_path`].
    ///
    /// The returned text is opaque and sensitive: it is exactly what was read,
    /// to be passed through to the API, never logged or inspected.
    ///
    /// # Errors
    ///
    /// Returns a [`LicenseError`] when the file could not be read or is not
    /// valid JSON.
    pub fn load_license(&self, read: Result<String, String>) -> (license: Result<
        String,
        LicenseError,
    >)
        ensures
            match read {
                Err(reason) => license matches Err(
                    LicenseError::Unreadable { path, reason: given },
                ) && path@ == self.license_text() && given == reason,
                Ok(raw) => match json::reading(vstd::utf8::encode_utf8(raw@)) {
                    Ok(_) => license == Ok::<String, LicenseError>(raw),
                    Err(problem) => license matches Err(LicenseError::Invalid { path, reason })
                        && path@ == self.license_text() && reason@ == problem,
                },
            },
    {
        let path = self.license_path();
        match read {
            Err(reason) => Err(LicenseError::Unreadable { path, reason }),
            Ok(raw) => match json::parse(raw.as_str().as_bytes()) {
                Ok(_) => Ok(raw),
                Err(reason) => Err(LicenseError::Invalid { path, reason }),
            },
        }
    }
}

/// An error names the file it is about, and has its reason as its cause.
pub proof fn errors_name_their_subject(error: LicenseError)
    ensures
        error matches LicenseError::Unreadable { path, reason } ==> text::contains_text(
            error.text(),
            path@,
        ) && error.causes() == seq![reason@],
        error matches LicenseError::Invalid { path, reason } ==> text::contains_text(
            error.text(),
            path@,
        ) && error.causes() == seq![reason@],
{
    match error {
        LicenseError::Unreadable { path, reason } => {
            text::texts_contain_their_middle(
                "could not read "@,
                path@,
                "; is FoundryVTT licensed on this machine?"@,
            );
        },
        LicenseError::Invalid { path, reason } => {
            text::texts_contain_their_middle("could not parse "@, path@, Seq::empty());
        },
    }
}

/// Modules and systems differ in every name that is used for them.
pub proof fn package_types_are_told_apart(kind: PackageType)
    ensures
        kind.api_text() == "module"@ <==> kind == PackageType::Module,
        kind.api_text() == "system"@ <==> kind == PackageType::System,
        kind.directory_text() == kind.api_text() + "s"@,
        kind.manifest_text() == kind.api_text() + ".json"@,
{
    reveal_strlit("module");
    reveal_strlit("system");
    reveal_strlit("modules");
    reveal_strlit("systems");
    reveal_strlit("module.json");
    reveal_strlit("system.json");
    reveal_strlit("s");
    reveal_strlit(".json");
    assert("module"@[0] != "system"@[0]);
    assert("modules"@ =~= "module"@ + "s"@);
    assert("systems"@ =~= "system"@ + "s"@);
    assert("module.json"@ =~= "module"@ + ".json"@);
    assert("system.json"@ =~= "system"@ + ".json"@);
}

/// An installation keeps its configuration, its data, its packages and its
/// worlds each in a directory of its own below its root.
pub proof fn installations_have_a_fixed_layout(installation: Installation)
    ensures
        installation.config_text() == paths::under(installation.root_text(), "Config"@),
        installation.license_text() == paths::under(
            paths::under(installation.root_text(), "Config"@),
            "license.json"@,
        ),
        installation.packages_text(PackageType::Module) == paths::under(
            paths::under(installation.root_text(), "Data"@),
            "modules"@,
        ),
        installation.packages_text(PackageType::System) == paths::under(
            paths::under(installation.root_text(), "Data"@),
            "systems"@,
        ),
        installation.worlds_text() == paths::under(
            paths::under(installation.root_text(), "Data"@),
            "worlds"@,
        ),
{
}

} // verus!

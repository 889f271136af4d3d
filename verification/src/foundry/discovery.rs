//! Locating the `FoundryVTT` installation root on the local machine.
//!
//! Resolution order:
//!
//! 1. An explicit override (`--data-path` / `UFPM_DATA_PATH`), used as-is.
//! 2. The platform-default `options.json`, following its `dataPath` field:
//!
//!    | Platform | Location |
//!    |---|---|
//!    | Linux | `$XDG_DATA_HOME` or `~/.local/share`, then `FoundryVTT/Config/options.json` |
//!    | macOS | `~/Library/Application Support/FoundryVTT/Config/options.json` |
//!    | Windows | `%LOCALAPPDATA%\FoundryVTT\Config\options.json` |
//!
//! Installations whose `options.json` declares a non-null `awsConfig` store
//! their data on S3, which is not supported yet; they are rejected with a
//! dedicated error instead of being misread as local.
//!
//! What was found on disk comes in as plain values: [`candidate`] tells which
//! root to look at, [`resolve`] judges what was found there.

use vstd::prelude::*;
use crate::foundry::{Installation, RootSource};
use crate::paths;
use crate::text;

verus! {

/// Errors that can occur while locating a `FoundryVTT` installation.
#[derive(Clone, Debug)]
pub enum Error {
    /// The platform has no known default data directory.
    NoPlatformDefault,
    /// No `options.json` exists at the platform-default location.
    OptionsNotFound(String),
    /// An `options.json` exists but could not be read.
    OptionsUnreadable {
        /// The `options.json` that could not be read.
        path: String,
        /// Why the read failed.
        reason: String,
    },
    /// An `options.json` exists but is not valid JSON.
    OptionsInvalid {
        /// The `options.json` that could not be parsed.
        path: String,
        /// Why the parse failed.
        reason: String,
    },
    /// The installation stores its data on S3.
    S3Unsupported(String),
    /// The resolved root does not have the expected directory layout.
    InvalidRoot {
        /// The directory that failed validation.
        root: String,
        /// The expected child directory that was absent.
        missing: &'static str,
    },
}

/// A discovery error, as text.
pub enum ErrorView {
    /// The platform has no known default data directory.
    NoPlatformDefault,
    /// No `options.json` exists at the platform-default location.
    OptionsNotFound(Seq<char>),
    /// An `options.json` exists but could not be read.
    OptionsUnreadable { path: Seq<char>, reason: Seq<char> },
    /// An `options.json` exists but is not valid JSON.
    OptionsInvalid { path: Seq<char>, reason: Seq<char> },
    /// The installation stores its data on S3.
    S3Unsupported(Seq<char>),
    /// The resolved root does not have the expected directory layout.
    InvalidRoot { root: Seq<char>, missing: Seq<char> },
}

impl View for Error {
    type V = ErrorView;

    open spec fn view(&self) -> ErrorView {
        match *self {
            Error::NoPlatformDefault => ErrorView::NoPlatformDefault,
            Error::OptionsNotFound(path) => ErrorView::OptionsNotFound(path@),
            Error::OptionsUnreadable { path, reason } => ErrorView::OptionsUnreadable {
                path: path@,
                reason: reason@,
            },
            Error::OptionsInvalid { path, reason } => ErrorView::OptionsInvalid {
                path: path@,
                reason: reason@,
            },
            Error::S3Unsupported(path) => ErrorView::S3Unsupported(path@),
            Error::InvalidRoot { root, missing } => ErrorView::InvalidRoot {
                root: root@,
                missing: missing@,
            },
        }
    }
}

impl ErrorView {
    /// The text of this error.
    pub open spec fn text(self) -> Seq<char> {
        match self {
            ErrorView::NoPlatformDefault =>
                "could not determine the platform data directory; pass --data-path"@,
            ErrorView::OptionsNotFound(path) => "no FoundryVTT configuration found at "@ + path
                + "; pass --data-path if your installation is portable"@,
            ErrorView::OptionsUnreadable { path, reason } => "failed to read "@ + path,
            ErrorView::OptionsInvalid { path, reason } => "failed to parse "@ + path,
            ErrorView::S3Unsupported(path) =>
                "this installation stores its data on S3 (`awsConfig` is set in "@ + path
                + "), which ufpm does not support yet"@,
            ErrorView::InvalidRoot { root, missing } => root
                + " does not look like a FoundryVTT root: missing the `"@ + missing
                + "` directory"@,
        }
    }

    /// The texts of what caused this error, outermost first.
    pub open spec fn causes(self) -> Seq<Seq<char>> {
        match self {
            ErrorView::OptionsUnreadable { path, reason } => seq![reason],
            ErrorView::OptionsInvalid { path, reason } => seq![reason],
            _ => Seq::empty(),
        }
    }
}

impl Error {
    /// The text of this error.
    #[must_use]
    pub fn message(&self) -> (message: String)
        ensures
            message@ == self@.text(),
    {
        match self {
            Error::NoPlatformDefault =>
                "could not determine the platform data directory; pass --data-path".to_owned(),
            Error::OptionsNotFound(path) => {
                let mut message = "no FoundryVTT configuration found at ".to_owned();
                message.append(path.as_str());
                message.append("; pass --data-path if your installation is portable");
                message
            },
            Error::OptionsUnreadable { path, .. } => {
                let mut message = "failed to read ".to_owned();
                message.append(path.as_str());
                message
            },
            Error::OptionsInvalid { path, .. } => {
                let mut message = "failed to parse ".to_owned();
                message.append(path.as_str());
                message
            },
            Error::S3Unsupported(path) => {
                let mut message =
                    "this installation stores its data on S3 (`awsConfig` is set in ".to_owned();
                message.append(path.as_str());
                message.append("), which ufpm does not support yet");
                message
            },
            Error::InvalidRoot { root, missing } => {
                let mut message = root.clone();
                message.append(" does not look like a FoundryVTT root: missing the `");
                message.append(missing);
                message.append("` directory");
                message
            },
        }
    }

    /// The texts of this error and of what caused it, outermost first.
    #[must_use]
    pub fn chain(&self) -> (chain: Vec<String>)
        ensures
            text::views(chain@) == seq![self@.text()] + self@.causes(),
    {
        let chain = match self {
            Error::OptionsUnreadable { reason, .. } => vec![self.message(), reason.clone()],
            Error::OptionsInvalid { reason, .. } => vec![self.message(), reason.clone()],
            _ => vec![self.message()],
        };
        assert(text::views(chain@) =~= seq![self@.text()] + self@.causes());
        chain
    }
}

/// The subset of `FoundryVTT`'s `options.json` that is understood.
#[derive(Clone, Debug)]
pub struct FoundryOptions {
    /// The configured user-data directory (the `FoundryVTT` root).
    pub data_path: Option<String>,
    /// Whether there is an S3 storage configuration; any non-null value marks
    /// the installation as S3-backed.
    pub aws_config: bool,
}

/// What was found in place of an `options.json`.
#[derive(Clone, Debug)]
pub enum OptionsFile {
    /// There is no such file.
    Absent,
    /// It could not be read, with the reason.
    Unreadable(String),
    /// It is not valid, with the reason.
    Invalid(String),
    /// The options.
    Parsed(FoundryOptions),
}

/// What was found at the root of an installation.
#[derive(Clone, Debug)]
pub struct RootFacts {
    /// Whether `Config` is a directory.
    pub config: bool,
    /// Whether `Data` is a directory.
    pub data: bool,
    /// The root's own `Config/options.json`.
    pub options: OptionsFile,
}

/// The options in a file that exists, or why they are not known.
pub open spec fn options_in(path: Seq<char>, options: OptionsFile) -> Result<
    FoundryOptions,
    ErrorView,
> {
    match options {
        OptionsFile::Absent => Err(ErrorView::OptionsNotFound(path)),
        OptionsFile::Unreadable(reason) => Err(
            ErrorView::OptionsUnreadable { path, reason: reason@ },
        ),
        OptionsFile::Invalid(reason) => Err(ErrorView::OptionsInvalid { path, reason: reason@ }),
        OptionsFile::Parsed(options) => if options.aws_config {
            Err(ErrorView::S3Unsupported(path))
        } else {
            Ok(options)
        },
    }
}

/// Accepts what was found in place of the `options.json` at `path`.
///
/// # Errors
///
/// Returns an [`Error`] when the file does not exist, could not be read or is
/// not valid, or declares S3 storage.
fn read_options(path: String, options: OptionsFile) -> (result: Result<FoundryOptions, Error>)
    ensures
        match options_in(path@, options) {
            Ok(found) => result == Ok::<FoundryOptions, Error>(found),
            Err(problem) => result matches Err(error) && error@ == problem,
        },
{
    match options {
        OptionsFile::Absent => Err(Error::OptionsNotFound(path)),
        OptionsFile::Unreadable(reason) => Err(Error::OptionsUnreadable { path, reason }),
        OptionsFile::Invalid(reason) => Err(Error::OptionsInvalid { path, reason }),
        OptionsFile::Parsed(options) => if options.aws_config {
            Err(Error::S3Unsupported(path))
        } else {
            Ok(options)
        },
    }
}

/// The default root under a platform directory.
pub open spec fn default_root(base: Seq<char>) -> Seq<char> {
    paths::under(base, "FoundryVTT"@)
}

/// The `options.json` of a root.
pub open spec fn options_path(root: Seq<char>) -> Seq<char> {
    paths::under(paths::under(root, "Config"@), "options.json"@)
}

/// The `options.json` at the default location under `base`.
#[must_use]
pub fn default_options_path(base: &str) -> (path: String)
    ensures
        path@ == options_path(default_root(base@)),
{
    let root = paths::join(base, "FoundryVTT");
    let config = paths::join(root.as_str(), "Config");
    paths::join(config.as_str(), "options.json")
}

/// The root that the default `options.json` leads to: its `dataPath`, or the
/// default folder itself when the field is absent.
pub open spec fn discovered_root(base: Seq<char>, options: OptionsFile) -> Result<
    Seq<char>,
    ErrorView,
> {
    match options_in(options_path(default_root(base)), options) {
        Ok(options) => match options.data_path {
            Some(path) => Ok(path@),
            None => Ok(default_root(base)),
        },
        Err(problem) => Err(problem),
    }
}

/// Follows the default `options.json` under `base` to the configured
/// `dataPath`, falling back to the default folder itself when the field is
/// absent.
///
/// # Errors
///
/// Returns an [`Error`] when the `options.json` is missing or invalid, or the
/// installation is S3-backed.
pub fn from_default_base(base: &str, options: OptionsFile) -> (installation: Result<
    Installation,
    Error,
>)
    ensures
        match discovered_root(base@, options) {
            Ok(root) => installation matches Ok(found) && found.root_text() == root
                && found.located() == RootSource::Discovered,
            Err(problem) => installation matches Err(error) && error@ == problem,
        },
{
    match read_options(default_options_path(base), options) {
        Err(error) => Err(error),
        Ok(options) => {
            let root = match options.data_path {
                Some(path) => path,
                None => paths::join(base, "FoundryVTT"),
            };
            Ok(Installation::new(root, RootSource::Discovered))
        },
    }
}

/// Where an installation is to be looked for.
pub open spec fn candidate_of(
    explicit: Option<&str>,
    base: Option<&str>,
    options: OptionsFile,
) -> Result<(Seq<char>, RootSource), ErrorView> {
    match explicit {
        Some(root) => Ok((root@, RootSource::Explicit)),
        None => match base {
            None => Err(ErrorView::NoPlatformDefault),
            Some(base) => match discovered_root(base@, options) {
                Ok(root) => Ok((root, RootSource::Discovered)),
                Err(problem) => Err(problem),
            },
        },
    }
}

/// Tells where an installation is to be looked for: at `explicit` when given
/// (from `--data-path` / `UFPM_DATA_PATH`), otherwise where the
/// platform-default `options.json` under `base` leads.
///
/// # Errors
///
/// Returns an [`Error`] when there is nowhere to look, or the default
/// installation is S3-backed.
pub fn candidate(explicit: Option<&str>, base: Option<&str>, options: OptionsFile) -> (
installation: Result<Installation, Error>)
    ensures
        match candidate_of(explicit, base, options) {
            Ok((root, source)) => installation matches Ok(found) && found.root_text() == root
                && found.located() == source,
            Err(problem) => installation matches Err(error) && error@ == problem,
        },
{
    match explicit {
        Some(root) => Ok(Installation::new(root.to_owned(), RootSource::Explicit)),
        None => match base {
            Some(base) => from_default_base(base, options),
            None => Err(Error::NoPlatformDefault),
        },
    }
}

/// What is wrong with a root, if anything.
pub open spec fn defect(root: Seq<char>, facts: RootFacts) -> Option<ErrorView> {
    if !facts.config {
        Some(ErrorView::InvalidRoot { root, missing: "Config"@ })
    } else if !facts.data {
        Some(ErrorView::InvalidRoot { root, missing: "Data"@ })
    } else if facts.options is Absent {
        None
    } else {
        match options_in(options_path(root), facts.options) {
            Ok(_) => None,
            Err(problem) => Some(problem),
        }
    }
}

/// Checks that the installation has the expected `Config`/`Data` layout and
/// that its own `options.json` (when present) does not declare S3 storage.
///
/// # Errors
///
/// Returns an [`Error`] when a required directory is missing, the root's
/// `options.json` is unreadable, or the installation is S3-backed.
pub fn validate(installation: &Installation, facts: RootFacts) -> (result: Result<(), Error>)
    ensures
        match defect(installation.root_text(), facts) {
            None => result is Ok,
            Some(problem) => result matches Err(error) && error@ == problem,
        },
{
    if !facts.config {
        return Err(
            Error::InvalidRoot { root: installation.root().to_owned(), missing: "Config" },
        );
    }
    if !facts.data {
        return Err(Error::InvalidRoot { root: installation.root().to_owned(), missing: "Data" });
    }
    if let OptionsFile::Absent = facts.options {
        return Ok(());
    }
    let config = installation.config_dir();
    let path = paths::join(config.as_str(), "options.json");
    match read_options(path, facts.options) {
        Ok(_) => Ok(()),
        Err(error) => Err(error),
    }
}

/// Resolves an explicitly-provided root.
///
/// # Errors
///
/// Returns an [`Error`] when the directory layout is wrong or the root's own
/// `options.json` declares S3 storage.
pub fn from_explicit(root: &str, facts: RootFacts) -> (installation: Result<Installation, Error>)
    ensures
        match defect(root@, facts) {
            None => installation matches Ok(found) && found.root_text() == root@ && found.located()
                == RootSource::Explicit,
            Some(problem) => installation matches Err(error) && error@ == problem,
        },
{
    let installation = Installation::new(root.to_owned(), RootSource::Explicit);
    match validate(&installation, facts) {
        Ok(()) => Ok(installation),
        Err(error) => Err(error),
    }
}

/// Resolves the `FoundryVTT` installation root.
///
/// Uses `explicit` when given (from `--data-path` / `UFPM_DATA_PATH`),
/// otherwise discovers the root through the platform-default `options.json`
/// under `base`. `facts` tells what was found at the root that [`candidate`]
/// names.
///
/// # Errors
///
/// Returns an [`Error`] when no installation can be located, the resolved
/// root does not have the expected layout, or the installation is S3-backed.
pub fn resolve(
    explicit: Option<&str>,
    base: Option<&str>,
    options: OptionsFile,
    facts: RootFacts,
) -> (installation: Result<Installation, Error>)
    ensures
        match candidate_of(explicit, base, options) {
            Err(problem) => installation matches Err(error) && error@ == problem,
            Ok((root, source)) => match defect(root, facts) {
                Some(problem) => installation matches Err(error) && error@ == problem,
                None => installation matches Ok(found) && found.root_text() == root
                    && found.located() == source,
            },
        },
{
    match candidate(explicit, base, options) {
        Err(error) => Err(error),
        Ok(installation) => match validate(&installation, facts) {
            Ok(()) => Ok(installation),
            Err(error) => Err(error),
        },
    }
}

/// Whether an `options.json` declares S3 storage.
pub open spec fn declares_s3(options: OptionsFile) -> bool {
    options matches OptionsFile::Parsed(options) && options.aws_config
}

/// An installation that declares S3 storage is never resolved: neither through
/// a default `options.json` that does, nor at a root whose own `options.json`
/// does, however that root was found.
pub proof fn s3_installations_are_never_resolved(
    base: &str,
    options: OptionsFile,
    root: Seq<char>,
    facts: RootFacts,
)
    ensures
        declares_s3(options) ==> candidate_of(None, Some(base), options) == Err::<
            (Seq<char>, RootSource),
            ErrorView,
        >(ErrorView::S3Unsupported(options_path(default_root(base@)))),
        declares_s3(facts.options) ==> defect(root, facts) is Some,
        declares_s3(facts.options) && facts.config && facts.data ==> defect(root, facts) == Some(
            ErrorView::S3Unsupported(options_path(root)),
        ),
{
}

/// An explicit root is taken as it is, whatever else is there. Without one the
/// platform default decides: its `dataPath` when it names one, the default
/// folder otherwise; and nowhere to look, no options, and options that cannot be
/// used are errors.
pub proof fn explicit_roots_come_first(
    explicit: Option<&str>,
    base: Option<&str>,
    options: OptionsFile,
)
    ensures
        explicit matches Some(root) ==> candidate_of(explicit, base, options) == Ok::<
            (Seq<char>, RootSource),
            ErrorView,
        >((root@, RootSource::Explicit)),
        explicit is None && base is None ==> candidate_of(explicit, base, options) == Err::<
            (Seq<char>, RootSource),
            ErrorView,
        >(ErrorView::NoPlatformDefault),
        explicit is None ==> (base matches Some(base) ==> (options matches OptionsFile::Parsed(found)
            ==> (!found.aws_config ==> candidate_of(explicit, Some(base), options) == Ok::<
            (Seq<char>, RootSource),
            ErrorView,
        >(
            (
                match found.data_path {
                    Some(path) => path@,
                    None => paths::under(base@, "FoundryVTT"@),
                },
                RootSource::Discovered,
            ),
        )))),
        explicit is None && base is Some && options !is Parsed ==> candidate_of(
            explicit,
            base,
            options,
        ) is Err,
        explicit is None ==> (base matches Some(base) ==> (options is Absent ==> candidate_of(
            explicit,
            Some(base),
            options,
        ) == Err::<(Seq<char>, RootSource), ErrorView>(
            ErrorView::OptionsNotFound(
                paths::under(
                    paths::under(paths::under(base@, "FoundryVTT"@), "Config"@),
                    "options.json"@,
                ),
            ),
        ))),
{
}

/// A root is accepted just when it has both directories and its own options, if
/// it has any, can be used and declare no S3 storage; a missing directory is
/// named.
pub proof fn roots_have_both_directories(root: Seq<char>, facts: RootFacts)
    ensures
        defect(root, facts) is None <==> facts.config && facts.data && (facts.options is Absent || (
        facts.options matches OptionsFile::Parsed(options) && !options.aws_config)),
        !facts.config ==> defect(root, facts) == Some(
            ErrorView::InvalidRoot { root, missing: "Config"@ },
        ),
        facts.config && !facts.data ==> defect(root, facts) == Some(
            ErrorView::InvalidRoot { root, missing: "Data"@ },
        ),
        facts.config && facts.data ==> (facts.options matches OptionsFile::Invalid(reason)
            ==> defect(root, facts) == Some(
            ErrorView::OptionsInvalid { path: options_path(root), reason: reason@ },
        )),
        facts.config && facts.data ==> (facts.options matches OptionsFile::Unreadable(reason)
            ==> defect(root, facts) == Some(
            ErrorView::OptionsUnreadable { path: options_path(root), reason: reason@ },
        )),
{
}

/// Errors name what they are about, and only a failed read or parse has a
/// cause.
pub proof fn errors_name_their_subject(error: ErrorView)
    ensures
        error matches ErrorView::OptionsNotFound(path) ==> text::contains_text(error.text(), path)
            && error.causes().len() == 0,
        error matches ErrorView::OptionsUnreadable { path, reason } ==> text::contains_text(
            error.text(),
            path,
        ) && error.causes() == seq![reason],
        error matches ErrorView::OptionsInvalid { path, reason } ==> text::contains_text(
            error.text(),
            path,
        ) && error.causes() == seq![reason],
        error matches ErrorView::S3Unsupported(path) ==> text::contains_text(error.text(), path)
            && error.causes().len() == 0,
        error matches ErrorView::InvalidRoot { root, missing } ==> text::contains_text(
            error.text(),
            root,
        ) && text::contains_text(error.text(), missing) && error.causes().len() == 0,
{
    match error {
        ErrorView::NoPlatformDefault => {},
        ErrorView::OptionsNotFound(path) => {
            text::texts_contain_their_middle(
                "no FoundryVTT configuration found at "@,
                path,
                "; pass --data-path if your installation is portable"@,
            );
        },
        ErrorView::OptionsUnreadable { path, reason } => {
            text::texts_contain_their_middle("failed to read "@, path, Seq::empty());
        },
        ErrorView::OptionsInvalid { path, reason } => {
            text::texts_contain_their_middle("failed to parse "@, path, Seq::empty());
        },
        ErrorView::S3Unsupported(path) => {
            text::texts_contain_their_middle(
                "this installation stores its data on S3 (`awsConfig` is set in "@,
                path,
                "), which ufpm does not support yet"@,
            );
        },
        ErrorView::InvalidRoot { root, missing } => {
            let middle = " does not look like a FoundryVTT root: missing the `"@;
            let end = "` directory"@;
            text::texts_contain_their_middle(root + middle, missing, end);
            text::texts_contain_their_middle(Seq::empty(), root, middle + missing + end);
            assert(error.text() =~= Seq::empty() + root + (middle + missing + end));
        },
    }
}

} // verus!

//! The undocumented `foundryvtt.com` package API.
//!
//! Every request carries two pieces of authentication: a constant API key in
//! the `Authorization` header, and the full (opaque) `license.json` contents
//! in the request body.
//!
//! The API is undocumented and may change shape at any time; the models in
//! [`types`] therefore only pin down the fields that are actually used and
//! ignore everything else.

pub mod status;
pub mod types;

use vstd::prelude::*;
use crate::api::types::PackagesResponse;
use crate::foundry::PackageType;
use crate::text;

verus! {

/// Errors produced by the `FoundryVTT` package API client.
#[derive(Clone, Debug)]
pub enum Error {
    /// The request never produced a usable HTTP response; the causes come
    /// outermost first.
    Transport(Vec<String>),
    /// The API answered with a non-success HTTP status.
    Http {
        /// The HTTP status code of the response.
        status: u16,
    },
    /// The response body could not be parsed into the expected shape, with
    /// the reason.
    Invalid(String),
    /// The API answered, but reported a non-success status in the body.
    Failed(String),
}

impl Error {
    /// The text of this error.
    pub open spec fn text(self) -> Seq<char> {
        match self {
            Error::Transport(_) => "request to the FoundryVTT API failed"@,
            Error::Http { status } => "the FoundryVTT API answered HTTP "@ + status::shown(status)
                + "; has the undocumented API changed?"@,
            Error::Invalid(_) =>
                "could not parse the FoundryVTT API response; has the undocumented API changed?"@,
            Error::Failed(status) => "the FoundryVTT API reported status "@ + text::quoted(status@),
        }
    }

    /// The texts of what caused this error, outermost first.
    pub open spec fn causes(self) -> Seq<Seq<char>> {
        match self {
            Error::Transport(causes) => text::views(causes@),
            Error::Invalid(reason) => seq![reason@],
            _ => Seq::empty(),
        }
    }

    /// The text of this error.
    #[must_use]
    pub fn message(&self) -> (message: String)
        ensures
            message@ == self.text(),
    {
        match self {
            Error::Transport(_) => "request to the FoundryVTT API failed".to_owned(),
            Error::Http { status } => {
                let mut message = "the FoundryVTT API answered HTTP ".to_owned();
                let line = status::show(*status);
                message.append(line.as_str());
                message.append("; has the undocumented API changed?");
                message
            },
            Error::Invalid(_) =>
                "could not parse the FoundryVTT API response; has the undocumented API changed?".to_owned(),
            Error::Failed(status) => {
                let mut message = "the FoundryVTT API reported status ".to_owned();
                let shown = text::quote(status.as_str());
                message.append(shown.as_str());
                message
            },
        }
    }

    /// The texts of this error and of what caused it, outermost first.
    #[must_use]
    pub fn chain(&self) -> (chain: Vec<String>)
        ensures
            text::views(chain@) == seq![self.text()] + self.causes(),
    {
        let mut chain = vec![self.message()];
        assert(text::views(chain@) =~= seq![self.text()]);
        match self {
            Error::Transport(causes) => text::append_all(&mut chain, causes),
            Error::Invalid(reason) => {
                chain.push(reason.clone());
                assert(text::views(chain@) =~= seq![self.text()] + seq![reason@]);
            },
            _ => {},
        }
        assert(text::views(chain@) =~= seq![self.text()] + self.causes());
        chain
    }
}

/// The base URL of the production `foundryvtt.com` API.
pub const BASE_URL: &'static str = "https://foundryvtt.com";

/// A request for the full package index of one package type.
///
/// The API has no pagination: this is a single, slow call that returns every
/// package of the given type.
#[derive(Clone, Debug)]
pub struct PackagesRequest {
    /// The URL to post to.
    pub url: String,
    /// The `type` field of the body.
    pub package_type: &'static str,
    /// The `version` field of the body.
    pub version: String,
}

/// The request for the full package index of one package type, reporting a
/// `FoundryVTT` version.
#[must_use]
pub fn packages_request(base_url: &str, kind: PackageType, version: String) -> (request: PackagesRequest)
    ensures
        request.url@ == base_url@ + "/_api/packages/get"@,
        request.package_type@ == kind.api_text(),
        request.version == version,
{
    let mut url = base_url.to_owned();
    url.append("/_api/packages/get");
    PackagesRequest { url, package_type: kind.api_name(), version }
}

/// Accepts a response by its status.
///
/// # Errors
///
/// Returns [`Error::Http`] when the status is not a success.
pub fn accept(status: u16) -> (result: Result<(), Error>)
    ensures
        result == if status::succeeds(status) {
            Ok::<(), Error>(())
        } else {
            Err::<(), Error>(Error::Http { status })
        },
{
    if status::is_success(status) {
        Ok(())
    } else {
        Err(Error::Http { status })
    }
}

/// The index in a response body, or why there is none.
pub open spec fn accepted(parsed: Result<PackagesResponse, String>) -> Result<
    PackagesResponse,
    Error,
> {
    match parsed {
        Err(reason) => Err(Error::Invalid(reason)),
        Ok(response) => if response.status@ == "success"@ {
            Ok(response)
        } else {
            Err(Error::Failed(response.status))
        },
    }
}

/// Accepts a parsed `/_api/packages/get` response body, validating the
/// embedded `status` field.
///
/// # Errors
///
/// Returns an [`Error`] when the body was not of the expected JSON shape or
/// the API reported a non-success status.
pub fn parse_packages(parsed: Result<PackagesResponse, String>) -> (response: Result<
    PackagesResponse,
    Error,
>)
    ensures
        response == accepted(parsed),
{
    match parsed {
        Err(reason) => Err(Error::Invalid(reason)),
        Ok(response) => if text::same(response.status.as_str(), "success") {
            Ok(response)
        } else {
            Err(Error::Failed(response.status))
        },
    }
}

/// A response is accepted as it is just when it could be parsed and reports
/// success; otherwise the error tells what went wrong.
pub proof fn only_successes_are_accepted(parsed: Result<PackagesResponse, String>)
    ensures
        accepted(parsed) is Ok <==> (parsed matches Ok(response) && response.status@ == "success"@),
        accepted(parsed) matches Ok(response) ==> parsed == Ok::<PackagesResponse, String>(response),
        parsed matches Err(reason) ==> accepted(parsed) == Err::<PackagesResponse, Error>(
            Error::Invalid(reason),
        ),
        parsed matches Ok(response) ==> (response.status@ != "success"@ ==> accepted(parsed) == Err::<
            PackagesResponse,
            Error,
        >(Error::Failed(response.status))),
{
}

/// Errors name the status they are about, and are followed by what caused them.
pub proof fn errors_name_their_subject(error: Error)
    ensures
        error matches Error::Transport(causes) ==> error.causes() == text::views(causes@),
        error matches Error::Http { status } ==> text::contains_text(
            error.text(),
            status::shown(status),
        ) && error.causes().len() == 0,
        error matches Error::Invalid(reason) ==> error.causes() == seq![reason@],
        error matches Error::Failed(status) ==> text::contains_text(
            error.text(),
            text::quoted(status@),
        ) && error.causes().len() == 0,
{
    match error {
        Error::Http { status } => {
            text::texts_contain_their_middle(
                "the FoundryVTT API answered HTTP "@,
                status::shown(status),
                "; has the undocumented API changed?"@,
            );
        },
        Error::Failed(status) => {
            text::texts_contain_their_middle(
                "the FoundryVTT API reported status "@,
                text::quoted(status@),
                Seq::empty(),
            );
        },
        _ => {},
    }
}

} // verus!

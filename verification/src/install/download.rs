//! Resumable file downloads.
//!
//! Downloads stream to a `.part` file next to the final destination, with a
//! small `.part.meta` sidecar recording the source URL and the server's
//! validator (`ETag` / `Last-Modified`). An interrupted download is resumed
//! with `Range` + `If-Range`: hosts that support ranges continue where the
//! transfer stopped, hosts that do not (or whose content changed) transparently
//! restart from scratch. Download hosts are arbitrary third parties, so
//! nothing is assumed about their capabilities.
//!
//! One attempt is a machine: [`fetch_once`] begins it, [`Attempt::stage`]
//! names the next thing to do, and [`Attempt::next`] takes what came of it.
//! [`fetch`] decides what follows an attempt.

use vstd::prelude::*;
use crate::api::status;
use crate::paths;
use crate::text;

verus! {

/// How often a failed download is attempted in total.
pub const MAX_ATTEMPTS: u32 = 3;

/// Errors that can occur while downloading a file.
#[derive(Clone, Debug)]
pub enum Error {
    /// The request never produced a usable HTTP response; the causes come
    /// outermost first.
    Transport(Vec<String>),
    /// The host answered with a non-success HTTP status.
    Http {
        /// The HTTP status code of the response.
        status: u16,
    },
    /// Plain I/O failure on the partial or final file.
    Io {
        /// The file the operation failed on.
        path: String,
        /// Why it failed.
        reason: String,
    },
}

/// A download error, as text.
pub enum ErrorView {
    /// The request never produced a usable HTTP response.
    Transport(Seq<Seq<char>>),
    /// The host answered with a non-success HTTP status.
    Http { status: u16 },
    /// Plain I/O failure on the partial or final file.
    Io { path: Seq<char>, reason: Seq<char> },
}

impl View for Error {
    type V = ErrorView;

    open spec fn view(&self) -> ErrorView {
        match *self {
            Error::Transport(causes) => ErrorView::Transport(text::views(causes@)),
            Error::Http { status } => ErrorView::Http { status },
            Error::Io { path, reason } => ErrorView::Io { path: path@, reason: reason@ },
        }
    }
}

impl Error {
    /// The text of this error.
    pub open spec fn text(self) -> Seq<char> {
        match self {
            Error::Transport(_) => "the download request failed"@,
            Error::Http { status } => "the download host answered HTTP "@ + status::shown(status),
            Error::Io { path, reason } => "I/O failed at "@ + path@,
        }
    }

    /// The texts of what caused this error, outermost first.
    pub open spec fn causes(self) -> Seq<Seq<char>> {
        match self {
            Error::Transport(causes) => text::views(causes@),
            Error::Http { status } => Seq::empty(),
            Error::Io { path, reason } => seq![reason@],
        }
    }

    /// The text of this error.
    #[must_use]
    pub fn message(&self) -> (message: String)
        ensures
            message@ == self.text(),
    {
        match self {
            Error::Transport(_) => "the download request failed".to_owned(),
            Error::Http { status } => {
                let mut message = "the download host answered HTTP ".to_owned();
                let line = status::show(*status);
                message.append(line.as_str());
                message
            },
            Error::Io { path, .. } => {
                let mut message = "I/O failed at ".to_owned();
                message.append(path.as_str());
                message
            },
        }
    }

    /// The texts of this error and of what caused it, outermost first.
    #[must_use]
    pub fn chain(&self) -> (chain: Vec<String>)
        ensures
            text::views(chain@) == seq![self.text()] + self.causes(),
    {
        let mut chain = vec![self.message()];
        assert(text::views(chain@) =~= seq![self.text()]);
        match self {
            Error::Transport(causes) => text::append_all(&mut chain, causes),
            Error::Http { .. } => {},
            Error::Io { reason, .. } => {
                chain.push(reason.clone());
                assert(text::views(chain@) =~= seq![self.text()] + seq![reason@]);
            },
        }
        assert(text::views(chain@) =~= seq![self.text()] + self.causes());
        chain
    }
}

// ---------------------------------------------------------------------------
// Attempts
// ---------------------------------------------------------------------------

/// Whether an error is worth retrying: network hiccups and server-side errors
/// are, client errors are not.
pub open spec fn transient(error: Error) -> bool {
    match error {
        Error::Transport(_) => true,
        Error::Http { status } => status::blames_server(status),
        Error::Io { path, reason } => false,
    }
}

/// Whether `error` is worth retrying.
pub fn is_transient(error: &Error) -> (retry: bool)
    ensures
        retry == transient(*error),
{
    match error {
        Error::Transport(_) => true,
        Error::Http { status } => status::is_server_error(*status),
        Error::Io { .. } => false,
    }
}

/// What follows an attempt.
#[derive(Clone, Debug)]
pub enum Verdict {
    /// The download is complete.
    Complete,
    /// Try once more; this is the number of the next attempt.
    Retry(u32),
    /// The download failed.
    Failed(Error),
}

/// What follows the attempt number `attempt`, counted from one.
pub open spec fn verdict(attempt: u32, outcome: Result<(), Error>) -> Verdict {
    match outcome {
        Ok(()) => Verdict::Complete,
        Err(error) => if attempt < MAX_ATTEMPTS && transient(error) {
            Verdict::Retry((attempt + 1) as u32)
        } else {
            Verdict::Failed(error)
        },
    }
}

/// Decides what follows the attempt number `attempt`, counted from one: a
/// transient failure is retried until there have been [`MAX_ATTEMPTS`].
#[must_use]
pub fn fetch(attempt: u32, outcome: Result<(), Error>) -> (follows: Verdict)
    ensures
        follows == verdict(attempt, outcome),
{
    match outcome {
        Ok(()) => Verdict::Complete,
        Err(error) => if attempt < MAX_ATTEMPTS && is_transient(&error) {
            Verdict::Retry(attempt + 1)
        } else {
            Verdict::Failed(error)
        },
    }
}

/// How many of the attempts with these outcomes are made, when the first of
/// them has the number `attempt`.
pub open spec fn attempts_made(attempt: u32, outcomes: Seq<Result<(), Error>>) -> nat
    decreases outcomes.len(),
{
    if outcomes.len() == 0 {
        0
    } else {
        match verdict(attempt, outcomes[0]) {
            Verdict::Retry(next) => 1 + attempts_made(next, outcomes.drop_first()),
            _ => 1,
        }
    }
}

/// A download is attempted at most [`MAX_ATTEMPTS`] times, however the
/// attempts turn out.
pub proof fn attempts_are_limited(attempt: u32, outcomes: Seq<Result<(), Error>>)
    requires
        1 <= attempt <= MAX_ATTEMPTS,
    ensures
        attempt - 1 + attempts_made(attempt, outcomes) <= MAX_ATTEMPTS,
    decreases outcomes.len(),
{
    if outcomes.len() > 0 {
        if let Verdict::Retry(next) = verdict(attempt, outcomes[0]) {
            attempts_are_limited(next, outcomes.drop_first());
        }
    }
}

/// A client error ends the download at once, with that very error.
pub proof fn client_errors_end_the_download(attempt: u32, status: u16)
    requires
        400 <= status < 500,
    ensures
        verdict(attempt, Err(Error::Http { status })) == Verdict::Failed(Error::Http { status }),
{
}

// ---------------------------------------------------------------------------
// Resuming
// ---------------------------------------------------------------------------

/// The sidecar persisted next to a partial download.
#[derive(Clone, Debug)]
pub struct Meta {
    /// The canonical URL (without query/fragment) the partial data came
    /// from. Signed URLs are re-issued with fresh query parameters, so the
    /// query must not participate in resume matching; the `If-Range`
    /// validator protects against actual content changes.
    pub url: String,
    /// The server's `ETag` or `Last-Modified` value, used with `If-Range`.
    pub validator: Option<String>,
}

/// A sidecar, as text.
pub struct MetaView {
    /// The canonical URL the partial data came from.
    pub url: Seq<char>,
    /// The server's validator.
    pub validator: Option<String>,
}

impl View for Meta {
    type V = MetaView;

    open spec fn view(&self) -> MetaView {
        MetaView { url: self.url@, validator: self.validator }
    }
}

/// A URL up to its query and fragment.
pub open spec fn canonical_part(url: Seq<char>) -> Seq<char>
    decreases url.len(),
{
    if url.len() == 0 || url[0] == '?' || url[0] == '#' {
        Seq::empty()
    } else {
        seq![url[0]] + canonical_part(url.drop_first())
    }
}

/// The canonical part reaches up to the first `?` or `#`.
proof fn canonical_part_reaches(url: Seq<char>, end: int)
    requires
        0 <= end <= url.len(),
        forall|i: int| 0 <= i < end ==> #[trigger] url[i] != '?' && url[i] != '#',
        end < url.len() ==> url[end] == '?' || url[end] == '#',
    ensures
        canonical_part(url) == url.take(end),
    decreases url.len(),
{
    if end == 0 {
        assert(url.take(0) =~= Seq::empty());
    } else {
        let rest = url.drop_first();
        assert(forall|i: int| 0 <= i < rest.len() ==> rest[i] == #[trigger] url[i + 1]);
        canonical_part_reaches(rest, end - 1);
        assert(seq![url[0]] + rest.take(end - 1) =~= url.take(end));
    }
}

/// A URL that is signed anew, with another query, still counts as the same
/// download.
pub proof fn resigned_urls_are_the_same_download(
    base: Seq<char>,
    one: Seq<char>,
    other: Seq<char>,
)
    ensures
        canonical_part(base + "?"@ + one) == canonical_part(base + "?"@ + other),
    decreases base.len(),
{
    reveal_strlit("?");
    let first = base + "?"@ + one;
    let second = base + "?"@ + other;
    if base.len() == 0 {
        assert(first[0] == '?');
        assert(second[0] == '?');
    } else {
        assert(first[0] == base[0]);
        assert(second[0] == base[0]);
        resigned_urls_are_the_same_download(base.drop_first(), one, other);
        assert(first.drop_first() =~= base.drop_first() + "?"@ + one);
        assert(second.drop_first() =~= base.drop_first() + "?"@ + other);
    }
}

/// Strips the query and fragment off a URL for resume matching.
pub fn canonical(url: &str) -> (stripped: String)
    ensures
        stripped@ == canonical_part(url@),
{
    let chars = text::chars_of(url);
    let mut kept: Vec<char> = Vec::new();
    let mut i: usize = 0;
    while i < chars.len() && chars[i] != '?' && chars[i] != '#'
        invariant
            chars@ == url@,
            0 <= i <= chars@.len(),
            kept@ == url@.take(i as int),
            forall|j: int| 0 <= j < i ==> #[trigger] url@[j] != '?' && url@[j] != '#',
        decreases chars@.len() - i,
    {
        kept.push(chars[i]);
        assert(kept@ =~= url@.take(i + 1));
        i = i + 1;
    }
    proof {
        canonical_part_reaches(url@, i as int);
    }
    text::string_of(kept.as_slice())
}

/// How far a partial download got, and how to recognize its content, when it
/// can be resumed: it is not empty, its sidecar can be read, comes from this
/// URL and holds a validator.
pub open spec fn resumable(size: Option<u64>, meta: Option<Meta>, url: Seq<char>) -> Option<
    (u64, String),
> {
    match (size, meta) {
        (Some(size), Some(Meta { url: source, validator: Some(validator) })) => if size > 0
            && source@ == canonical_part(url) {
            Some((size, validator))
        } else {
            None
        },
        _ => None,
    }
}

/// Returns the resumable offset and validator when the partial file matches
/// this URL and a validator is available; `None` means start from scratch.
///
/// `size` is the size of the partial file, if it exists, and `meta` its
/// sidecar, if it could be read.
pub fn resumable_bytes(size: Option<u64>, meta: Option<Meta>, url: &str) -> (resume: Option<
    (u64, String),
>)
    ensures
        resume == resumable(size, meta, url@),
{
    let size = match size {
        Some(size) => size,
        None => return None,
    };
    if size == 0 {
        return None;
    }
    let meta = match meta {
        Some(meta) => meta,
        None => return None,
    };
    let wanted = canonical(url);
    if !text::same(meta.url.as_str(), wanted.as_str()) {
        return None;
    }
    match meta.validator {
        Some(validator) => Some((size, validator)),
        None => None,
    }
}

/// The value of a `Range` header that asks for everything from `offset` on.
pub open spec fn range_from(offset: u64) -> Seq<char> {
    "bytes="@ + text::decimal(offset as nat) + "-"@
}

/// The `Range` and `If-Range` headers of the request, when it resumes.
pub fn resume_headers(resume: &Option<(u64, String)>) -> (headers: Option<(String, String)>)
    ensures
        match resume {
            Some((offset, validator)) => headers matches Some((range, condition)) && range@
                == range_from(*offset) && condition == *validator,
            None => headers is None,
        },
{
    match resume {
        Some((offset, validator)) => {
            let mut range = "bytes=".to_owned();
            let start = text::number_text(*offset);
            range.append(start.as_str());
            range.append("-");
            Some((range, validator.clone()))
        },
        None => None,
    }
}

/// A header of a response.
#[derive(Clone, Debug)]
pub enum Header {
    /// The response does not have it.
    Absent,
    /// Its value is not text.
    Unreadable,
    /// Its value.
    Text(String),
}

/// The validator among the headers: the `ETag`, or the `Last-Modified` value
/// where there is no `ETag`.
pub open spec fn validator_of(etag: Header, last_modified: Header) -> Option<String> {
    match etag {
        Header::Text(text) => Some(text),
        Header::Unreadable => None,
        Header::Absent => match last_modified {
            Header::Text(text) => Some(text),
            _ => None,
        },
    }
}

/// How a successful response is to be stored.
#[derive(Clone, Debug)]
pub struct Transfer {
    /// Where in the partial file the body goes: at its end, when it is
    /// resumed, or at the start of an emptied file.
    pub offset: u64,
    /// The sidecar to be written before the body, so that a torn download can
    /// be resumed next time; nothing when the old one stays.
    pub meta: Option<Meta>,
}

/// How a successful response is to be stored, as text.
pub struct TransferView {
    /// Where in the partial file the body goes.
    pub offset: u64,
    /// The sidecar to be written before the body.
    pub meta: Option<MetaView>,
}

impl View for Transfer {
    type V = TransferView;

    open spec fn view(&self) -> TransferView {
        TransferView {
            offset: self.offset,
            meta: match self.meta {
                Some(meta) => Some(meta@),
                None => None,
            },
        }
    }
}

impl TransferView {
    /// Whether the body is appended to the partial file, which is emptied
    /// otherwise.
    pub open spec fn appends(self) -> bool {
        self.offset > 0
    }
}

impl Transfer {
    /// Whether the body is appended to the partial file, which is emptied
    /// otherwise.
    #[must_use]
    pub fn is_append(&self) -> (append: bool)
        ensures
            append == self@.appends(),
    {
        self.offset > 0
    }

    /// The length of the whole file, when that of the body is known.
    #[must_use]
    pub fn total(&self, remaining: Option<u64>) -> (total: Option<u64>)
        ensures
            total == match remaining {
                Some(remaining) => if self.offset + remaining <= u64::MAX {
                    Some((self.offset + remaining) as u64)
                } else {
                    None
                },
                None => None,
            },
    {
        match remaining {
            Some(remaining) => self.offset.checked_add(remaining),
            None => None,
        }
    }
}

/// The offset at which the body of a response is stored.
pub open spec fn offset_of(resume: Option<(u64, String)>, status: u16) -> u64 {
    match resume {
        Some((offset, _)) if status == status::PARTIAL_CONTENT => offset,
        _ => 0,
    }
}

/// How a response with a status and headers is stored, or why it is not.
pub open spec fn planned(
    resume: Option<(u64, String)>,
    url: Seq<char>,
    status: u16,
    etag: Header,
    last_modified: Header,
) -> Result<TransferView, ErrorView> {
    if !status::succeeds(status) {
        Err(ErrorView::Http { status })
    } else {
        Ok(
            TransferView {
                offset: offset_of(resume, status),
                meta: if status == status::PARTIAL_CONTENT {
                    None
                } else {
                    Some(
                        MetaView {
                            url: canonical_part(url),
                            validator: validator_of(etag, last_modified),
                        },
                    )
                },
            },
        )
    }
}

/// Decides how the response with `status` and the given headers is stored,
/// when the request for `url` resumed as `resume` says.
///
/// # Errors
///
/// Returns [`Error::Http`] when the host did not answer with success.
pub fn transfer(
    resume: &Option<(u64, String)>,
    url: &str,
    status: u16,
    etag: Header,
    last_modified: Header,
) -> (plan: Result<Transfer, Error>)
    ensures
        match planned(*resume, url@, status, etag, last_modified) {
            Ok(stored) => plan matches Ok(transfer) && transfer@ == stored,
            Err(problem) => plan matches Err(error) && error@ == problem,
        },
{
    if !status::is_success(status) {
        return Err(Error::Http { status });
    }
    let resumed = status == status::PARTIAL_CONTENT;
    let offset: u64 = match resume {
        Some((offset, _)) => if resumed {
            *offset
        } else {
            0
        },
        None => 0,
    };
    let meta = if resumed {
        None
    } else {
        let validator = match etag {
            Header::Text(text) => Some(text),
            Header::Unreadable => None,
            Header::Absent => match last_modified {
                Header::Text(text) => Some(text),
                _ => None,
            },
        };
        Some(Meta { url: canonical(url), validator })
    };
    Ok(Transfer { offset, meta })
}

/// What the body of a response is appended to: the partial file where the host
/// resumed it, nothing otherwise.
pub open spec fn base_of(transfer: TransferView, part: Option<Seq<u8>>) -> Seq<u8> {
    match part {
        Some(part) if transfer.appends() => part,
        _ => Seq::empty(),
    }
}

/// A host that answers a resumed request with the rest of the content whose
/// beginning is in the partial file completes that very content.
pub proof fn resuming_completes_the_content(
    transfer: TransferView,
    size: Option<u64>,
    meta: Option<Meta>,
    url: Seq<char>,
    part: Seq<u8>,
    content: Seq<u8>,
)
    requires
        size == Some(part.len() as u64),
        part.len() <= u64::MAX,
        part.is_prefix_of(content),
        resumable(size, meta, url) is Some,
        transfer.offset == offset_of(resumable(size, meta, url), status::PARTIAL_CONTENT),
    ensures
        base_of(transfer, Some(part)) + content.skip(transfer.offset as int) == content,
{
    assert(part + content.skip(part.len() as int) =~= content);
}

/// A host that answers with the whole content restarts the download cleanly:
/// nothing of the partial file survives.
pub proof fn restarting_discards_the_partial_file(
    transfer: TransferView,
    resume: Option<(u64, String)>,
    status: u16,
    part: Seq<u8>,
    content: Seq<u8>,
)
    requires
        status != status::PARTIAL_CONTENT,
        transfer.offset == offset_of(resume, status),
    ensures
        base_of(transfer, Some(part)) + content == content,
{
    assert(Seq::<u8>::empty() + content =~= content);
}

/// Partial data from another URL is never resumed: the request asks for the
/// whole content and the download starts from scratch.
pub proof fn foreign_partial_data_is_ignored(
    size: Option<u64>,
    meta: Meta,
    url: Seq<char>,
    status: u16,
)
    requires
        meta.url@ != canonical_part(url),
    ensures
        resumable(size, Some(meta), url) is None,
        offset_of(resumable(size, Some(meta), url), status) == 0,
{
}

// ---------------------------------------------------------------------------
// Files
// ---------------------------------------------------------------------------

/// Whether a path ends in the name of a file.
pub open spec fn names_a_file(path: Seq<char>) -> bool {
    exists|start: int|
        0 <= start < path.len() && paths::is_component(#[trigger] path.skip(start)) && (start == 0
            || path[start - 1] == '/')
}

/// A path with a suffix appended to its file name: the file beside it that is
/// called so.
pub open spec fn suffixed(path: Seq<char>, suffix: Seq<char>) -> Seq<char> {
    paths::under(paths::directory_part(path), paths::name_part(path) + "."@ + suffix)
}

/// Appends `suffix` to a path's file name (`pkg.zip` → `pkg.zip.part`).
pub fn append_extension(path: &str, suffix: &str) -> (extended: String)
    requires
        names_a_file(path@),
    ensures
        extended@ == suffixed(path@, suffix@),
{
    let mut name = paths::name(path);
    name.append(".");
    name.append(suffix);
    let directory = paths::directory(path);
    paths::join(directory.as_str(), name.as_str())
}

/// The partial-download path for a destination file.
pub fn part_path(dest: &str) -> (path: String)
    requires
        names_a_file(dest@),
    ensures
        path@ == suffixed(dest@, "part"@),
{
    append_extension(dest, "part")
}

/// The resume-sidecar path for a destination file.
pub fn meta_path(dest: &str) -> (path: String)
    requires
        names_a_file(dest@),
    ensures
        path@ == suffixed(dest@, "part.meta"@),
{
    append_extension(dest, "part.meta")
}

/// The partial file and its sidecar lie next to the destination, and are called
/// after it.
pub proof fn partial_files_lie_next_to_their_destination(dest: Seq<char>)
    requires
        names_a_file(dest),
    ensures
        paths::directory_part(suffixed(dest, "part"@)) == paths::directory_part(dest),
        paths::name_part(suffixed(dest, "part"@)) == paths::name_part(dest) + ".part"@,
        paths::directory_part(suffixed(dest, "part.meta"@)) == paths::directory_part(dest),
        paths::name_part(suffixed(dest, "part.meta"@)) == paths::name_part(dest) + ".part.meta"@,
{
    reveal_strlit(".");
    reveal_strlit("..");
    reveal_strlit("part");
    reveal_strlit("part.meta");
    reveal_strlit(".part");
    reveal_strlit(".part.meta");
    let name = paths::name_part(dest);
    let base = paths::directory_part(dest);
    paths::names_hold_no_separator(dest);
    let part = name + "."@ + "part"@;
    let sidecar = name + "."@ + "part.meta"@;
    assert(part =~= name + ".part"@);
    assert(sidecar =~= name + ".part.meta"@);
    assert(paths::is_component(part));
    assert(paths::is_component(sidecar));
    paths::components_are_in_their_directory(base, part);
    paths::components_are_in_their_directory(base, sidecar);
    paths::trimming_shortens(paths::front_part(paths::trimmed(dest)));
}

// ---------------------------------------------------------------------------
// One attempt
// ---------------------------------------------------------------------------

/// How far an attempt has got: what it does next.
#[derive(Debug)]
pub enum Stage {
    /// Send the request.
    Request,
    /// Create the directory of the sidecar.
    MakeMetaDirectory(Transfer),
    /// Write the sidecar.
    WriteMeta(Transfer),
    /// Create the directory of the partial file.
    MakePartDirectory(Transfer),
    /// Open the partial file, emptying it unless the transfer appends.
    OpenPart(Transfer),
    /// Receive the next piece of the body.
    Receive,
    /// Write this piece to the partial file.
    Write(Vec<u8>),
    /// Flush the partial file.
    Flush,
    /// Rename the partial file to its destination.
    Rename,
    /// Remove the sidecar.
    RemoveMeta,
}

/// The stage of an attempt, as text.
pub enum StageView {
    /// Send the request.
    Request,
    /// Create the directory of the sidecar.
    MakeMetaDirectory(TransferView),
    /// Write the sidecar.
    WriteMeta(TransferView),
    /// Create the directory of the partial file.
    MakePartDirectory(TransferView),
    /// Open the partial file, emptying it unless the transfer appends.
    OpenPart(TransferView),
    /// Receive the next piece of the body.
    Receive,
    /// Write this piece to the partial file.
    Write(Seq<u8>),
    /// Flush the partial file.
    Flush,
    /// Rename the partial file to its destination.
    Rename,
    /// Remove the sidecar.
    RemoveMeta,
}

impl View for Stage {
    type V = StageView;

    open spec fn view(&self) -> StageView {
        match self {
            Stage::Request => StageView::Request,
            Stage::MakeMetaDirectory(transfer) => StageView::MakeMetaDirectory(transfer@),
            Stage::WriteMeta(transfer) => StageView::WriteMeta(transfer@),
            Stage::MakePartDirectory(transfer) => StageView::MakePartDirectory(transfer@),
            Stage::OpenPart(transfer) => StageView::OpenPart(transfer@),
            Stage::Receive => StageView::Receive,
            Stage::Write(piece) => StageView::Write(piece@),
            Stage::Flush => StageView::Flush,
            Stage::Rename => StageView::Rename,
            Stage::RemoveMeta => StageView::RemoveMeta,
        }
    }
}

/// What came of a stage.
#[derive(Debug)]
pub enum Event {
    /// It was done.
    Done,
    /// It failed, with the reason.
    Failed(String),
    /// The connection failed; the causes come outermost first.
    Broken(Vec<String>),
    /// The host answered.
    Response {
        /// The HTTP status code.
        status: u16,
        /// The `ETag` header.
        etag: Header,
        /// The `Last-Modified` header.
        last_modified: Header,
    },
    /// A piece of the body arrived.
    Piece(Vec<u8>),
    /// The body is complete.
    End,
}

/// Whether an event can come of a stage.
pub open spec fn fits(stage: StageView, event: Event) -> bool {
    match stage {
        StageView::Request => event is Response || event is Broken,
        StageView::Receive => event is Piece || event is End || event is Broken,
        _ => event is Done || event is Failed,
    }
}

/// A download attempt under way.
#[derive(Debug)]
pub struct Attempt {
    /// The URL of the file.
    url: String,
    /// Where the file goes.
    dest: String,
    /// The partial file.
    part: String,
    /// The sidecar of the partial file.
    sidecar: String,
    /// The directory of them all.
    directory: String,
    /// How the request resumes.
    resume: Option<(u64, String)>,
    /// What is done next.
    stage: Stage,
}

/// A download attempt under way, as text.
pub struct AttemptView {
    /// The URL of the file.
    pub url: Seq<char>,
    /// Where the file goes.
    pub dest: Seq<char>,
    /// The partial file.
    pub part: Seq<char>,
    /// The sidecar of the partial file.
    pub sidecar: Seq<char>,
    /// The directory of them all.
    pub directory: Seq<char>,
    /// How the request resumes.
    pub resume: Option<(u64, String)>,
    /// What is done next.
    pub stage: StageView,
}

impl View for Attempt {
    type V = AttemptView;

    closed spec fn view(&self) -> AttemptView {
        AttemptView {
            url: self.url@,
            dest: self.dest@,
            part: self.part@,
            sidecar: self.sidecar@,
            directory: self.directory@,
            resume: self.resume,
            stage: self.stage@,
        }
    }
}

/// How an attempt goes on.
#[derive(Debug)]
pub enum Step {
    /// With another stage.
    Go(Attempt),
    /// It is over.
    Finish(Result<(), Error>),
}

/// How an attempt goes on, as text.
pub enum StepView {
    /// With another stage.
    Go(AttemptView),
    /// It is over.
    Finish(Result<(), ErrorView>),
}

impl View for Step {
    type V = StepView;

    closed spec fn view(&self) -> StepView {
        match self {
            Step::Go(attempt) => StepView::Go(attempt@),
            Step::Finish(Ok(())) => StepView::Finish(Ok(())),
            Step::Finish(Err(error)) => StepView::Finish(Err(error@)),
        }
    }
}

/// The beginning of an attempt, when the partial file and its sidecar are as
/// given.
pub open spec fn begun(url: Seq<char>, dest: Seq<char>, size: Option<u64>, meta: Option<Meta>) -> AttemptView {
    let part = suffixed(dest, "part"@);
    AttemptView {
        url,
        dest,
        part,
        sidecar: suffixed(dest, "part.meta"@),
        directory: paths::directory_part(part),
        resume: resumable(size, meta, url),
        stage: StageView::Request,
    }
}

/// Begins a single download attempt: resume when the partial data is usable,
/// restart otherwise.
///
/// `size` is the size of the partial file, if it exists, and `meta` its
/// sidecar, if it could be read.
pub fn fetch_once(url: &str, dest: &str, size: Option<u64>, meta: Option<Meta>) -> (attempt: Attempt)
    requires
        names_a_file(dest@),
    ensures
        attempt@ == begun(url@, dest@, size, meta),
{
    let part = part_path(dest);
    Attempt {
        url: url.to_owned(),
        dest: dest.to_owned(),
        sidecar: meta_path(dest),
        directory: paths::directory(part.as_str()),
        part,
        resume: resumable_bytes(size, meta, url),
        stage: Stage::Request,
    }
}

impl AttemptView {
    /// This attempt at another stage.
    pub open spec fn at(self, stage: StageView) -> StepView {
        StepView::Go(AttemptView { stage, ..self })
    }

    /// This attempt at another stage after a stage was done, or its failure at
    /// a path.
    pub open spec fn after(self, event: Event, stage: StageView, path: Seq<char>) -> StepView {
        match event {
            Event::Failed(reason) => StepView::Finish(Err(ErrorView::Io { path, reason: reason@ })),
            _ => self.at(stage),
        }
    }

    /// How this attempt goes on after its stage.
    pub open spec fn successor(self, event: Event) -> StepView {
        match self.stage {
            StageView::Request => match event {
                Event::Broken(causes) => StepView::Finish(
                    Err(ErrorView::Transport(text::views(causes@))),
                ),
                Event::Response { status, etag, last_modified } => match planned(
                    self.resume,
                    self.url,
                    status,
                    etag,
                    last_modified,
                ) {
                    Err(problem) => StepView::Finish(Err(problem)),
                    Ok(transfer) => match transfer.meta {
                        Some(_) => self.at(StageView::MakeMetaDirectory(transfer)),
                        None => self.at(StageView::MakePartDirectory(transfer)),
                    },
                },
                _ => StepView::Go(self),
            },
            StageView::MakeMetaDirectory(transfer) => self.after(
                event,
                StageView::WriteMeta(transfer),
                self.directory,
            ),
            StageView::WriteMeta(transfer) => self.after(
                event,
                StageView::MakePartDirectory(transfer),
                self.sidecar,
            ),
            StageView::MakePartDirectory(transfer) => self.after(
                event,
                StageView::OpenPart(transfer),
                self.directory,
            ),
            StageView::OpenPart(_) => self.after(event, StageView::Receive, self.part),
            StageView::Receive => match event {
                Event::Broken(causes) => StepView::Finish(
                    Err(ErrorView::Transport(text::views(causes@))),
                ),
                Event::Piece(piece) => self.at(StageView::Write(piece@)),
                _ => self.at(StageView::Flush),
            },
            StageView::Write(_) => self.after(event, StageView::Receive, self.part),
            StageView::Flush => self.after(event, StageView::Rename, self.part),
            StageView::Rename => self.after(event, StageView::RemoveMeta, self.dest),
            StageView::RemoveMeta => StepView::Finish(Ok(())),
        }
    }
}

impl Attempt {
    /// What this attempt does next.
    #[must_use]
    pub fn stage(&self) -> (stage: &Stage)
        ensures
            stage@ == self@.stage,
    {
        &self.stage
    }

    /// The URL of the file.
    #[must_use]
    pub fn url(&self) -> (url: &str)
        ensures
            url@ == self@.url,
    {
        self.url.as_str()
    }

    /// Where the file goes.
    #[must_use]
    pub fn dest(&self) -> (path: &str)
        ensures
            path@ == self@.dest,
    {
        self.dest.as_str()
    }

    /// The partial file.
    #[must_use]
    pub fn part(&self) -> (path: &str)
        ensures
            path@ == self@.part,
    {
        self.part.as_str()
    }

    /// The sidecar of the partial file.
    #[must_use]
    pub fn sidecar(&self) -> (path: &str)
        ensures
            path@ == self@.sidecar,
    {
        self.sidecar.as_str()
    }

    /// The directory of the files.
    #[must_use]
    pub fn directory(&self) -> (path: &str)
        ensures
            path@ == self@.directory,
    {
        self.directory.as_str()
    }

    /// The `Range` and `If-Range` headers of the request, when it resumes.
    #[must_use]
    pub fn headers(&self) -> (headers: Option<(String, String)>)
        ensures
            match self@.resume {
                Some((offset, validator)) => headers matches Some((range, condition)) && range@
                    == range_from(offset) && condition == validator,
                None => headers is None,
            },
    {
        resume_headers(&self.resume)
    }

    /// This attempt at another stage.
    fn at(self, stage: Stage) -> (step: Step)
        ensures
            step@ == self@.at(stage@),
    {
        Step::Go(Attempt { stage, ..self })
    }

    /// This attempt at another stage after a stage was done, or its failure at
    /// a path.
    fn after(self, event: Event, stage: Stage, path: String) -> (step: Step)
        ensures
            step@ == self@.after(event, stage@, path@),
    {
        match event {
            Event::Failed(reason) => Step::Finish(Err(Error::Io { path, reason })),
            _ => self.at(stage),
        }
    }

    /// How this attempt goes on after its request came to `event`.
    fn answered(self, event: Event) -> (step: Step)
        requires
            self@.stage is Request,
        ensures
            step@ == self@.successor(event),
    {
        match event {
            Event::Broken(causes) => Step::Finish(Err(Error::Transport(causes))),
            Event::Response { status, etag, last_modified } => match transfer(
                &self.resume,
                self.url.as_str(),
                status,
                etag,
                last_modified,
            ) {
                Err(error) => Step::Finish(Err(error)),
                Ok(transfer) => if transfer.meta.is_some() {
                    self.at(Stage::MakeMetaDirectory(transfer))
                } else {
                    self.at(Stage::MakePartDirectory(transfer))
                },
            },
            _ => Step::Go(self),
        }
    }

    /// How this attempt goes on after its stage came to `event`.
    pub fn next(self, event: Event) -> (step: Step)
        requires
            fits(self@.stage, event),
        ensures
            step@ == self@.successor(event),
    {
        let Attempt { url, dest, part, sidecar, directory, resume, stage } = self;
        let (directory_at, sidecar_at, part_at, dest_at) = (
            directory.clone(),
            sidecar.clone(),
            part.clone(),
            dest.clone(),
        );
        let rest = Attempt { url, dest, part, sidecar, directory, resume, stage: Stage::Request };
        match stage {
            Stage::Request => rest.answered(event),
            Stage::MakeMetaDirectory(transfer) => rest.after(
                event,
                Stage::WriteMeta(transfer),
                directory_at,
            ),
            Stage::WriteMeta(transfer) => rest.after(
                event,
                Stage::MakePartDirectory(transfer),
                sidecar_at,
            ),
            Stage::MakePartDirectory(transfer) => rest.after(
                event,
                Stage::OpenPart(transfer),
                directory_at,
            ),
            Stage::OpenPart(_) => rest.after(event, Stage::Receive, part_at),
            Stage::Receive => match event {
                Event::Broken(causes) => Step::Finish(Err(Error::Transport(causes))),
                Event::Piece(piece) => rest.at(Stage::Write(piece)),
                _ => rest.at(Stage::Flush),
            },
            Stage::Write(_) => rest.after(event, Stage::Receive, part_at),
            Stage::Flush => rest.after(event, Stage::Rename, part_at),
            Stage::Rename => rest.after(event, Stage::RemoveMeta, dest_at),
            // Best-effort cleanup.
            Stage::RemoveMeta => Step::Finish(Ok(())),
        }
    }
}

// ---------------------------------------------------------------------------
// What every attempt keeps
// ---------------------------------------------------------------------------

/// The files of a download.
pub struct Files {
    /// The partial file.
    pub part: Option<Seq<u8>>,
    /// Its sidecar.
    pub meta: Option<MetaView>,
    /// The destination.
    pub dest: Option<Seq<u8>>,
}

/// Whether a stage that came to an event can have turned the files into
/// others. A failed write may leave any beginning of its piece behind.
pub open spec fn effect(stage: StageView, event: Event, before: Files, after: Files) -> bool {
    fits(stage, event) && match stage {
        StageView::WriteMeta(transfer) => match event {
            Event::Done => after == (Files { meta: transfer.meta, ..before }),
            _ => after == (Files { meta: after.meta, ..before }),
        },
        StageView::OpenPart(transfer) => match event {
            Event::Done => if transfer.appends() {
                before.part is Some && after == before
            } else {
                after == (Files { part: Some(Seq::empty()), ..before })
            },
            _ => after == before,
        },
        StageView::Write(piece) => match event {
            Event::Done => before.part is Some && after == (Files {
                part: Some(before.part->0 + piece),
                ..before
            }),
            _ => after == (Files { part: after.part, ..before }),
        },
        StageView::Rename => match event {
            Event::Done => before.part is Some && after == (Files {
                part: None,
                dest: before.part,
                ..before
            }),
            _ => after == before,
        },
        StageView::RemoveMeta => match event {
            Event::Done => after == (Files { meta: None, ..before }),
            _ => after == before,
        },
        _ => after == before,
    }
}

/// What came of one stage, and the files afterwards.
pub struct Happening {
    /// What came of the stage.
    pub event: Event,
    /// The files afterwards.
    pub files: Files,
}

/// Where a run of an attempt got.
pub enum Run {
    /// It is under way.
    Running(AttemptView, Files),
    /// It is over.
    Finished(Result<(), ErrorView>, Files),
}

/// Where a run of an attempt gets, when its stages come to what `trace`
/// tells; nothing when they cannot.
pub open spec fn run(attempt: AttemptView, files: Files, trace: Seq<Happening>) -> Option<Run>
    decreases trace.len(),
{
    if trace.len() == 0 {
        Some(Run::Running(attempt, files))
    } else if !effect(attempt.stage, trace[0].event, files, trace[0].files) {
        None
    } else {
        match attempt.successor(trace[0].event) {
            StepView::Go(next) => run(next, trace[0].files, trace.drop_first()),
            StepView::Finish(result) => if trace.len() == 1 {
                Some(Run::Finished(result, trace[0].files))
            } else {
                None
            },
        }
    }
}

/// The body that was received.
pub open spec fn received(trace: Seq<Happening>) -> Seq<u8>
    decreases trace.len(),
{
    if trace.len() == 0 {
        Seq::empty()
    } else {
        match trace[0].event {
            Event::Piece(piece) => piece@ + received(trace.drop_first()),
            _ => received(trace.drop_first()),
        }
    }
}

/// Whether the body is being stored or was stored completely.
pub open spec fn is_streaming(stage: StageView) -> bool {
    stage is Receive || stage is Write || stage is Flush || stage is Rename
}

/// What the partial file holds once the body so far is stored: a piece that
/// waits to be written does not count yet.
pub open spec fn held_at(stage: StageView, part: Seq<u8>) -> Seq<u8> {
    match stage {
        StageView::Write(piece) => part + piece,
        _ => part,
    }
}

/// A run that streams a body appends everything it receives, and renames
/// exactly that to the destination.
proof fn streaming_appends(attempt: AttemptView, files: Files, trace: Seq<Happening>)
    requires
        is_streaming(attempt.stage),
        files.part is Some,
    ensures
        match run(attempt, files, trace) {
            Some(Run::Running(at, now)) => if is_streaming(at.stage) {
                now.part is Some && held_at(at.stage, now.part->0) == held_at(
                    attempt.stage,
                    files.part->0,
                ) + received(trace) && now.meta == files.meta && now.dest == files.dest
            } else {
                at.stage is RemoveMeta && now.dest == Some(
                    held_at(attempt.stage, files.part->0) + received(trace),
                ) && now.part is None
            },
            Some(Run::Finished(Ok(()), now)) => now.dest == Some(
                held_at(attempt.stage, files.part->0) + received(trace),
            ) && now.part is None,
            Some(Run::Finished(Err(_), now)) => now.dest == files.dest && now.meta == files.meta,
            None => true,
        },
    decreases trace.len(),
{
    let held = held_at(attempt.stage, files.part->0);
    if trace.len() == 0 {
        assert(held + received(trace) =~= held);
    } else if effect(attempt.stage, trace[0].event, files, trace[0].files) {
        let rest = trace.drop_first();
        if let StepView::Go(next) = attempt.successor(trace[0].event) {
            if is_streaming(next.stage) {
                streaming_appends(next, trace[0].files, rest);
                let now = held_at(next.stage, trace[0].files.part->0);
                assert(now + received(rest) =~= held + received(trace)) by {
                    if let Event::Piece(piece) = trace[0].event {
                        assert(now =~= held + piece@);
                        assert(held + piece@ + received(rest) =~= held + (piece@ + received(rest)));
                    }
                }
            } else {
                cleaning_up_keeps(next, trace[0].files, rest);
                if run(next, trace[0].files, rest) is Some {
                    assert(held + received(trace) =~= held);
                }
            }
        }
    }
}

/// The last stage leaves the destination alone and receives nothing.
proof fn cleaning_up_keeps(attempt: AttemptView, files: Files, trace: Seq<Happening>)
    requires
        attempt.stage is RemoveMeta,
    ensures
        match run(attempt, files, trace) {
            Some(Run::Running(at, now)) => at == attempt && now == files && received(trace)
                == Seq::<u8>::empty(),
            Some(Run::Finished(result, now)) => result is Ok && now.dest == files.dest && now.part
                == files.part && received(trace) == Seq::<u8>::empty(),
            None => true,
        },
{
    if trace.len() == 1 {
        assert(received(trace.drop_first()) =~= Seq::empty());
    }
}

/// The sidecar after a response has been accepted.
pub open spec fn sidecar_after(transfer: TransferView, meta: Option<MetaView>) -> Option<MetaView> {
    match transfer.meta {
        Some(_) => transfer.meta,
        None => meta,
    }
}

/// The transfer a stage before the body prepares for.
pub open spec fn preparing(stage: StageView) -> Option<TransferView> {
    match stage {
        StageView::MakeMetaDirectory(transfer) => Some(transfer),
        StageView::WriteMeta(transfer) => Some(transfer),
        StageView::MakePartDirectory(transfer) => Some(transfer),
        StageView::OpenPart(transfer) => Some(transfer),
        _ => None,
    }
}

/// What holds of a run since the response was accepted.
pub open spec fn stores(
    transfer: TransferView,
    start: Files,
    run: Option<Run>,
    body: Seq<u8>,
) -> bool {
    match run {
        Some(Run::Running(at, now)) => if is_streaming(at.stage) {
            now.part is Some && held_at(at.stage, now.part->0) == base_of(transfer, start.part)
                + body && now.meta == sidecar_after(transfer, start.meta) && now.dest == start.dest
        } else {
            preparing(at.stage) is None ==> now.dest == Some(base_of(transfer, start.part) + body)
        },
        Some(Run::Finished(Ok(()), now)) => now.dest == Some(base_of(transfer, start.part) + body)
            && now.part is None,
        Some(Run::Finished(Err(_), now)) => now.dest == start.dest,
        None => true,
    }
}

/// A run that prepares for a body opens the right partial file.
proof fn preparing_opens(
    attempt: AttemptView,
    transfer: TransferView,
    start: Files,
    files: Files,
    trace: Seq<Happening>,
)
    requires
        preparing(attempt.stage) == Some(transfer),
        files.part == start.part,
        files.dest == start.dest,
        attempt.stage is MakeMetaDirectory || attempt.stage is WriteMeta ==> transfer.meta is Some,
        attempt.stage is MakePartDirectory || attempt.stage is OpenPart ==> files.meta
            == sidecar_after(transfer, start.meta),
    ensures
        stores(transfer, start, run(attempt, files, trace), received(trace)),
    decreases trace.len(),
{
    if trace.len() > 0 && effect(attempt.stage, trace[0].event, files, trace[0].files) {
        let rest = trace.drop_first();
        if let StepView::Go(next) = attempt.successor(trace[0].event) {
            if attempt.stage is OpenPart {
                streaming_appends(next, trace[0].files, rest);
            } else {
                preparing_opens(next, transfer, start, trace[0].files, rest);
            }
        }
    }
}

/// A download attempt stores exactly what it receives. When it succeeds, the
/// destination holds the body, behind the partial file where the host resumed
/// it; until then, and whenever it fails, the destination is left alone, so it
/// never holds half a file. And a download torn while the body arrives can be
/// resumed: the partial file holds everything received so far and its sidecar
/// tells what it is the beginning of.
pub proof fn attempts_store_what_they_receive(
    attempt: AttemptView,
    files: Files,
    trace: Seq<Happening>,
    transfer: TransferView,
)
    requires
        attempt.stage is Request,
        trace.len() > 0,
        trace[0].event matches Event::Response { status, etag, last_modified } && planned(
            attempt.resume,
            attempt.url,
            status,
            etag,
            last_modified,
        ) == Ok::<TransferView, ErrorView>(transfer),
    ensures
        stores(transfer, files, run(attempt, files, trace), received(trace)),
{
    if effect(attempt.stage, trace[0].event, files, trace[0].files) {
        if let StepView::Go(next) = attempt.successor(trace[0].event) {
            preparing_opens(next, transfer, files, trace[0].files, trace.drop_first());
        }
    }
}

// ---------------------------------------------------------------------------
// What decides about an attempt
// ---------------------------------------------------------------------------

/// Whether an error is a network hiccup or blames the server.
pub open spec fn is_passing(error: Error) -> bool {
    error is Transport || (error matches Error::Http { status } && 500 <= status <= 599)
}

/// A download that succeeded is complete; one that failed for a passing reason
/// is tried again, up to three times in all; and any other failure ends it, with
/// that very error.
pub proof fn passing_failures_are_retried(attempt: u32, outcome: Result<(), Error>)
    ensures
        outcome is Ok <==> verdict(attempt, outcome) is Complete,
        outcome matches Err(error) ==> (if is_passing(error) && attempt < 3 {
            verdict(attempt, outcome) == Verdict::Retry((attempt + 1) as u32)
        } else {
            verdict(attempt, outcome) == Verdict::Failed(error)
        }),
        outcome matches Err(error) ==> (transient(error) <==> is_passing(error)),
{
}

/// The canonical part of a URL is the beginning of it that reaches up to the
/// first question mark or number sign, or all of it when there is none.
pub proof fn canonical_urls_end_at_the_query(url: Seq<char>)
    ensures
        ({
            let part = canonical_part(url);
            &&& part.is_prefix_of(url)
            &&& forall|i: int| 0 <= i < part.len() ==> #[trigger] part[i] != '?' && part[i] != '#'
            &&& part.len() < url.len() ==> url[part.len() as int] == '?' || url[part.len() as int]
                == '#'
        }),
    decreases url.len(),
{
    let part = canonical_part(url);
    if url.len() > 0 && url[0] != '?' && url[0] != '#' {
        let rest = url.drop_first();
        canonical_urls_end_at_the_query(rest);
        let inner = canonical_part(rest);
        assert forall|i: int| 0 <= i < part.len() implies part[i] == url[i] by {
            if i > 0 {
                assert(part[i] == inner[i - 1]);
                assert(inner[i - 1] == rest.take(inner.len() as int)[i - 1]);
            }
        }
        assert(part =~= url.take(part.len() as int));
        assert forall|i: int| 0 <= i < part.len() implies #[trigger] part[i] != '?' && part[i]
            != '#' by {
            if i > 0 {
                assert(part[i] == inner[i - 1]);
            }
        }
        if part.len() < url.len() {
            assert(rest[inner.len() as int] == url[part.len() as int]);
        }
    } else {
        assert(part =~= url.take(0));
    }
}

/// A partial download is resumed just when it is there and not empty, and its
/// sidecar comes from the same URL, the query apart, and holds a validator; then
/// from its very end, with that validator.
pub proof fn usable_partial_data_is_resumed(
    size: Option<u64>,
    meta: Option<Meta>,
    url: Seq<char>,
    offset: u64,
    validator: String,
)
    ensures
        resumable(size, meta, url) == Some((offset, validator)) <==> {
            &&& size == Some(offset)
            &&& offset > 0
            &&& meta is Some
            &&& meta->0.url@ == canonical_part(url)
            &&& meta->0.validator == Some(validator)
        },
        resumable(size, meta, url) is Some <==> size is Some && size->0 > 0 && meta is Some
            && meta->0.url@ == canonical_part(url) && meta->0.validator is Some,
{
}

/// The validator is the `ETag` where there is one, and otherwise the
/// `Last-Modified` value; an `ETag` that cannot be read gives none.
pub proof fn validators_prefer_the_etag(etag: Header, last_modified: Header)
    ensures
        etag matches Header::Text(text) ==> validator_of(etag, last_modified) == Some(text),
        etag is Unreadable ==> validator_of(etag, last_modified) is None,
        etag is Absent ==> (last_modified matches Header::Text(text) ==> validator_of(
            etag,
            last_modified,
        ) == Some(text)),
        etag is Absent && last_modified !is Text ==> validator_of(etag, last_modified) is None,
{
}

/// A response is stored just when it is a success. Partial content is appended
/// where the request resumed, and keeps its sidecar; anything else is stored
/// from the start, with a new sidecar that names the URL and the validator.
pub proof fn responses_are_stored_by_status(
    resume: Option<(u64, String)>,
    url: Seq<char>,
    status: u16,
    etag: Header,
    last_modified: Header,
)
    ensures
        planned(resume, url, status, etag, last_modified) is Ok <==> 200 <= status <= 299,
        !(200 <= status <= 299) ==> planned(resume, url, status, etag, last_modified) == Err::<
            TransferView,
            ErrorView,
        >(ErrorView::Http { status }),
        planned(resume, url, status, etag, last_modified) matches Ok(transfer) ==> {
            &&& status == 206 ==> transfer.meta is None
            &&& status == 206 ==> (resume matches Some((offset, _)) ==> transfer.offset == offset)
            &&& status != 206 || resume is None ==> transfer.offset == 0 && !transfer.appends()
            &&& status != 206 ==> transfer.meta == Some(
                MetaView {
                    url: canonical_part(url),
                    validator: validator_of(etag, last_modified),
                },
            )
        },
{
}

/// The `Range` header of a resumed request holds the offset as a number.
pub proof fn ranges_start_at_the_offset(offset: u64)
    ensures
        ({
            let range = range_from(offset);
            &&& range.len() > 7
            &&& range.take(6) == "bytes="@
            &&& range.last() == '-'
            &&& text::number(range.subrange(6, range.len() - 1)) == Some(offset as nat)
        }),
{
    reveal_strlit("bytes=");
    reveal_strlit("-");
    let range = range_from(offset);
    let digits = text::decimal(offset as nat);
    text::numbers_are_read_back(offset as nat);
    assert(range.take(6) =~= "bytes="@);
    assert(range.subrange(6, range.len() - 1) =~= digits);
}

/// Whether an event ends an attempt as a failure.
pub open spec fn is_fatal(stage: StageView, event: Event) -> bool {
    match event {
        Event::Failed(_) => stage !is RemoveMeta,
        Event::Broken(_) => true,
        Event::Response { status, .. } => !(200 <= status <= 299),
        _ => false,
    }
}

/// An attempt fails just when a stage fails that it cannot do without, with the
/// place and the reason, and succeeds just when it has come to its end. It never
/// changes what it works on.
pub proof fn attempts_fail_for_a_reason(attempt: AttemptView, event: Event)
    requires
        fits(attempt.stage, event),
    ensures
        (attempt.successor(event) matches StepView::Finish(result) && result is Err) <==> is_fatal(
            attempt.stage,
            event,
        ),
        (attempt.successor(event) matches StepView::Finish(result) && result is Ok)
            <==> attempt.stage is RemoveMeta,
        attempt.successor(event) matches StepView::Go(next) ==> next == (AttemptView {
            stage: next.stage,
            ..attempt
        }),
        event matches Event::Broken(causes) ==> attempt.successor(event) == StepView::Finish(
            Err(ErrorView::Transport(text::views(causes@))),
        ),
        event matches Event::Failed(reason) ==> (attempt.stage !is RemoveMeta
            ==> attempt.successor(event) == StepView::Finish(
            Err(
                ErrorView::Io {
                    path: match attempt.stage {
                        StageView::MakeMetaDirectory(_) => attempt.directory,
                        StageView::MakePartDirectory(_) => attempt.directory,
                        StageView::WriteMeta(_) => attempt.sidecar,
                        StageView::Rename => attempt.dest,
                        _ => attempt.part,
                    },
                    reason: reason@,
                },
            ),
        )),
{
}

/// An attempt goes forward stage by stage: the sidecar, where there is a new
/// one, before the partial file, the body piece by piece, and the destination
/// only once the body is complete and flushed.
pub proof fn attempts_go_forward(attempt: AttemptView, event: Event)
    requires
        fits(attempt.stage, event),
        !is_fatal(attempt.stage, event),
        attempt.stage !is RemoveMeta,
    ensures
        attempt.successor(event) matches StepView::Go(next) && match attempt.stage {
            StageView::Request => (next.stage matches StageView::MakeMetaDirectory(transfer)
                && transfer.meta is Some) || (next.stage matches StageView::MakePartDirectory(transfer)
                && transfer.meta is None),
            StageView::MakeMetaDirectory(transfer) => next.stage == StageView::WriteMeta(transfer),
            StageView::WriteMeta(transfer) => next.stage == StageView::MakePartDirectory(transfer),
            StageView::MakePartDirectory(transfer) => next.stage == StageView::OpenPart(transfer),
            StageView::OpenPart(_) => next.stage is Receive,
            StageView::Receive => match event {
                Event::Piece(piece) => next.stage == StageView::Write(piece@),
                _ => next.stage is Flush,
            },
            StageView::Write(_) => next.stage is Receive,
            StageView::Flush => next.stage is Rename,
            _ => next.stage is RemoveMeta,
        },
{
}

/// An attempt begins with the request, resumes what can be resumed, and works
/// next to its destination.
pub proof fn attempts_begin_with_the_request(
    url: Seq<char>,
    dest: Seq<char>,
    size: Option<u64>,
    meta: Option<Meta>,
)
    requires
        names_a_file(dest),
    ensures
        ({
            let attempt = begun(url, dest, size, meta);
            &&& attempt.url == url && attempt.dest == dest
            &&& attempt.stage is Request
            &&& attempt.resume == resumable(size, meta, url)
            &&& attempt.directory == paths::directory_part(dest)
            &&& paths::directory_part(attempt.part) == attempt.directory
            &&& paths::directory_part(attempt.sidecar) == attempt.directory
            &&& paths::name_part(attempt.part) == paths::name_part(dest) + ".part"@
            &&& paths::name_part(attempt.sidecar) == paths::name_part(dest) + ".part.meta"@
        }),
{
    partial_files_lie_next_to_their_destination(dest);
}

/// Errors name what they are about, and are followed by what caused them.
pub proof fn errors_name_their_subject(error: Error)
    ensures
        error matches Error::Transport(causes) ==> error.causes() == text::views(causes@),
        error matches Error::Http { status } ==> text::contains_text(
            error.text(),
            status::shown(status),
        ) && error.causes().len() == 0,
        error matches Error::Io { path, reason } ==> text::contains_text(error.text(), path@)
            && error.causes() == seq![reason@],
{
    match error {
        Error::Transport(_) => {},
        Error::Http { status } => {
            text::texts_contain_their_middle(
                "the download host answered HTTP "@,
                status::shown(status),
                Seq::empty(),
            );
        },
        Error::Io { path, reason } => {
            text::texts_contain_their_middle("I/O failed at "@, path@, Seq::empty());
        },
    }
}

/// A path ends in the name of a file just when its last component is not empty
/// and neither of the two that stand for directories.
pub proof fn file_paths_end_in_a_name(path: Seq<char>)
    ensures
        names_a_file(path) <==> paths::name_part(path).len() > 0 && paths::name_part(path) != "."@
            && paths::name_part(path) != ".."@,
{
    let front = paths::front_part(path);
    let name = paths::name_part(path);
    paths::paths_are_fronts_and_names(path);
    let length = front.len() as int;
    assert(path.skip(length) =~= name);
    if name.len() > 0 && name != "."@ && name != ".."@ {
        assert(paths::is_component(path.skip(length)));
        assert(length > 0 ==> path[length - 1] == '/');
    }
    if names_a_file(path) {
        let start = choose|start: int|
            0 <= start < path.len() && paths::is_component(#[trigger] path.skip(start)) && (start
                == 0 || path[start - 1] == '/');
        if start < length {
            assert(path.skip(start)[length - 1 - start] == front[length - 1]);
        } else if start > length {
            assert(name[start - 1 - length] == path[start - 1]);
        }
    }
}

} // verus!

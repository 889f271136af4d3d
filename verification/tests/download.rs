//! Download and resume tests against a synthetic host.

use ufpm::api::status;
use ufpm::install::download::{
    canonical, fetch, fetch_once, meta_path, part_path, resumable_bytes, Error, Event, Header, Meta,
    Stage, Step, Verdict, MAX_ATTEMPTS,
};

/// The full payload used across the download tests.
const PAYLOAD: &[u8] = b"0123456789abcdefghijklmnopqrstuvwxyz";

/// What a host answers.
struct Host {
    /// The status code.
    status: u16,
    /// The `ETag` header.
    etag: Header,
    /// The `Last-Modified` header.
    last_modified: Header,
    /// The body.
    body: Vec<u8>,
}

/// A host that answers with a body and nothing else.
fn host(status: u16, body: &[u8]) -> Host {
    Host { status, etag: Header::Absent, last_modified: Header::Absent, body: body.to_vec() }
}

/// The files of a download, and what was asked of the host.
#[derive(Default)]
struct Files {
    part: Option<Vec<u8>>,
    meta: Option<Meta>,
    dest: Option<Vec<u8>>,
    asked: Vec<Option<(String, String)>>,
}

/// A sidecar.
fn meta(url: &str, validator: &str) -> Option<Meta> {
    Some(Meta { url: canonical(url), validator: Some(validator.to_owned()) })
}

/// One attempt; the connection breaks after `limit` pieces of the body.
fn attempt(files: &mut Files, url: &str, host: &Host, limit: usize) -> Result<(), Error> {
    let size = files.part.as_ref().map(|part| part.len() as u64);
    let mut attempt = fetch_once(url, "/downloads/pkg.zip", size, files.meta.clone());
    let mut pieces = host.body.chunks(5);
    let mut received = 0;
    loop {
        let event = match attempt.stage() {
            Stage::Request => {
                files.asked.push(attempt.headers());
                Event::Response {
                    status: host.status,
                    etag: host.etag.clone(),
                    last_modified: host.last_modified.clone(),
                }
            }
            Stage::MakeMetaDirectory(_) | Stage::MakePartDirectory(_) => {
                assert_eq!(attempt.directory(), "/downloads");
                Event::Done
            }
            Stage::WriteMeta(transfer) => {
                files.meta = transfer.meta.clone();
                Event::Done
            }
            Stage::OpenPart(transfer) => {
                if !transfer.is_append() {
                    files.part = Some(Vec::new());
                }
                Event::Done
            }
            Stage::Receive => {
                if received == limit {
                    Event::Broken(vec!["reset".to_owned()])
                } else {
                    received += 1;
                    pieces.next().map_or(Event::End, |piece| Event::Piece(piece.to_vec()))
                }
            }
            Stage::Write(piece) => {
                files.part.as_mut().unwrap().extend_from_slice(piece);
                Event::Done
            }
            Stage::Flush => Event::Done,
            Stage::Rename => {
                files.dest = files.part.take();
                Event::Done
            }
            Stage::RemoveMeta => {
                files.meta = None;
                Event::Done
            }
        };
        match attempt.next(event) {
            Step::Go(next) => attempt = next,
            Step::Finish(result) => return result,
        }
    }
}

/// A plain download lands the payload at the destination and leaves no
/// partial files behind.
#[test]
fn downloads_to_destination() {
    let mut files = Files::default();
    let host = Host { etag: Header::Text("\"v1\"".to_owned()), ..host(200, PAYLOAD) };

    attempt(&mut files, "https://host.test/pkg.zip", &host, 100).unwrap();

    assert_eq!(files.dest.as_deref(), Some(PAYLOAD));
    assert!(files.part.is_none());
    assert!(files.meta.is_none());
    assert_eq!(files.asked, [None]);
}

/// A matching partial download resumes with a Range request and the
/// halves are stitched together.
#[test]
fn resumes_partial_downloads() {
    let url = "https://host.test/pkg.zip";
    let mut files =
        Files { part: Some(PAYLOAD[..10].to_vec()), meta: meta(url, "\"v1\""), ..Files::default() };

    attempt(&mut files, url, &host(206, &PAYLOAD[10..]), 100).unwrap();

    assert_eq!(files.asked, [Some(("bytes=10-".to_owned(), "\"v1\"".to_owned()))]);
    assert_eq!(files.dest.as_deref(), Some(PAYLOAD));
}

/// A host that ignores ranges (or whose content changed) answers 200 and
/// the download restarts cleanly instead of corrupting the file.
#[test]
fn restarts_when_the_host_ignores_ranges() {
    let url = "https://host.test/pkg.zip";
    let mut files = Files {
        part: Some(b"stale-bytes".to_vec()),
        meta: meta(url, "\"old\""),
        ..Files::default()
    };

    attempt(&mut files, url, &host(200, PAYLOAD), 100).unwrap();

    assert_eq!(files.dest.as_deref(), Some(PAYLOAD));
}

/// A re-signed URL (same path, different query) still resumes: signed
/// hosts re-issue URLs with fresh signatures after expiry.
#[test]
fn resumes_across_resigned_urls() {
    let mut files = Files {
        part: Some(PAYLOAD[..10].to_vec()),
        meta: meta("https://host.test/pkg.zip?sig=old", "\"v1\""),
        ..Files::default()
    };

    attempt(&mut files, "https://host.test/pkg.zip?sig=fresh", &host(206, &PAYLOAD[10..]), 100)
        .unwrap();

    assert_eq!(files.asked[0].as_ref().unwrap().0, "bytes=10-");
    assert_eq!(files.dest.as_deref(), Some(PAYLOAD));
}

/// A partial file for a different URL is ignored, not resumed.
#[test]
fn ignores_partial_data_from_other_urls() {
    let mut files = Files {
        part: Some(b"other".to_vec()),
        meta: meta("https://elsewhere.test/other.zip", "\"x\""),
        ..Files::default()
    };

    attempt(&mut files, "https://host.test/pkg.zip", &host(200, PAYLOAD), 100).unwrap();

    assert_eq!(files.asked, [None]);
    assert_eq!(files.dest.as_deref(), Some(PAYLOAD));
}

/// Client errors are not retried and surface as HTTP errors.
#[test]
fn client_errors_fail_fast() {
    let error =
        attempt(&mut Files::default(), "https://host.test/gone.zip", &host(404, b""), 100)
            .unwrap_err();
    assert_eq!(error.message(), "the download host answered HTTP 404 Not Found");
    assert!(matches!(fetch(1, Err(error)), Verdict::Failed(Error::Http { status: 404 })));
}

/// A download torn while the body arrives resumes where it stopped.
#[test]
fn torn_downloads_are_resumed() {
    let url = "https://host.test/pkg.zip";
    let mut files = Files { dest: Some(b"previous".to_vec()), ..Files::default() };
    let first = Host { last_modified: Header::Text("Mon".to_owned()), ..host(200, PAYLOAD) };

    let error = attempt(&mut files, url, &first, 2).unwrap_err();
    assert_eq!(error.chain(), ["the download request failed", "reset"]);
    assert_eq!(files.dest.as_deref(), Some(&b"previous"[..]));
    assert_eq!(files.part.as_deref(), Some(&PAYLOAD[..10]));

    attempt(&mut files, url, &host(206, &PAYLOAD[10..]), 100).unwrap();
    assert_eq!(files.asked[1], Some(("bytes=10-".to_owned(), "Mon".to_owned())));
    assert_eq!(files.dest.as_deref(), Some(PAYLOAD));
}

/// Transient failures are retried, three attempts in all.
#[test]
fn transient_failures_are_retried() {
    let broken = || Err(Error::Transport(vec!["reset".to_owned()]));
    assert!(matches!(fetch(1, broken()), Verdict::Retry(2)));
    assert!(matches!(fetch(2, broken()), Verdict::Retry(3)));
    assert!(matches!(fetch(MAX_ATTEMPTS, broken()), Verdict::Failed(Error::Transport(_))));
    assert!(matches!(fetch(1, Err(Error::Http { status: 503 })), Verdict::Retry(2)));
    let io = Error::Io { path: "/p".to_owned(), reason: "full".to_owned() };
    assert_eq!(io.chain(), ["I/O failed at /p", "full"]);
    assert!(matches!(fetch(1, Err(io)), Verdict::Failed(_)));
    assert!(matches!(fetch(1, Ok(())), Verdict::Complete));
    assert!(status::is_server_error(599) && !status::is_server_error(600));
}

/// Only a non-empty part with a matching sidecar and a validator is resumed.
#[test]
fn resuming_needs_everything() {
    let url = "https://host.test/pkg.zip#x";
    assert_eq!(canonical(url), "https://host.test/pkg.zip");
    assert_eq!(canonical("https://host.test/a?b#c"), "https://host.test/a");
    assert_eq!(
        resumable_bytes(Some(3), meta(url, "v"), url),
        Some((3, "v".to_owned()))
    );
    assert_eq!(resumable_bytes(Some(0), meta(url, "v"), url), None);
    assert_eq!(resumable_bytes(None, meta(url, "v"), url), None);
    assert_eq!(resumable_bytes(Some(3), None, url), None);
    let unvalidated = Some(Meta { url: canonical(url), validator: None });
    assert_eq!(resumable_bytes(Some(3), unvalidated, url), None);
}

/// The `ETag` wins over `Last-Modified`, even where it is unreadable.
#[test]
fn validators_prefer_the_etag() {
    let url = "https://host.test/pkg.zip";
    let validator = |etag: Header, last_modified: Header| {
        let mut files = Files::default();
        let host = Host { etag, last_modified, ..host(200, PAYLOAD) };
        attempt(&mut files, url, &host, 1).unwrap_err();
        files.meta.unwrap().validator
    };
    let text = |value: &str| Header::Text(value.to_owned());
    assert_eq!(validator(text("e"), text("m")).as_deref(), Some("e"));
    assert_eq!(validator(Header::Absent, text("m")).as_deref(), Some("m"));
    assert_eq!(validator(Header::Unreadable, text("m")), None);
    assert_eq!(validator(Header::Absent, Header::Absent), None);
}

/// Partial files and sidecars lie next to their destination.
#[test]
fn partial_files_lie_next_to_the_destination() {
    for dest in ["/d/pkg.zip", "pkg.zip", "a//b", "a/./b", "./b", "/b", "../b", "a/b."] {
        let path = std::path::Path::new(dest);
        let name = format!("{}.part", path.file_name().unwrap().to_str().unwrap());
        assert_eq!(part_path(dest), path.with_file_name(name).to_str().unwrap(), "{dest}");
    }
    assert_eq!(part_path("/d/pkg.zip"), "/d/pkg.zip.part");
    assert_eq!(meta_path("/d/pkg.zip"), "/d/pkg.zip.part.meta");
}

//! HTTP status codes.

use vstd::prelude::*;
use crate::text;

verus! {

/// The status code of a resumed download.
pub const PARTIAL_CONTENT: u16 = 206;

/// Whether a status code reports success.
pub open spec fn succeeds(status: u16) -> bool {
    200 <= status < 300
}

/// Whether a status code blames the server.
pub open spec fn blames_server(status: u16) -> bool {
    500 <= status < 600
}

/// Whether `status` reports success.
pub fn is_success(status: u16) -> (success: bool)
    ensures
        success == succeeds(status),
{
    200 <= status && status < 300
}

/// Whether `status` blames the server.
pub fn is_server_error(status: u16) -> (blamed: bool)
    ensures
        blamed == blames_server(status),
{
    500 <= status && status < 600
}

/// A status code with its standard reason phrase.
pub uninterp spec fn status_line(status: u16) -> Seq<char>;

/// `reqwest::StatusCode::from_u16`, shown as text: a code from 100 up to 999,
/// and no other, is a status code. The table of reason phrases is not restated;
/// the text depends on the code alone and is named [`status_line`].
#[verifier::external_body]
fn standard_line(status: u16) -> (line: Option<String>)
    ensures
        match line {
            Some(text) => 100 <= status < 1000 && text@ == status_line(status),
            None => !(100 <= status < 1000),
        },
{
    reqwest::StatusCode::from_u16(status).ok().map(|code| code.to_string())
}

/// How a status code is shown: with its standard reason phrase, or bare when
/// it is no status code at all.
pub open spec fn shown(status: u16) -> Seq<char> {
    if 100 <= status < 1000 {
        status_line(status)
    } else {
        text::decimal(status as nat)
    }
}

/// The text `status` is shown as.
pub fn show(status: u16) -> (text: String)
    ensures
        text@ == shown(status),
{
    match standard_line(status) {
        Some(line) => line,
        None => text::number_text(status as u64),
    }
}

/// A status code reports success just when its first digit is a two, and blames
/// the server just when it is a five; no code does both.
pub proof fn statuses_go_by_their_first_digit(status: u16)
    ensures
        succeeds(status) <==> status / 100 == 2,
        blames_server(status) <==> status / 100 == 5,
{
}

/// Every code of three digits is shown with its standard reason phrase, and any
/// other number bare.
pub proof fn three_digit_codes_are_shown_in_full(status: u16)
    ensures
        text::decimal(status as nat).len() == 3 ==> shown(status) == status_line(status),
        text::decimal(status as nat).len() != 3 ==> shown(status) == text::decimal(status as nat),
{
    let n = status as nat;
    assert(n >= 10 ==> text::decimal(n) == text::decimal(n / 10).push(text::digit(n % 10)));
    assert(n >= 100 ==> text::decimal(n / 10) == text::decimal(n / 100).push(
        text::digit((n / 10) % 10),
    ));
    assert(n >= 1000 ==> text::decimal(n / 100) == text::decimal(n / 1000).push(
        text::digit((n / 100) % 10),
    ));
}

} // verus!

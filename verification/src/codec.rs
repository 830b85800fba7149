//! The outside encoders the responder relies on: gzip, the HTTP date
//! format, the wall clock and the UTF-8 check.

use std::io::Write;
use vstd::prelude::*;
use vstd::utf8::valid_utf8;

verus! {

/// What the gzip encoder makes of `data` at its default compression
/// level when it writes into memory: the finished stream, or `None` where
/// it reports an error.
pub uninterp spec fn gzip_outcome(data: Seq<u8>) -> Option<Seq<u8>>;

/// The IMF-fixdate text of the instant `secs` seconds after the Unix epoch.
pub uninterp spec fn http_date(secs: u64) -> Seq<char>;

/// The first instant, in seconds after the Unix epoch, that the HTTP date
/// format cannot express (the start of the year 10000).
pub const DATE_LIMIT: u64 = 253402300800;

/// How many characters an HTTP date has.
pub const DATE_LENGTH: usize = 29;

/// The view of an optional byte buffer.
pub open spec fn bytes_view(packed: Option<Vec<u8>>) -> Option<Seq<u8>> {
    match packed {
        Some(v) => Some(v@),
        None => None,
    }
}

/// Whether `text` holds neither a carriage return nor a line feed.
pub open spec fn on_one_line(text: Seq<char>) -> bool {
    forall|i: int| 0 <= i < text.len() ==> text[i] != '\r' && text[i] != '\n'
}

/// Calls `flate2::write::GzEncoder` (`new` with `Compression::default()`,
/// `write_all`, `finish`) on an in-memory buffer. The header it writes
/// holds no time and no name, and the buffer takes every write, so the
/// outcome, an error included, depends on the data alone; it is named
/// [`gzip_outcome`].
#[verifier::external_body]
pub(crate) fn gzip(data: &Vec<u8>) -> (packed: Option<Vec<u8>>)
    ensures
        bytes_view(packed) == gzip_outcome(data@),
{
    let mut encoder = flate2::write::GzEncoder::new(Vec::new(), flate2::Compression::default());
    match encoder.write_all(data) {
        Ok(()) => encoder.finish().ok(),
        Err(_) => None,
    }
}

/// Calls `httpdate::fmt_http_date` on the instant `secs` seconds after the
/// Unix epoch. The formatter panics from the year 10000 on, which the
/// precondition leaves out; its text is named [`http_date`]. The
/// formatter fills a fixed pattern of [`DATE_LENGTH`] characters with
/// letters and digits, so the text has that length and stays on one line.
#[verifier::external_body]
pub(crate) fn format_http_date(secs: u64) -> (text: String)
    requires
        secs < DATE_LIMIT,
    ensures
        text@ == http_date(secs),
        text@.len() == DATE_LENGTH,
        on_one_line(text@),
{
    httpdate::fmt_http_date(std::time::UNIX_EPOCH + std::time::Duration::from_secs(secs))
}

/// Calls `chrono::Utc::now` and takes its `timestamp`: the whole seconds
/// that the machine's clock counts since the Unix epoch. Nothing is
/// claimed of the value. On a machine whose clock is set before 1970 the
/// call itself panics, which nothing here can rule out.
#[verifier::external_body]
pub(crate) fn unix_seconds_now() -> (secs: i64) {
    chrono::Utc::now().timestamp()
}

/// Calls `std::str::from_utf8` and reports whether it accepted the bytes,
/// which it does exactly for well-formed UTF-8.
#[verifier::external_body]
pub(crate) fn is_utf8(bytes: &[u8]) -> (valid: bool)
    ensures
        valid == valid_utf8(bytes@),
{
    std::str::from_utf8(bytes).is_ok()
}

} // verus!

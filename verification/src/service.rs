//! The decisions of the statement web service: the names that generated files
//! get, where a requested file is read from, and the replies to failures.

use vstd::prelude::*;

use crate::calendar::{
    decimal_text, digit_char, format_reading_dmy_hms, format_utc_timestamp, i64_debug_text, is_clock_text, signed_decimal_text, time_since_epoch, two_digit_text, utc_timestamp_text, year_text,
    zero_padded, ClockReading,
};
use crate::paths::{
    all_components_normal, chars_of, download_name_accepted, file_extension, has_root,
    is_cur_dir, is_parent_dir, last_named_segment, path_segments, pdf_extension,
    resolve_download_path,
};
use crate::text::push_char;

verus! {

/// The chars that a statement number keeps in a file name.
pub open spec fn is_file_name_char(c: char) -> bool {
    ||| ('a' <= c && c <= 'z')
    ||| ('A' <= c && c <= 'Z')
    ||| ('0' <= c && c <= '9')
    ||| c == '-'
    ||| c == '_'
}

/// A char as a file name keeps it: other chars become `_`.
pub open spec fn file_name_char(c: char) -> char {
    if is_file_name_char(c) {
        c
    } else {
        '_'
    }
}

/// A statement number as a file name keeps it.
pub open spec fn sanitized(s: Seq<char>) -> Seq<char> {
    s.map_values(|c: char| file_name_char(c))
}

/// The name of the file generated for `statement_number` at `timestamp`:
/// `<sanitized number>_<timestamp>.pdf`.
pub open spec fn file_name_text(statement_number: Seq<char>, timestamp: Seq<char>) -> Seq<char> {
    sanitized(statement_number) + seq!['_'] + timestamp + seq!['.', 'p', 'd', 'f']
}

/// The URL under which a generated file is downloaded.
pub open spec fn download_url_text(file_name: Seq<char>) -> Seq<char> {
    "/api/v1/request/download/"@ + file_name
}

/// The `Content-Disposition` value of a download.
pub open spec fn content_disposition_text(file_name: Seq<char>) -> Seq<char> {
    "attachment; filename=\""@ + file_name + seq!['"']
}

/// The statement number with every char that a file name does not keep
/// replaced by `_`.
pub fn sanitize_statement_number(statement_number: &str) -> (r: String)
    ensures
        r@ == sanitized(statement_number@),
{
    let chars = chars_of(statement_number);
    let mut out = String::new();
    let n = chars.len();
    for i in 0..n
        invariant
            n == chars@.len(),
            chars@ == statement_number@,
            out@ == sanitized(chars@.take(i as int)),
    {
        let c = chars[i];
        let keep = ('a' <= c && c <= 'z') || ('A' <= c && c <= 'Z') || ('0' <= c && c <= '9')
            || c == '-' || c == '_';
        if keep {
            push_char(&mut out, c);
        } else {
            push_char(&mut out, '_');
        }
        assert(out@ =~= sanitized(chars@.take(i + 1)));
    }
    assert(chars@.take(n as int) =~= chars@);
    out
}

/// The name of the file generated for `statement_number` at `timestamp`.
pub fn file_name_for(statement_number: &str, timestamp: &str) -> (r: String)
    ensures
        r@ == file_name_text(statement_number@, timestamp@),
{
    let mut out = sanitize_statement_number(statement_number);
    push_char(&mut out, '_');
    out.append(timestamp);
    push_char(&mut out, '.');
    push_char(&mut out, 'p');
    push_char(&mut out, 'd');
    push_char(&mut out, 'f');
    assert(out@ =~= file_name_text(statement_number@, timestamp@));
    out
}

/// The name of the file generated for `statement_number` at the UTC time
/// `secs` seconds and `nanos` nanoseconds after the Unix epoch; nothing where
/// that time is out of chrono's range.
pub fn file_name_at(statement_number: &str, secs: i64, nanos: u32) -> (r: Option<String>)
    ensures
        match utc_timestamp_text(secs, nanos) {
            Some(t) => r matches Some(name) && name@ == file_name_text(statement_number@, t),
            None => r is None,
        },
        r matches Some(name) ==> exists|t: Seq<char>|
            is_clock_text(t) && name@ == #[trigger] file_name_text(statement_number@, t),
        r matches Some(name) ==> download_name_accepted(name@),
{
    match format_utc_timestamp(secs, nanos) {
        Some(timestamp) => {
            let r = file_name_for(statement_number, timestamp.as_str());
            proof {
                law_generated_names_are_served(statement_number@, timestamp@);
            }
            Some(r)
        },
        None => None,
    }
}

/// The name of the file generated now for `statement_number`; the download
/// route serves it. Nothing comes back when the clock cannot be read as a UTC
/// time (it reads before the Unix epoch, or beyond chrono's range).
pub fn build_file_name(statement_number: &str) -> (r: Option<String>)
    ensures
        r matches Some(name) ==> exists|t: Seq<char>|
            is_clock_text(t) && name@ == #[trigger] file_name_text(statement_number@, t),
        r matches Some(name) ==> download_name_accepted(name@),
{
    file_name_from_clock(statement_number, time_since_epoch())
}

/// The name of the file generated for `statement_number` when the clock reads
/// `since`, seconds and nanoseconds after the Unix epoch: the timestamp is the
/// one of exactly that reading. Nothing when the clock could not be read, or
/// its seconds lie beyond `i64`, or chrono has no such time.
pub fn file_name_from_clock(statement_number: &str, since: Option<(u64, u32)>) -> (r: Option<String>)
    ensures
        since is None ==> r is None,
        since matches Some(t) ==> (t.0 > i64::MAX ==> r is None),
        since matches Some(t) ==> (t.0 <= i64::MAX ==> match utc_timestamp_text(t.0 as i64, t.1) {
            Some(text) => r matches Some(name) && name@ == file_name_text(statement_number@, text),
            None => r is None,
        }),
        r matches Some(name) ==> exists|t: Seq<char>|
            is_clock_text(t) && name@ == #[trigger] file_name_text(statement_number@, t),
        r matches Some(name) ==> download_name_accepted(name@),
{
    let since = match since {
        Some(since) => since,
        None => return None,
    };
    if since.0 > 9_223_372_036_854_775_807u64 {
        return None;
    }
    file_name_at(statement_number, since.0 as i64, since.1)
}

/// The URL under which `file_name` is downloaded.
pub fn download_url(file_name: &str) -> (r: String)
    ensures
        r@ == download_url_text(file_name@),
{
    let mut out = String::from_str("/api/v1/request/download/");
    out.append(file_name);
    out
}

/// The `Content-Disposition` value that offers `file_name` as an attachment.
pub fn content_disposition(file_name: &str) -> (r: String)
    ensures
        r@ == content_disposition_text(file_name@),
{
    let mut out = String::from_str("attachment; filename=\"");
    out.append(file_name);
    push_char(&mut out, '"');
    out
}

/// A char that an HTTP header value may hold: a tab, or any char from the
/// space on but DEL. (`HeaderValue::from_str` checks the UTF-8 bytes so; every
/// byte of a char beyond ASCII passes.)
pub open spec fn header_char_ok(c: char) -> bool {
    c == '\t' || (32 <= (c as u32) && (c as u32) != 127)
}

/// A text that an HTTP header value may be.
pub open spec fn header_text_ok(s: Seq<char>) -> bool {
    forall|i: int| 0 <= i < s.len() ==> header_char_ok(#[trigger] s[i])
}

/// `HeaderValue::from_str` of http (through axum): whether `text` makes a
/// header value; it does when every byte is a tab or is 32 or more and not 127.
#[verifier::external_body]
fn header_value_accepted(text: &str) -> (r: bool)
    ensures
        r == header_text_ok(text@),
{
    axum::http::HeaderValue::from_str(text).is_ok()
}

/// The header values of a download: its content type and its content disposition.
#[derive(Clone, Debug)]
pub struct DownloadHeaders {
    pub content_type: String,
    pub content_disposition: String,
}

proof fn lemma_concat_header_ok(a: Seq<char>, b: Seq<char>)
    ensures
        header_text_ok(a + b) <==> (header_text_ok(a) && header_text_ok(b)),
{
    if header_text_ok(a) && header_text_ok(b) {
        assert forall|i: int| 0 <= i < (a + b).len() implies header_char_ok(#[trigger] (a + b)[i]) by {
            if i < a.len() {
                assert((a + b)[i] == a[i]);
            } else {
                assert((a + b)[i] == b[i - a.len()]);
            }
        }
    }
    if header_text_ok(a + b) {
        assert forall|i: int| 0 <= i < a.len() implies header_char_ok(#[trigger] a[i]) by {
            assert((a + b)[i] == a[i]);
        }
        assert forall|i: int| 0 <= i < b.len() implies header_char_ok(#[trigger] b[i]) by {
            assert((a + b)[i + a.len()] == b[i]);
        }
    }
}

/// The `Content-Disposition` of `file_name` is a valid header value exactly
/// when the name itself is one.
pub proof fn lemma_content_disposition_ok(file_name: Seq<char>)
    ensures
        header_text_ok(content_disposition_text(file_name)) <==> header_text_ok(file_name),
{
    let prefix = "attachment; filename=\""@;
    reveal_strlit("attachment; filename=\"");
    assert(header_text_ok(prefix));
    assert(header_text_ok(seq!['"']));
    lemma_concat_header_ok(prefix, file_name);
    lemma_concat_header_ok(prefix + file_name, seq!['"']);
}

/// The headers of the download of `file_name`: `application/pdf` and an
/// attachment named `file_name`; `BadHeaders` when the name holds a char that
/// a header value may not hold.
pub fn download_headers(file_name: &str) -> (r: Result<DownloadHeaders, DownloadFailure>)
    ensures
        r is Ok <==> header_text_ok(content_disposition_text(file_name@)),
        r is Ok <==> header_text_ok(file_name@),
        r matches Ok(h) ==> h.content_type@ == "application/pdf"@ && h.content_disposition@
            == content_disposition_text(file_name@),
        r matches Err(f) ==> f is BadHeaders,
{
    let disposition = content_disposition(file_name);
    proof {
        lemma_content_disposition_ok(file_name@);
    }
    if header_value_accepted(disposition.as_str()) {
        Ok(
            DownloadHeaders {
                content_type: String::from_str("application/pdf"),
                content_disposition: disposition,
            },
        )
    } else {
        Err(DownloadFailure::BadHeaders)
    }
}

/// A failed request as the client sees it: an HTTP status and a message.
#[derive(Clone, Debug)]
pub struct ErrorReply {
    pub status: u16,
    pub message: String,
}

/// Why a statement request failed.
#[derive(Clone, Debug)]
pub enum RequestFailure {
    /// The stamp image could not be read.
    StampUnreadable,
    /// The statement could not be rendered; the error's text.
    Render(String),
    /// The generated file could not be saved.
    PersistFailed,
}

/// Why a download failed.
#[derive(Clone, Copy, Debug)]
pub enum DownloadFailure {
    /// The requested name is not one that is served.
    InvalidName,
    /// No file has that name.
    NotFound,
    /// The file exists but could not be read.
    Unreadable,
    /// The response headers could not be built from the name.
    BadHeaders,
}

/// The status and message of each request failure.
pub open spec fn request_failure_reply_spec(f: RequestFailure) -> (u16, Seq<char>) {
    match f {
        RequestFailure::StampUnreadable => (500, "stamp.png is missing or unreadable"@),
        RequestFailure::Render(text) => (400, text@),
        RequestFailure::PersistFailed => (500, "failed to persist generated PDF"@),
    }
}

/// The status and message of each download failure.
pub open spec fn download_failure_reply_spec(f: DownloadFailure) -> (u16, Seq<char>) {
    match f {
        DownloadFailure::InvalidName => (400, "invalid file name"@),
        DownloadFailure::NotFound => (404, "file not found"@),
        DownloadFailure::Unreadable => (500, "failed to read generated PDF"@),
        DownloadFailure::BadHeaders => (500, "failed to build download headers"@),
    }
}

/// The reply to a failed statement request.
pub fn request_failure_reply(failure: RequestFailure) -> (r: ErrorReply)
    ensures
        (r.status, r.message@) == request_failure_reply_spec(failure),
{
    match failure {
        RequestFailure::StampUnreadable => ErrorReply {
            status: 500,
            message: String::from_str("stamp.png is missing or unreadable"),
        },
        RequestFailure::Render(text) => ErrorReply { status: 400, message: text },
        RequestFailure::PersistFailed => ErrorReply {
            status: 500,
            message: String::from_str("failed to persist generated PDF"),
        },
    }
}

/// The reply to a failed download.
pub fn download_failure_reply(failure: DownloadFailure) -> (r: ErrorReply)
    ensures
        (r.status, r.message@) == download_failure_reply_spec(failure),
{
    match failure {
        DownloadFailure::InvalidName => ErrorReply {
            status: 400,
            message: String::from_str("invalid file name"),
        },
        DownloadFailure::NotFound => ErrorReply {
            status: 404,
            message: String::from_str("file not found"),
        },
        DownloadFailure::Unreadable => ErrorReply {
            status: 500,
            message: String::from_str("failed to read generated PDF"),
        },
        DownloadFailure::BadHeaders => ErrorReply {
            status: 500,
            message: String::from_str("failed to build download headers"),
        },
    }
}

/// Where a requested file is read from, or the reply that refuses the name.
pub fn plan_download(file_name: &str) -> (r: Result<String, ErrorReply>)
    ensures
        r is Ok <==> download_name_accepted(file_name@),
        r matches Ok(p) ==> p@ == seq!['t', 'm', 'p', '/'] + file_name@,
        r matches Err(e) ==> (e.status, e.message@) == download_failure_reply_spec(
            DownloadFailure::InvalidName,
        ),
{
    match resolve_download_path(file_name) {
        Some(p) => {
            assert(p@ =~= seq!['t', 'm', 'p', '/'] + file_name@);
            Ok(p)
        },
        None => Err(download_failure_reply(DownloadFailure::InvalidName)),
    }
}

/// What the health check reports: when the server started, as
/// `dd/mm/yyyy HH:MM:SS`, and how long it has run, as seconds followed by `s`.
#[derive(Clone, Debug)]
pub struct HealthReport {
    pub startup_timestamp: String,
    pub uptime: String,
}

/// The health report of a server that started at `started` and has run for
/// `uptime_seconds` seconds.
pub fn health_report(started: &ClockReading, uptime_seconds: i64) -> (r: HealthReport)
    requires
        started.is_valid(),
        started.second < 60,
    ensures
        r.startup_timestamp@ == started.dmy_hms_text(),
        r.uptime@ == signed_decimal_text(uptime_seconds as int) + seq!['s'],
{
    let startup_timestamp = format_reading_dmy_hms(started);
    let mut uptime = i64_debug_text(uptime_seconds);
    push_char(&mut uptime, 's');
    HealthReport { startup_timestamp, uptime }
}

/// What the client gets back for a saved statement.
#[derive(Clone, Debug)]
pub struct RequestReceipt {
    pub statement_number: String,
    pub file_name: String,
    pub download_url: String,
}

/// The receipt for a statement saved as `file_name`.
pub fn request_receipt(statement_number: String, file_name: String) -> (r: RequestReceipt)
    ensures
        r.statement_number == statement_number,
        r.file_name == file_name,
        r.download_url@ == download_url_text(file_name@),
{
    let download_url = download_url(file_name.as_str());
    RequestReceipt { statement_number, file_name, download_url }
}

// ---------------------------------------------------------------------------
// Why every generated name is served.

/// The chars of generated file names: those that a statement number keeps,
/// and the `+` and `.` of timestamps and the extension.
pub open spec fn is_name_char(c: char) -> bool {
    is_file_name_char(c) || c == '+' || c == '.'
}

/// A text of such chars only.
pub open spec fn has_only_name_chars(s: Seq<char>) -> bool {
    forall|i: int| 0 <= i < s.len() ==> is_name_char(#[trigger] s[i])
}

proof fn lemma_segments_of_plain_name(s: Seq<char>)
    requires
        has_only_name_chars(s),
    ensures
        path_segments(s) == seq![s],
    decreases s.len(),
{
    if s.len() > 0 {
        let init = s.drop_last();
        assert(has_only_name_chars(init)) by {
            assert forall|i: int| 0 <= i < init.len() implies is_name_char(#[trigger] init[i]) by {
                assert(init[i] == s[i]);
            }
        }
        lemma_segments_of_plain_name(init);
        assert(is_name_char(s[s.len() - 1]));
        assert(s.last() != '/');
        assert(init.push(s.last()) =~= s);
        assert(seq![init].update(0, init.push(s.last())) =~= seq![s]);
    } else {
        assert(s =~= seq![]);
    }
}

proof fn lemma_digit_char(d: int)
    requires
        0 <= d <= 9,
    ensures
        is_name_char(digit_char(d)),
{
}

proof fn lemma_decimal_name_chars(n: nat)
    ensures
        has_only_name_chars(decimal_text(n)),
    decreases n,
{
    if n >= 10 {
        lemma_decimal_name_chars(n / 10);
        lemma_digit_char((n % 10) as int);
        let s = decimal_text(n);
        assert forall|i: int| 0 <= i < s.len() implies is_name_char(#[trigger] s[i]) by {
            if i < s.len() - 1 {
                assert(s[i] == decimal_text(n / 10)[i]);
            }
        }
    } else {
        lemma_digit_char(n as int);
    }
}

proof fn lemma_padded_name_chars(s: Seq<char>, width: nat)
    requires
        has_only_name_chars(s),
    ensures
        has_only_name_chars(zero_padded(s, width)),
    decreases width - s.len(),
{
    if s.len() < width {
        let t = seq!['0'] + s;
        assert forall|i: int| 0 <= i < t.len() implies is_name_char(#[trigger] t[i]) by {
            if i > 0 {
                assert(t[i] == s[i - 1]);
            }
        }
        lemma_padded_name_chars(t, width);
    }
}

proof fn lemma_year_name_chars(y: int)
    ensures
        has_only_name_chars(year_text(y)),
{
    if 0 <= y < 10000 {
        lemma_decimal_name_chars(y as nat);
        lemma_padded_name_chars(decimal_text(y as nat), 4);
    } else {
        let n: nat = if y < 0 {
            (-y) as nat
        } else {
            y as nat
        };
        lemma_decimal_name_chars(n);
        lemma_padded_name_chars(decimal_text(n), 4);
        let p = zero_padded(decimal_text(n), 4);
        let sign = if y < 0 {
            '-'
        } else {
            '+'
        };
        let t = seq![sign] + p;
        assert forall|i: int| 0 <= i < t.len() implies is_name_char(#[trigger] t[i]) by {
            if i > 0 {
                assert(t[i] == p[i - 1]);
            }
        }
        assert(year_text(y) == t);
    }
}

proof fn lemma_two_digit_name_chars(n: int)
    requires
        0 <= n < 100,
    ensures
        has_only_name_chars(two_digit_text(n)),
{
    lemma_digit_char(n / 10);
    lemma_digit_char(n % 10);
}

proof fn lemma_concat_name_chars(a: Seq<char>, b: Seq<char>)
    requires
        has_only_name_chars(a),
        has_only_name_chars(b),
    ensures
        has_only_name_chars(a + b),
{
    assert forall|i: int| 0 <= i < (a + b).len() implies is_name_char(#[trigger] (a + b)[i]) by {
        if i < a.len() {
            assert((a + b)[i] == a[i]);
        } else {
            assert((a + b)[i] == b[i - a.len()]);
        }
    }
}

proof fn lemma_clock_text_name_chars(t: ClockReading)
    requires
        t.is_valid(),
    ensures
        has_only_name_chars(t.compact_text()),
{
    lemma_year_name_chars(t.year as int);
    lemma_two_digit_name_chars(t.month as int);
    lemma_two_digit_name_chars(t.day as int);
    lemma_two_digit_name_chars(t.hour as int);
    lemma_two_digit_name_chars(t.minute as int);
    lemma_two_digit_name_chars(t.second as int);
    let a = year_text(t.year as int);
    let b = a + two_digit_text(t.month as int);
    lemma_concat_name_chars(a, two_digit_text(t.month as int));
    let c = b + two_digit_text(t.day as int);
    lemma_concat_name_chars(b, two_digit_text(t.day as int));
    let d = c + two_digit_text(t.hour as int);
    lemma_concat_name_chars(c, two_digit_text(t.hour as int));
    let e = d + two_digit_text(t.minute as int);
    lemma_concat_name_chars(d, two_digit_text(t.minute as int));
    lemma_concat_name_chars(e, two_digit_text(t.second as int));
}

/// Sanitizing a sanitized statement number changes nothing.
pub proof fn law_sanitize_idempotent(s: Seq<char>)
    ensures
        sanitized(sanitized(s)) == sanitized(s),
{
    assert(sanitized(sanitized(s)) =~= sanitized(s));
}

/// A sanitized statement number holds only chars that a file name keeps.
pub proof fn law_sanitized_chars(s: Seq<char>)
    ensures
        sanitized(s).len() == s.len(),
        forall|i: int| 0 <= i < s.len() ==> is_file_name_char(#[trigger] sanitized(s)[i]),
{
}

/// Every file that the request route names, whatever the statement number and
/// whatever time the clock reads, is one that the download route serves.
pub proof fn law_generated_names_are_served(statement_number: Seq<char>, timestamp: Seq<char>)
    requires
        is_clock_text(timestamp),
    ensures
        download_name_accepted(file_name_text(statement_number, timestamp)),
{
    let t = choose|t: ClockReading| t.is_valid() && timestamp == #[trigger] t.compact_text();
    lemma_clock_text_name_chars(t);
    let s = sanitized(statement_number);
    assert(has_only_name_chars(s));
    let name = file_name_text(statement_number, timestamp);
    lemma_concat_name_chars(s, seq!['_']);
    lemma_concat_name_chars(s + seq!['_'], timestamp);
    lemma_concat_name_chars(s + seq!['_'] + timestamp, seq!['.', 'p', 'd', 'f']);
    lemma_segments_of_plain_name(name);
    let n = name.len() as int;
    assert(n > 4);
    assert(name.subrange(n - 4, n) =~= seq!['.', 'p', 'd', 'f']);
    crate::paths::lemma_pdf_extension(name);
    assert(!is_cur_dir(name));
    assert(!is_parent_dir(name));
    assert(is_name_char(name[0]));
    assert(name[0] != '/');
    assert(!has_root(name));
    assert(all_components_normal(name));
    assert(seq![name].drop_last() =~= seq![]);
    assert(last_named_segment(path_segments(name)) == Some(name));
    assert(file_extension(name) == Some(pdf_extension()));
}

/// Every file that the request route names, whatever the statement number and
/// whatever time the clock reads, gets its download headers.
pub proof fn law_generated_names_get_headers(statement_number: Seq<char>, timestamp: Seq<char>)
    requires
        is_clock_text(timestamp),
    ensures
        header_text_ok(file_name_text(statement_number, timestamp)),
        header_text_ok(content_disposition_text(file_name_text(statement_number, timestamp))),
{
    let t = choose|t: ClockReading| t.is_valid() && timestamp == #[trigger] t.compact_text();
    lemma_clock_text_name_chars(t);
    let s = sanitized(statement_number);
    let name = file_name_text(statement_number, timestamp);
    lemma_concat_name_chars(s, seq!['_']);
    lemma_concat_name_chars(s + seq!['_'], timestamp);
    lemma_concat_name_chars(s + seq!['_'] + timestamp, seq!['.', 'p', 'd', 'f']);
    assert forall|i: int| 0 <= i < name.len() implies header_char_ok(#[trigger] name[i]) by {
        assert(is_name_char(name[i]));
    }
    lemma_content_disposition_ok(name);
}

} // verus!

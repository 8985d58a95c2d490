//! Fetching the archive of one version: what to ask for, what to call the
//! file, when to tell the user how far the transfer is, and whether the file
//! on disk is the one that was written.

use vstd::prelude::*;
use crate::api::{detect_platform, download_url, platform_of, ApiEndpoints};
use crate::config::{option_view, AppConfig};
use crate::error::SdkError;
use crate::text::{chars_of, contains, contains_text, same_text};

verus! {

/// An event is due once this many bytes have come in since the last one.
pub const REPORT_INTERVAL_BYTES: u64 = 1048576;

/// Seconds that a whole request may take; archives are large.
pub const TOTAL_TIMEOUT_SECS: u64 = 300;

/// Seconds that connecting may take.
pub const CONNECT_TIMEOUT_SECS: u64 = 30;

/// Redirects that are followed before the request is given up.
pub const MAX_REDIRECTS: usize = 10;

/// What the server said before the body: the status and the headers that
/// tell the kind of archive. A header that is missing, or is no text, is the
/// empty string.
pub struct ResponseHead {
    pub status: u16,
    /// The declared length of the body.
    pub content_length: Option<u64>,
    /// `X-Sdkman-ArchiveType`
    pub archive_type: String,
    /// `Content-Type`
    pub content_type: String,
    /// `Content-Disposition`
    pub content_disposition: String,
}

/// How far a transfer is.
#[derive(Clone, Debug)]
pub struct DownloadProgress {
    pub candidate: String,
    pub version: String,
    /// Bytes received so far.
    pub downloaded: u64,
    /// Bytes that the server declared, 0 where it declared none.
    pub total: u64,
}

/// The counters of a transfer.
pub struct Meter {
    /// Bytes that the server declared, 0 where it declared none.
    pub total: nat,
    /// Bytes received so far.
    pub downloaded: nat,
    /// Bytes received when the last event was emitted.
    pub reported: nat,
}

/// A status in the range of successes.
pub open spec fn is_success(status: u16) -> bool {
    200 <= status < 300
}

/// The extension of the archive's file, from what the server said of it. In
/// order: the archive type that the server names, where `tgz` and `tar.gz`
/// are one; the file name in the content disposition; the content type,
/// where `gzip` is looked for before `zip`, which it holds; and last the
/// candidate, of which the three build tools come as ZIP archives.
pub open spec fn resolved_extension(
    archive_type: Seq<char>,
    content_disposition: Seq<char>,
    content_type: Seq<char>,
    candidate: Seq<char>,
) -> Seq<char> {
    if archive_type.len() > 0 {
        if archive_type == "zip"@ {
            "zip"@
        } else if archive_type == "tar.gz"@ || archive_type == "tgz"@ {
            "tar.gz"@
        } else {
            archive_type
        }
    } else if contains_text(content_disposition, ".zip"@) {
        "zip"@
    } else if contains_text(content_disposition, ".tar.gz"@) || contains_text(
        content_disposition,
        ".tgz"@,
    ) {
        "tar.gz"@
    } else if contains_text(content_type, "gzip"@) {
        "tar.gz"@
    } else if contains_text(content_type, "zip"@) {
        "zip"@
    } else if candidate == "gradle"@ || candidate == "maven"@ || candidate == "ant"@ {
        "zip"@
    } else {
        "tar.gz"@
    }
}

/// The name of the temporary file: `<candidate>-<version>.<extension>`.
pub open spec fn archive_file_name(candidate: Seq<char>, version: Seq<char>, extension: Seq<char>) -> Seq<
    char,
> {
    candidate + "-"@ + version + "."@ + extension
}

/// The least advance, in bytes, that makes an event due before the transfer
/// is complete: the byte interval, or one hundredth of the declared total
/// where that is less.
pub open spec fn quantum(total: nat) -> nat {
    if total >= 100 * REPORT_INTERVAL_BYTES {
        REPORT_INTERVAL_BYTES as nat
    } else {
        ((total + 99) / 100) as nat
    }
}

/// Whether an event is due once `chunk` more bytes have come in: the bytes
/// since the last event reach the interval, or they reach one hundredth of
/// the declared total, or the transfer is complete.
pub open spec fn due(m: Meter, chunk: nat) -> bool {
    let downloaded = m.downloaded + chunk;
    ||| downloaded - m.reported >= REPORT_INTERVAL_BYTES
    ||| (m.total > 0 && (downloaded - m.reported) * 100 >= m.total)
    ||| downloaded == m.total
}

/// The counters after `chunk` more bytes.
pub open spec fn advance(m: Meter, chunk: nat) -> Meter {
    let downloaded = m.downloaded + chunk;
    Meter {
        total: m.total,
        downloaded,
        reported: if due(m, chunk) {
            downloaded
        } else {
            m.reported
        },
    }
}

/// The counters before the first byte.
pub open spec fn fresh(total: nat) -> Meter {
    Meter { total, downloaded: 0, reported: 0 }
}

/// The counters after a run of chunks.
pub open spec fn run(m: Meter, chunks: Seq<nat>) -> Meter
    decreases chunks.len(),
{
    if chunks.len() == 0 {
        m
    } else {
        run(advance(m, chunks[0]), chunks.drop_first())
    }
}

/// The number of events that a run of chunks emits.
pub open spec fn event_count(m: Meter, chunks: Seq<nat>) -> nat
    decreases chunks.len(),
{
    if chunks.len() == 0 {
        0
    } else {
        let first: nat = if due(m, chunks[0]) {
            1
        } else {
            0
        };
        first + event_count(advance(m, chunks[0]), chunks.drop_first())
    }
}

/// The bytes of a run of chunks.
pub open spec fn total_of(chunks: Seq<nat>) -> nat
    decreases chunks.len(),
{
    if chunks.len() == 0 {
        0
    } else {
        chunks[0] + total_of(chunks.drop_first())
    }
}

/// No header tells the kind of archive.
pub open spec fn no_hint(
    archive_type: Seq<char>,
    content_disposition: Seq<char>,
    content_type: Seq<char>,
) -> bool {
    &&& archive_type.len() == 0
    &&& !contains_text(content_disposition, ".zip"@)
    &&& !contains_text(content_disposition, ".tar.gz"@)
    &&& !contains_text(content_disposition, ".tgz"@)
    &&& !contains_text(content_type, "zip"@)
}

/// The archive type `tgz` resolves to the extension `tar.gz`, whatever the
/// other headers and the candidate are.
pub proof fn lemma_tgz_hint_is_tar_gz(
    content_disposition: Seq<char>,
    content_type: Seq<char>,
    candidate: Seq<char>,
)
    ensures
        resolved_extension("tgz"@, content_disposition, content_type, candidate) == "tar.gz"@,
{
    reveal_strlit("tgz");
    reveal_strlit("zip");
    assert("tgz"@[0] != "zip"@[0]);
}

/// An archive type that the server names wins over every other header.
pub proof fn lemma_hint_is_authoritative(
    archive_type: Seq<char>,
    content_disposition: Seq<char>,
    content_type: Seq<char>,
    candidate: Seq<char>,
)
    requires
        archive_type.len() > 0,
    ensures
        resolved_extension(archive_type, content_disposition, content_type, candidate)
            == resolved_extension(archive_type, Seq::empty(), Seq::empty(), Seq::empty()),
{
}

/// Without any hint the three build tools resolve to `zip`, every other
/// candidate to `tar.gz`.
pub proof fn lemma_default_by_candidate(
    archive_type: Seq<char>,
    content_disposition: Seq<char>,
    content_type: Seq<char>,
    candidate: Seq<char>,
)
    requires
        no_hint(archive_type, content_disposition, content_type),
    ensures
        candidate == "gradle"@ || candidate == "maven"@ || candidate == "ant"@
            ==> resolved_extension(archive_type, content_disposition, content_type, candidate)
            == "zip"@,
        candidate != "gradle"@ && candidate != "maven"@ && candidate != "ant"@
            ==> resolved_extension(archive_type, content_disposition, content_type, candidate)
            == "tar.gz"@,
{
    if contains_text(content_type, "gzip"@) {
        reveal_strlit("gzip");
        reveal_strlit("zip");
        let at = choose|at: int| crate::text::occurs_at(content_type, "gzip"@, at);
        assert(content_type.subrange(at + 1, at + 1 + 3) =~= content_type.subrange(
            at,
            at + 4,
        ).subrange(1, 4));
        assert("gzip"@.subrange(1, 4) =~= "zip"@);
        assert(crate::text::occurs_at(content_type, "zip"@, at + 1));
    }
}

/// Where neither the archive type nor the content disposition says
/// anything, the content type decides before the candidate does: one that
/// holds `gzip` gives `tar.gz`, one that holds `zip` and not `gzip` gives
/// `zip`.
pub proof fn lemma_content_type_decides(
    archive_type: Seq<char>,
    content_disposition: Seq<char>,
    content_type: Seq<char>,
    candidate: Seq<char>,
)
    requires
        archive_type.len() == 0,
        !contains_text(content_disposition, ".zip"@),
        !contains_text(content_disposition, ".tar.gz"@),
        !contains_text(content_disposition, ".tgz"@),
    ensures
        contains_text(content_type, "gzip"@) ==> resolved_extension(
            archive_type,
            content_disposition,
            content_type,
            candidate,
        ) == "tar.gz"@,
        contains_text(content_type, "zip"@) && !contains_text(content_type, "gzip"@)
            ==> resolved_extension(archive_type, content_disposition, content_type, candidate)
            == "zip"@,
{
}

/// The chunk that completes the declared total is always reported, and the
/// event says so: it counts as many bytes as were declared.
pub proof fn lemma_completion_is_reported(m: Meter, chunk: nat)
    requires
        m.downloaded + chunk == m.total,
    ensures
        due(m, chunk),
        advance(m, chunk).reported == m.total,
        advance(m, chunk).downloaded == m.total,
{
}

/// Of a transfer that comes in chunks, the last chunk is reported where it
/// completes the declared total, however small the chunks are.
pub proof fn lemma_last_event_is_complete(total: nat, chunks: Seq<nat>)
    requires
        chunks.len() > 0,
        run(fresh(total), chunks.drop_last()).downloaded + chunks.last() == total,
    ensures
        due(run(fresh(total), chunks.drop_last()), chunks.last()),
        run(fresh(total), chunks).downloaded == total,
        run(fresh(total), chunks).reported == total,
{
    lemma_run_keeps_total(fresh(total), chunks.drop_last());
    lemma_run_push(fresh(total), chunks.drop_last(), chunks.last());
    assert(chunks.drop_last().push(chunks.last()) =~= chunks);
}

/// The declared total stays what it is.
pub proof fn lemma_run_keeps_total(m: Meter, chunks: Seq<nat>)
    ensures
        run(m, chunks).total == m.total,
    decreases chunks.len(),
{
    if chunks.len() > 0 {
        lemma_run_keeps_total(advance(m, chunks[0]), chunks.drop_first());
    }
}

/// A run with one more chunk at its end.
pub proof fn lemma_run_push(m: Meter, chunks: Seq<nat>, chunk: nat)
    ensures
        run(m, chunks.push(chunk)) == advance(run(m, chunks), chunk),
    decreases chunks.len(),
{
    let longer = chunks.push(chunk);
    if chunks.len() == 0 {
        assert(longer.drop_first() =~= Seq::<nat>::empty());
        assert(run(advance(m, chunk), longer.drop_first()) == advance(m, chunk));
    } else {
        assert(longer.drop_first() =~= chunks.drop_first().push(chunk));
        lemma_run_push(advance(m, chunks[0]), chunks.drop_first(), chunk);
    }
}

/// An event that is due before the transfer is complete follows an advance
/// of at least the quantum.
pub proof fn lemma_due_advances(m: Meter, chunk: nat)
    requires
        m.total > 0,
        m.reported <= m.downloaded,
        due(m, chunk),
        m.downloaded + chunk != m.total,
    ensures
        m.downloaded + chunk - m.reported >= quantum(m.total),
        quantum(m.total) > 0,
{
}

/// The events of a transfer are bounded by its size, not by the number of its
/// chunks: while the chunks are not empty and stay within the declared total,
/// every event but the one that completes the transfer follows an advance of
/// at least the quantum.
pub proof fn lemma_events_are_bounded(m: Meter, chunks: Seq<nat>)
    requires
        m.total > 0,
        m.reported <= m.downloaded,
        m.downloaded + total_of(chunks) <= m.total,
        forall|i: int| 0 <= i < chunks.len() ==> chunks[i] > 0,
    ensures
        event_count(m, chunks) * quantum(m.total) <= m.downloaded + total_of(chunks) - m.reported
            + quantum(m.total),
        m.downloaded + total_of(chunks) < m.total ==> event_count(m, chunks) * quantum(m.total)
            <= m.downloaded + total_of(chunks) - m.reported,
    decreases chunks.len(),
{
    let q = quantum(m.total);
    if chunks.len() == 0 {
        assert(event_count(m, chunks) * q == 0) by (nonlinear_arith)
            requires
                event_count(m, chunks) == 0,
        ;
    } else {
        let next = advance(m, chunks[0]);
        let rest = chunks.drop_first();
        assert forall|i: int| 0 <= i < rest.len() implies rest[i] > 0 by {
            assert(rest[i] == chunks[i + 1]);
        }
        lemma_events_are_bounded(next, rest);
        let n = event_count(next, rest);
        if due(m, chunks[0]) {
            assert(event_count(m, chunks) == 1 + n);
            assert((1 + n) * q == q + n * q) by (nonlinear_arith);
            if m.downloaded + chunks[0] == m.total {
                if rest.len() > 0 {
                    assert(rest[0] > 0);
                    assert(total_of(rest) >= rest[0]);
                }
                assert(n == 0);
                assert(n * q == 0) by (nonlinear_arith)
                    requires
                        n == 0,
                ;
            } else {
                lemma_due_advances(m, chunks[0]);
            }
        } else {
            assert(event_count(m, chunks) == n);
        }
    }
}

/// A whole transfer, from the first byte: at most one event for every
/// quantum of bytes, and one more.
pub proof fn lemma_event_count(total: nat, chunks: Seq<nat>)
    requires
        total > 0,
        total_of(chunks) <= total,
        forall|i: int| 0 <= i < chunks.len() ==> chunks[i] > 0,
    ensures
        event_count(fresh(total), chunks) <= total_of(chunks) / quantum(total) + 1,
{
    let q = quantum(total);
    let n = event_count(fresh(total), chunks);
    let bytes = total_of(chunks);
    lemma_events_are_bounded(fresh(total), chunks);
    assert(n * q <= bytes + q);
    assert(n <= bytes / q + 1) by (nonlinear_arith)
        requires
            n * q <= bytes + q,
            q > 0,
    ;
}

/// How requests are sent.
pub struct Downloader {
    /// Seconds that a whole request may take.
    pub timeout_secs: u64,
    /// Seconds that connecting may take.
    pub connect_timeout_secs: u64,
    /// Redirects that are followed.
    pub max_redirects: usize,
    /// The proxy that every request goes through, if any.
    pub proxy: Option<String>,
}

/// A transfer that is under way.
pub struct Transfer {
    candidate: String,
    version: String,
    file_name: String,
    total: u64,
    downloaded: u64,
    reported: u64,
}

impl Downloader {
    /// The settings for requests: long timeouts, a bounded number of
    /// redirects, and the proxy that the user's settings ask for. `upper` and
    /// `lower` are the values of the environment variables `HTTP_PROXY` and
    /// `http_proxy`.
    pub fn new(config: &AppConfig, upper: Option<String>, lower: Option<String>) -> (downloader:
        Downloader)
        ensures
            downloader.timeout_secs == TOTAL_TIMEOUT_SECS,
            downloader.connect_timeout_secs == CONNECT_TIMEOUT_SECS,
            downloader.max_redirects == MAX_REDIRECTS,
            option_view(downloader.proxy) == crate::config::proxy_url_of(
                config.proxy_type@,
                option_view(config.proxy_host),
                option_view(config.proxy_port),
                option_view(upper),
                option_view(lower),
            ),
    {
        Downloader {
            timeout_secs: TOTAL_TIMEOUT_SECS,
            connect_timeout_secs: CONNECT_TIMEOUT_SECS,
            max_redirects: MAX_REDIRECTS,
            proxy: config.get_proxy_url(upper, lower),
        }
    }

    /// The address to fetch the archive from, for the operating system and
    /// architecture that the program was built for.
    pub fn request_url(candidate: &str, version: &str, os: &str, arch: &str) -> (url: String)
        ensures
            url@ == download_url(candidate@, version@, platform_of(os@, arch@)),
    {
        let platform = detect_platform(os, arch);
        ApiEndpoints::download(candidate, version, platform.as_str())
    }

    /// The extension of the archive's file, from what the server said of it.
    pub fn file_extension(
        archive_type: &str,
        content_disposition: &str,
        content_type: &str,
        candidate: &str,
    ) -> (extension: String)
        ensures
            extension@ == resolved_extension(
                archive_type@,
                content_disposition@,
                content_type@,
                candidate@,
            ),
    {
        let kind = chars_of(archive_type);
        if kind.len() > 0 {
            if same_text(archive_type, "zip") {
                return String::from_str("zip");
            } else if same_text(archive_type, "tar.gz") || same_text(archive_type, "tgz") {
                return String::from_str("tar.gz");
            } else {
                return String::from_str(archive_type);
            }
        }
        let disposition = chars_of(content_disposition);
        let declared = chars_of(content_type);
        if contains(&disposition, &chars_of(".zip")) {
            String::from_str("zip")
        } else if contains(&disposition, &chars_of(".tar.gz")) || contains(
            &disposition,
            &chars_of(".tgz"),
        ) {
            String::from_str("tar.gz")
        } else if contains(&declared, &chars_of("gzip")) {
            String::from_str("tar.gz")
        } else if contains(&declared, &chars_of("zip")) {
            String::from_str("zip")
        } else if same_text(candidate, "gradle") || same_text(candidate, "maven") || same_text(
            candidate,
            "ant",
        ) {
            String::from_str("zip")
        } else {
            String::from_str("tar.gz")
        }
    }

    /// The name of the temporary file that holds the archive.
    pub fn temp_file_name(candidate: &str, version: &str, extension: &str) -> (name: String)
        ensures
            name@ == archive_file_name(candidate@, version@, extension@),
    {
        let mut name = String::from_str(candidate);
        name.append("-");
        name.append(version);
        name.append(".");
        name.append(extension);
        name
    }

    /// Starts the transfer of one version once the server has answered. A
    /// status that is no success is a network failure. Otherwise the transfer
    /// begins at zero bytes, towards the declared length (0 where none was
    /// declared), into a file named after candidate, version and the
    /// extension that the headers resolve to.
    pub fn download_sdk(candidate: &str, version: &str, response: &ResponseHead) -> (started:
        Result<Transfer, SdkError>)
        ensures
            match started {
                Ok(transfer) => {
                    &&& is_success(response.status)
                    &&& transfer.wf()
                    &&& transfer.candidate() == candidate@
                    &&& transfer.version() == version@
                    &&& transfer.file_name() == archive_file_name(
                        candidate@,
                        version@,
                        resolved_extension(
                            response.archive_type@,
                            response.content_disposition@,
                            response.content_type@,
                            candidate@,
                        ),
                    )
                    &&& transfer.meter() == fresh(
                        match response.content_length {
                            Some(n) => n as nat,
                            None => 0,
                        },
                    )
                },
                Err(e) => !is_success(response.status) && e == (SdkError::BadStatus {
                    code: response.status,
                }),
            },
    {
        if response.status < 200 || response.status >= 300 {
            return Err(SdkError::BadStatus { code: response.status });
        }
        let extension = Downloader::file_extension(
            response.archive_type.as_str(),
            response.content_disposition.as_str(),
            response.content_type.as_str(),
            candidate,
        );
        let total: u64 = match response.content_length {
            Some(n) => n,
            None => 0,
        };
        Ok(
            Transfer {
                candidate: String::from_str(candidate),
                version: String::from_str(version),
                file_name: Downloader::temp_file_name(candidate, version, extension.as_str()),
                total,
                downloaded: 0,
                reported: 0,
            },
        )
    }

    /// The plain variant, which fetches the whole body at once and reports
    /// nothing: the name of the file to write it to, always a `.zip`. A status
    /// that is no success is a network failure.
    pub fn download_sdk_simple(candidate: &str, version: &str, status: u16) -> (file: Result<
        String,
        SdkError,
    >)
        ensures
            match file {
                Ok(name) => is_success(status) && name@ == archive_file_name(
                    candidate@,
                    version@,
                    "zip"@,
                ),
                Err(e) => !is_success(status) && e == (SdkError::BadStatus { code: status }),
            },
    {
        if status < 200 || status >= 300 {
            return Err(SdkError::BadStatus { code: status });
        }
        Ok(Downloader::temp_file_name(candidate, version, "zip"))
    }
}

impl Transfer {
    /// No event reports more than has come in.
    pub open spec fn wf(&self) -> bool {
        self.meter().reported <= self.meter().downloaded
    }

    pub closed spec fn candidate(&self) -> Seq<char> {
        self.candidate@
    }

    pub closed spec fn version(&self) -> Seq<char> {
        self.version@
    }

    pub closed spec fn file_name(&self) -> Seq<char> {
        self.file_name@
    }

    pub closed spec fn meter(&self) -> Meter {
        Meter {
            total: self.total as nat,
            downloaded: self.downloaded as nat,
            reported: self.reported as nat,
        }
    }

    /// The name of the temporary file that the body goes to.
    pub fn target_file(&self) -> (name: String)
        ensures
            name@ == self.file_name(),
    {
        self.file_name.clone()
    }

    /// Bytes received so far.
    pub fn downloaded(&self) -> (n: u64)
        ensures
            n == self.meter().downloaded,
    {
        self.downloaded
    }

    /// Bytes that the server declared, 0 where it declared none.
    pub fn total(&self) -> (n: u64)
        ensures
            n == self.meter().total,
    {
        self.total
    }

    /// Counts a chunk of `chunk_len` bytes that was written to the file, and
    /// says whether to tell the user: an event is due when the bytes since the
    /// last one reach the interval or one hundredth of the declared total, or
    /// when the transfer is complete.
    pub fn receive(&mut self, chunk_len: u64) -> (event: Option<DownloadProgress>)
        requires
            old(self).wf(),
            old(self).meter().downloaded + chunk_len <= u64::MAX,
        ensures
            final(self).wf(),
            final(self).candidate() == old(self).candidate(),
            final(self).version() == old(self).version(),
            final(self).file_name() == old(self).file_name(),
            final(self).meter() == advance(old(self).meter(), chunk_len as nat),
            event is Some <==> due(old(self).meter(), chunk_len as nat),
            event matches Some(progress) ==> {
                &&& progress.candidate@ == old(self).candidate()
                &&& progress.version@ == old(self).version()
                &&& progress.downloaded == old(self).meter().downloaded + chunk_len
                &&& progress.total == old(self).meter().total
            },
    {
        let downloaded: u64 = self.downloaded + chunk_len;
        let since: u64 = downloaded - self.reported;
        let wide: u128 = since as u128;
        let by_bytes = since >= REPORT_INTERVAL_BYTES;
        let by_share = self.total > 0 && wide * 100 >= self.total as u128;
        let complete = downloaded == self.total;
        self.downloaded = downloaded;
        if by_bytes || by_share || complete {
            self.reported = downloaded;
            Some(
                DownloadProgress {
                    candidate: self.candidate.clone(),
                    version: self.version.clone(),
                    downloaded,
                    total: self.total,
                },
            )
        } else {
            None
        }
    }

    /// Ends the transfer once the file is flushed and closed: the size of the
    /// file on disk must be the number of bytes written to it. The result is
    /// the name of the file.
    pub fn finish(self, file_size: u64) -> (done: Result<String, SdkError>)
        ensures
            match done {
                Ok(name) => file_size == self.meter().downloaded && name@ == self.file_name(),
                Err(e) => file_size != self.meter().downloaded && e == (SdkError::SizeMismatch {
                    downloaded: self.meter().downloaded as u64,
                    on_disk: file_size,
                }),
            },
    {
        if file_size != self.downloaded {
            return Err(SdkError::SizeMismatch { downloaded: self.downloaded, on_disk: file_size });
        }
        Ok(self.file_name)
    }
}

impl DownloadProgress {
    /// The share of the declared total that has come in, in hundredths of a
    /// percent; 0 where no total was declared.
    pub open spec fn share_of(downloaded: nat, total: nat) -> nat {
        if total == 0 {
            0
        } else {
            downloaded * 10000 / total
        }
    }

    /// The share of the declared total that has come in, in hundredths of a
    /// percent; 0 where no total was declared.
    pub fn hundredths_of_percent(&self) -> (share: u128)
        ensures
            share == Self::share_of(self.downloaded as nat, self.total as nat),
    {
        if self.total == 0 {
            0
        } else {
            (self.downloaded as u128) * 10000 / (self.total as u128)
        }
    }
}

} // verus!

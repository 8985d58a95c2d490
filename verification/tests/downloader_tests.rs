use sdkman_gui::config::AppConfig;
use sdkman_gui::downloader::{
    DownloadProgress, Downloader, ResponseHead, Transfer, CONNECT_TIMEOUT_SECS, MAX_REDIRECTS,
    REPORT_INTERVAL_BYTES, TOTAL_TIMEOUT_SECS,
};
use sdkman_gui::error::{ErrorKind, SdkError};

fn head(status: u16, length: Option<u64>, kind: &str, content: &str, disposition: &str) -> ResponseHead {
    ResponseHead {
        status,
        content_length: length,
        archive_type: kind.to_string(),
        content_type: content.to_string(),
        content_disposition: disposition.to_string(),
    }
}

fn start(total: Option<u64>) -> Transfer {
    match Downloader::download_sdk("java", "21.0.1-tem", &head(200, total, "tar.gz", "", "")) {
        Ok(t) => t,
        Err(e) => panic!("unexpected {:?}", e),
    }
}

fn feed(transfer: &mut Transfer, chunks: &[u64]) -> Vec<DownloadProgress> {
    let mut events = Vec::new();
    for c in chunks {
        if let Some(e) = transfer.receive(*c) {
            events.push(e);
        }
    }
    events
}

#[test]
fn archive_type_hint_tgz_is_tar_gz() {
    assert_eq!(Downloader::file_extension("tgz", "", "", "java"), "tar.gz");
    assert_eq!(Downloader::file_extension("tgz", "a.zip", "application/zip", "gradle"), "tar.gz");
    assert_eq!(Downloader::file_extension("tar.gz", "", "", "gradle"), "tar.gz");
    assert_eq!(Downloader::file_extension("zip", "x.tar.gz", "application/gzip", "java"), "zip");
}

#[test]
fn other_archive_type_hint_passes_through() {
    assert_eq!(Downloader::file_extension("tar.xz", "a.zip", "application/zip", "gradle"), "tar.xz");
    assert_eq!(Downloader::file_extension("ZIP", "", "", "java"), "ZIP");
}

#[test]
fn no_hints_gradle_is_zip() {
    assert_eq!(Downloader::file_extension("", "", "", "gradle"), "zip");
    assert_eq!(Downloader::file_extension("", "", "", "maven"), "zip");
    assert_eq!(Downloader::file_extension("", "", "", "ant"), "zip");
    assert_eq!(Downloader::file_extension("", "inline", "application/octet-stream", "gradle"), "zip");
}

#[test]
fn no_hints_openjdk_is_tar_gz() {
    assert_eq!(Downloader::file_extension("", "", "", "openjdk"), "tar.gz");
    assert_eq!(Downloader::file_extension("", "", "", "java"), "tar.gz");
    assert_eq!(Downloader::file_extension("", "", "", "Gradle"), "tar.gz");
    assert_eq!(Downloader::file_extension("", "", "", ""), "tar.gz");
}

#[test]
fn content_disposition_comes_before_content_type() {
    assert_eq!(
        Downloader::file_extension("", "attachment; filename=jdk.tar.gz", "application/zip", "gradle"),
        "tar.gz"
    );
    assert_eq!(
        Downloader::file_extension("", "attachment; filename=jdk.tgz", "", "gradle"),
        "tar.gz"
    );
    assert_eq!(
        Downloader::file_extension("", "attachment; filename=gradle.zip", "application/x-gzip", "java"),
        "zip"
    );
    assert_eq!(
        Downloader::file_extension("", "attachment; filename=a.zip.tar.gz", "", "java"),
        "zip"
    );
}

#[test]
fn content_type_comes_before_candidate() {
    assert_eq!(Downloader::file_extension("", "", "application/zip", "java"), "zip");
    assert_eq!(Downloader::file_extension("", "", "application/x-zip-compressed", "java"), "zip");
    assert_eq!(Downloader::file_extension("", "", "application/gzip", "java"), "tar.gz");
    assert_eq!(Downloader::file_extension("", "", "application/gzip", "gradle"), "tar.gz");
    assert_eq!(Downloader::file_extension("", "", "application/x-gzip", "maven"), "tar.gz");
    assert_eq!(Downloader::file_extension("", "", "application/zip", "gradle"), "zip");
    assert_eq!(Downloader::file_extension("", "", "application/octet-stream", "java"), "tar.gz");
}

#[test]
fn gzip_content_names_the_file_of_a_build_tool_tar_gz() {
    let t = match Downloader::download_sdk("gradle", "8.5", &head(200, Some(10), "", "application/gzip", "")) {
        Ok(t) => t,
        Err(e) => panic!("unexpected {:?}", e),
    };
    assert_eq!(t.target_file(), "gradle-8.5.tar.gz");
}

#[test]
fn temp_file_is_named_after_candidate_and_version() {
    assert_eq!(Downloader::temp_file_name("java", "21.0.1-tem", "tar.gz"), "java-21.0.1-tem.tar.gz");
    assert_eq!(Downloader::temp_file_name("gradle", "8.5", "zip"), "gradle-8.5.zip");
}

#[test]
fn request_url_names_the_platform() {
    assert_eq!(
        Downloader::request_url("java", "21.0.1-tem", "linux", "x86_64"),
        "https://api.sdkman.io/2/broker/download/java/21.0.1-tem/linuxx64"
    );
}

#[test]
fn settings_have_long_timeouts() {
    let d = Downloader::new(&AppConfig::default(), Some("http://p:1".to_string()), None);
    assert_eq!(d.timeout_secs, 300);
    assert_eq!(d.connect_timeout_secs, 30);
    assert_eq!(d.max_redirects, 10);
    assert_eq!(d.proxy, None);
    assert_eq!(TOTAL_TIMEOUT_SECS, 300);
    assert_eq!(CONNECT_TIMEOUT_SECS, 30);
    assert_eq!(MAX_REDIRECTS, 10);
    assert_eq!(REPORT_INTERVAL_BYTES, 1024 * 1024);
    let mut config = AppConfig::default();
    config.proxy_type = "auto".to_string();
    let d = Downloader::new(&config, None, Some("http://p:1".to_string()));
    assert_eq!(d.proxy, Some("http://p:1".to_string()));
}

#[test]
fn bad_status_is_a_network_error() {
    for status in [199u16, 300, 302, 404, 500, 0] {
        match Downloader::download_sdk("java", "21", &head(status, Some(10), "zip", "", "")) {
            Ok(_) => panic!("status {} accepted", status),
            Err(e) => {
                assert_eq!(e, SdkError::BadStatus { code: status });
                assert_eq!(e.kind(), ErrorKind::Network);
            }
        }
        assert_eq!(
            Downloader::download_sdk_simple("java", "21", status),
            Err(SdkError::BadStatus { code: status })
        );
    }
}

#[test]
fn good_status_starts_a_transfer() {
    for status in [200u16, 204, 299] {
        let t = match Downloader::download_sdk(
            "gradle",
            "8.5",
            &head(status, Some(1000), "", "application/zip", ""),
        ) {
            Ok(t) => t,
            Err(e) => panic!("unexpected {:?}", e),
        };
        assert_eq!(t.target_file(), "gradle-8.5.zip");
        assert_eq!(t.total(), 1000);
        assert_eq!(t.downloaded(), 0);
    }
    assert_eq!(Downloader::download_sdk_simple("java", "21", 200), Ok("java-21.zip".to_string()));
}

#[test]
fn undeclared_length_counts_as_zero() {
    let t = start(None);
    assert_eq!(t.total(), 0);
    assert_eq!(t.target_file(), "java-21.0.1-tem.tar.gz");
}

#[test]
fn progress_is_throttled_for_ten_million_bytes() {
    let total: u64 = 10_000_000;
    let mut transfer = start(Some(total));
    let mut chunks = vec![8192u64; (total / 8192) as usize];
    chunks.push(total % 8192);
    assert_eq!(chunks.len(), 1221);
    let events = feed(&mut transfer, &chunks);
    assert_eq!(events.len(), 94);
    assert!(events.len() <= 101);
    assert_eq!(events[0].downloaded, 106496);
    assert_eq!(events[1].downloaded, 212992);
    let last = &events[events.len() - 1];
    assert_eq!(last.downloaded, total);
    assert_eq!(last.total, total);
    assert_eq!(last.hundredths_of_percent(), 10000);
    assert_eq!(last.candidate, "java");
    assert_eq!(last.version, "21.0.1-tem");
    assert_eq!(transfer.downloaded(), total);
    for pair in events.windows(2) {
        assert!(pair[0].downloaded < pair[1].downloaded);
    }
}

#[test]
fn one_byte_chunks_report_once_per_percent() {
    let mut transfer = start(Some(1000));
    let events = feed(&mut transfer, &vec![1u64; 1000]);
    assert_eq!(events.len(), 100);
    assert_eq!(events[0].downloaded, 10);
    assert_eq!(events[0].hundredths_of_percent(), 100);
    assert_eq!(events[99].downloaded, 1000);
}

#[test]
fn large_transfers_report_every_mebibyte() {
    let total: u64 = 300 * 1024 * 1024;
    let mut transfer = start(Some(total));
    let events = feed(&mut transfer, &vec![65536u64; 4800]);
    assert_eq!(events.len(), 300);
    assert_eq!(events[0].downloaded, 1024 * 1024);
    assert_eq!(events[299].downloaded, total);
}

#[test]
fn without_a_total_only_the_byte_interval_counts() {
    let mut transfer = start(None);
    let events = feed(&mut transfer, &[600_000, 600_000, 600_000, 600_000, 600_000]);
    assert_eq!(events.len(), 2);
    assert_eq!(events[0].downloaded, 1_200_000);
    assert_eq!(events[1].downloaded, 2_400_000);
    assert_eq!(events[0].total, 0);
    assert_eq!(events[0].hundredths_of_percent(), 0);
}

#[test]
fn a_single_chunk_that_completes_is_reported() {
    let mut transfer = start(Some(5));
    let events = feed(&mut transfer, &[5]);
    assert_eq!(events.len(), 1);
    assert_eq!(events[0].downloaded, 5);
    assert_eq!(events[0].hundredths_of_percent(), 10000);
}

#[test]
fn small_advance_is_not_reported() {
    let mut transfer = start(Some(10_000_000));
    assert!(transfer.receive(99_999).is_none());
    let e = transfer.receive(1);
    assert_eq!(e.map(|e| e.downloaded), Some(100_000));
    assert!(transfer.receive(1_048_575).is_some());
}

#[test]
fn finish_checks_the_size_on_disk() {
    let mut transfer = start(Some(100));
    feed(&mut transfer, &[40, 60]);
    assert_eq!(transfer.finish(100), Ok("java-21.0.1-tem.tar.gz".to_string()));
    let mut transfer = start(Some(100));
    feed(&mut transfer, &[40, 60]);
    let e = transfer.finish(99);
    assert_eq!(e, Err(SdkError::SizeMismatch { downloaded: 100, on_disk: 99 }));
    assert_eq!(SdkError::SizeMismatch { downloaded: 100, on_disk: 99 }.kind(), ErrorKind::Integrity);
}

#[test]
fn finish_compares_with_what_came_not_with_what_was_declared() {
    let mut transfer = start(Some(100));
    feed(&mut transfer, &[40]);
    assert_eq!(transfer.finish(40), Ok("java-21.0.1-tem.tar.gz".to_string()));
    let transfer = start(None);
    assert_eq!(transfer.finish(0), Ok("java-21.0.1-tem.tar.gz".to_string()));
}

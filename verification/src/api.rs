//! The remote catalog: where its listings and archives are found, and the
//! platform name that its addresses carry.

use vstd::prelude::*;
use crate::text::same_text;

verus! {

/// Root of every address of the catalog service.
pub const BASE_URL: &'static str = "https://api.sdkman.io/2";

/// What requests to the catalog say of their sender.
pub const USER_AGENT: &'static str = "SDKMAN-GUI/1.0 (Tauri)";

/// Seconds that a request for a listing may take.
pub const LISTING_TIMEOUT_SECS: u64 = 30;

/// Address of the list of candidates.
pub open spec fn candidates_list_url() -> Seq<char> {
    BASE_URL@ + "/candidates/list"@
}

/// Address of the list of versions of `candidate` for `platform`, given the
/// versions installed here (comma separated) and the one in use.
pub open spec fn versions_list_url(
    candidate: Seq<char>,
    platform: Seq<char>,
    installed: Seq<char>,
    current: Seq<char>,
) -> Seq<char> {
    BASE_URL@ + "/candidates/"@ + candidate + "/"@ + platform + "/versions/list?installed="@
        + installed + "&current="@ + current
}

/// Address from which the archive of one version is fetched.
pub open spec fn download_url(candidate: Seq<char>, version: Seq<char>, platform: Seq<char>) -> Seq<
    char,
> {
    BASE_URL@ + "/broker/download/"@ + candidate + "/"@ + version + "/"@ + platform
}

/// The catalog's name for an operating system, as Rust names it.
pub open spec fn os_prefix(os: Seq<char>) -> Seq<char> {
    if os == "windows"@ {
        "windows"@
    } else if os == "macos"@ {
        "darwin"@
    } else if os == "linux"@ {
        "linux"@
    } else {
        "universal"@
    }
}

/// The catalog's name for a processor architecture, as Rust names it. An
/// architecture that the catalog does not know counts as `x64`.
pub open spec fn arch_suffix(arch: Seq<char>) -> Seq<char> {
    if arch == "aarch64"@ {
        "arm64"@
    } else if arch == "arm"@ {
        "arm32hf"@
    } else if arch == "x86_64"@ {
        "x64"@
    } else if arch == "x86"@ {
        "x32"@
    } else {
        "x64"@
    }
}

/// The platform string of the catalog: operating system, then architecture.
pub open spec fn platform_of(os: Seq<char>, arch: Seq<char>) -> Seq<char> {
    os_prefix(os) + arch_suffix(arch)
}

/// Addresses of the catalog service.
pub struct ApiEndpoints;

impl ApiEndpoints {
    /// `GET /candidates/list`
    pub fn candidates_list() -> (url: String)
        ensures
            url@ == candidates_list_url(),
    {
        let mut url = String::from_str(BASE_URL);
        url.append("/candidates/list");
        url
    }

    /// `GET /candidates/{candidate}/{platform}/versions/list`
    pub fn versions_list(candidate: &str, platform: &str, installed: &str, current: &str) -> (url:
        String)
        ensures
            url@ == versions_list_url(candidate@, platform@, installed@, current@),
    {
        let mut url = String::from_str(BASE_URL);
        url.append("/candidates/");
        url.append(candidate);
        url.append("/");
        url.append(platform);
        url.append("/versions/list?installed=");
        url.append(installed);
        url.append("&current=");
        url.append(current);
        url
    }

    /// `GET /broker/download/{candidate}/{version}/{platform}`
    pub fn download(candidate: &str, version: &str, platform: &str) -> (url: String)
        ensures
            url@ == download_url(candidate@, version@, platform@),
    {
        let mut url = String::from_str(BASE_URL);
        url.append("/broker/download/");
        url.append(candidate);
        url.append("/");
        url.append(version);
        url.append("/");
        url.append(platform);
        url
    }
}

/// The platform string for the operating system and architecture that the
/// program was built for, each under the name Rust gives it
/// (`std::env::consts::OS` and `ARCH`).
pub fn detect_platform(os: &str, arch: &str) -> (platform: String)
    ensures
        platform@ == platform_of(os@, arch@),
{
    let prefix = if same_text(os, "windows") {
        "windows"
    } else if same_text(os, "macos") {
        "darwin"
    } else if same_text(os, "linux") {
        "linux"
    } else {
        "universal"
    };
    let suffix = if same_text(arch, "aarch64") {
        "arm64"
    } else if same_text(arch, "arm") {
        "arm32hf"
    } else if same_text(arch, "x86_64") {
        "x64"
    } else if same_text(arch, "x86") {
        "x32"
    } else {
        "x64"
    };
    let mut platform = String::from_str(prefix);
    platform.append(suffix);
    platform
}

} // verus!

//! Settings that the user keeps, as far as the library reads them.

use vstd::prelude::*;
use crate::text::same_text;

verus! {

/// The user's settings.
#[derive(Clone, Debug)]
pub struct AppConfig {
    /// How to reach the network: `none`, `auto` or `manual`.
    pub proxy_type: String,
    /// Host of a manual proxy.
    pub proxy_host: Option<String>,
    /// The number that a manual proxy listens on.
    pub proxy_port: Option<String>,
    /// `light`, `dark` or `auto`.
    pub theme: String,
    /// `en`, `zh` or `auto`.
    pub language: String,
    /// Where the SDKs are kept.
    pub sdkman_path: String,
}

/// The address of a manual proxy.
pub open spec fn manual_proxy_url(host: Seq<char>, port: Seq<char>) -> Seq<char> {
    "http://"@ + host + ":"@ + port
}

/// The proxy that the settings ask for, if any. With `manual` it is made of
/// host and port, where both are set. With `auto` it is what the environment
/// names: `upper` is the value of `HTTP_PROXY`, `lower` that of `http_proxy`,
/// and the first one set counts.
pub open spec fn proxy_url_of(
    proxy_type: Seq<char>,
    host: Option<Seq<char>>,
    port: Option<Seq<char>>,
    upper: Option<Seq<char>>,
    lower: Option<Seq<char>>,
) -> Option<Seq<char>> {
    if proxy_type == "manual"@ {
        if host is Some && port is Some {
            Some(manual_proxy_url(host->0, port->0))
        } else {
            None
        }
    } else if proxy_type == "auto"@ {
        if upper is Some {
            upper
        } else {
            lower
        }
    } else {
        None
    }
}

/// The characters of an optional string.
pub open spec fn option_view(s: Option<String>) -> Option<Seq<char>> {
    match s {
        Some(s) => Some(s@),
        None => None,
    }
}

impl Default for AppConfig {
    fn default() -> (config: AppConfig)
        ensures
            config.proxy_type@ == "none"@,
            config.proxy_host is None,
            config.proxy_port is None,
            config.theme@ == "auto"@,
            config.language@ == "auto"@,
            config.sdkman_path@ == "~/.sdkman"@,
    {
        AppConfig {
            proxy_type: String::from_str("none"),
            proxy_host: None,
            proxy_port: None,
            theme: String::from_str("auto"),
            language: String::from_str("auto"),
            sdkman_path: String::from_str("~/.sdkman"),
        }
    }
}

impl AppConfig {
    /// The proxy to send requests through, if any. `upper` and `lower` are the
    /// values of the environment variables `HTTP_PROXY` and `http_proxy`, which
    /// count only where the proxy type is `auto`.
    pub fn get_proxy_url(&self, upper: Option<String>, lower: Option<String>) -> (url: Option<
        String,
    >)
        ensures
            option_view(url) == proxy_url_of(
                self.proxy_type@,
                option_view(self.proxy_host),
                option_view(self.proxy_port),
                option_view(upper),
                option_view(lower),
            ),
    {
        if same_text(self.proxy_type.as_str(), "manual") {
            match (&self.proxy_host, &self.proxy_port) {
                (Some(host), Some(port)) => {
                    let mut url = String::from_str("http://");
                    url.append(host.as_str());
                    url.append(":");
                    url.append(port.as_str());
                    Some(url)
                },
                _ => None,
            }
        } else if same_text(self.proxy_type.as_str(), "auto") {
            match upper {
                Some(value) => Some(value),
                None => lower,
            }
        } else {
            None
        }
    }
}


/// The file that keeps the versions of the Java candidate.
pub const JDK_VERSIONS_CACHE: &'static str = "jdk_versions.json";

/// The file that keeps the list of candidates.
pub const SDK_CANDIDATES_CACHE: &'static str = "sdk_candidates.json";

/// The directory of the program's own files, below the user's home directory.
pub open spec fn config_dir_of(home: Seq<char>) -> Seq<char> {
    home + "/.config/sdkman-gui"@
}

/// The file that keeps the settings.
pub open spec fn settings_path_of(home: Seq<char>) -> Seq<char> {
    config_dir_of(home) + "/settings.json"@
}

/// The directory that keeps the listings of the catalog.
pub open spec fn cache_dir_of(home: Seq<char>) -> Seq<char> {
    config_dir_of(home) + "/cache"@
}

/// The name of the file that keeps the versions of a candidate.
pub open spec fn versions_cache_name(candidate: Seq<char>) -> Seq<char> {
    candidate + "_versions.json"@
}

/// The directory of the program's own files.
pub fn config_dir(home: &str) -> (path: String)
    ensures
        path@ == config_dir_of(home@),
{
    let mut path = String::from_str(home);
    path.append("/.config/sdkman-gui");
    path
}

/// The file that keeps the settings.
pub fn settings_path(home: &str) -> (path: String)
    ensures
        path@ == settings_path_of(home@),
{
    let mut path = config_dir(home);
    path.append("/settings.json");
    path
}

/// The directory that keeps the listings of the catalog.
pub fn cache_dir(home: &str) -> (path: String)
    ensures
        path@ == cache_dir_of(home@),
{
    let mut path = config_dir(home);
    path.append("/cache");
    path
}

/// The name of the file that keeps the versions of a candidate.
pub fn versions_cache_file(candidate: &str) -> (name: String)
    ensures
        name@ == versions_cache_name(candidate@),
{
    let mut name = String::from_str(candidate);
    name.append("_versions.json");
    name
}

} // verus!

//! What the catalog offers: candidates, their versions, and the categories
//! that both are filed under.

use vstd::prelude::*;
use crate::std_text::lowercase;
use crate::text::{
    chars_of,
    contains,
    contains_text,
    holds_any,
    holds_any_of,
    is_any_of,
    names_any,
};

verus! {

/// What kind of product a candidate is.
#[derive(Debug, Clone, Copy, PartialEq, Eq, Structural)]
pub enum Category {
    Languages,
    BuildTools,
    Frameworks,
    Servers,
    Mq,
    Tools,
    Other,
}

/// A product that can be installed.
#[derive(Debug, Clone)]
pub struct Sdk {
    /// The short name that commands take.
    pub candidate: String,
    pub name: String,
    pub description: String,
    pub website: Option<String>,
    pub latest_version: Option<String>,
    pub installed_version: Option<String>,
    pub installed: bool,
    pub category: Category,
}

/// What a JDK build brings along.
#[derive(Debug, Clone, Copy, PartialEq, Eq, Hash, Structural)]
pub enum JdkCategory {
    /// A plain JDK.
    Jdk,
    /// A JDK with JavaFX.
    JavaFx,
    /// A native image kit.
    Nik,
}

/// One version of a candidate.
#[derive(Debug, Clone)]
pub struct SdkVersion {
    pub version: String,
    /// What commands take, such as `21.0.9-amzn`.
    pub identifier: String,
    pub vendor: String,
    /// No category stands twice.
    pub categories: Vec<JdkCategory>,
    pub candidate: String,
    pub installed: bool,
    pub is_default: bool,
    pub in_use: bool,
    /// Set by the presentation layer only.
    pub installing: Option<bool>,
    /// Set by the presentation layer only.
    pub install_progress: Option<String>,
}

/// Counts for the front page.
#[derive(Debug, Clone, Copy, PartialEq, Eq, Structural)]
pub struct Statistics {
    pub jdk_installed: usize,
    pub jdk_available: usize,
    pub sdk_installed: usize,
    pub sdk_available: usize,
}

pub open spec fn language_names() -> Seq<&'static str> {
    seq![
        "java",
        "kotlin",
        "scala",
        "groovy",
        "clojure",
        "jruby",
        "jython",
        "ceylon",
        "ballerina",
        "crash",
        "sbl",
    ]
}

pub open spec fn build_tool_names() -> Seq<&'static str> {
    seq!["maven", "mvnd", "gradle", "sbt", "ant", "bld"]
}

pub open spec fn framework_names() -> Seq<&'static str> {
    seq!["springboot", "micronaut", "quarkus", "vertx"]
}

pub open spec fn server_names() -> Seq<&'static str> {
    seq![
        "tomcat",
        "jetty",
        "payara",
        "wildfly",
        "tomee",
        "liberty",
        "glowroot",
        "tackle",
        "akka",
    ]
}

pub open spec fn mq_names() -> Seq<&'static str> {
    seq!["activemq", "kcctl"]
}

pub open spec fn tool_names() -> Seq<&'static str> {
    seq![
        "visualvm",
        "jmc",
        "jmeter",
        "gatling",
        "selenide",
        "cucumber",
        "testng",
        "mockito",
        "asciidoctorj",
        "jbang",
        "lombok",
        "cdi",
        "jakartaee",
        "leiningen",
        "helidon",
        "apache",
        "zookeeper",
        "consul",
        "etcd",
        "redis",
    ]
}

pub open spec fn language_words() -> Seq<&'static str> {
    seq!["programming language", "jvm language", "language", "compiler"]
}

pub open spec fn build_tool_words() -> Seq<&'static str> {
    seq!["build tool", "build automation", "project management"]
}

pub open spec fn framework_words() -> Seq<&'static str> {
    seq!["framework", "microframework", "application framework"]
}

pub open spec fn server_words() -> Seq<&'static str> {
    seq!["server", "application server", "servlet container", "web server"]
}

pub open spec fn tool_words() -> Seq<&'static str> {
    seq!["tool", "utility", "monitoring", "testing", "debugging", "documentation"]
}

pub open spec fn language_marks() -> Seq<&'static str> {
    seq!["lang", "language"]
}

pub open spec fn build_tool_marks() -> Seq<&'static str> {
    seq!["build", "gradle", "maven", "ant"]
}

pub open spec fn framework_marks() -> Seq<&'static str> {
    seq!["framework", "spring", "micro", "quarkus"]
}

pub open spec fn server_marks() -> Seq<&'static str> {
    seq!["server", "tomcat", "jetty", "wildfly"]
}

/// The category of a candidate, from its name and its description, both in
/// lower case. A name that is known decides. Else the description does, by
/// the words it holds; else a part of the name; else the category is `Other`.
pub open spec fn category_of(name: Seq<char>, description: Seq<char>) -> Category {
    if names_any(name, language_names()) {
        Category::Languages
    } else if names_any(name, build_tool_names()) {
        Category::BuildTools
    } else if names_any(name, framework_names()) {
        Category::Frameworks
    } else if names_any(name, server_names()) {
        Category::Servers
    } else if names_any(name, mq_names()) {
        Category::Mq
    } else if names_any(name, tool_names()) {
        Category::Tools
    } else if holds_any(description, language_words()) {
        Category::Languages
    } else if holds_any(description, build_tool_words()) {
        Category::BuildTools
    } else if holds_any(description, framework_words()) {
        Category::Frameworks
    } else if holds_any(description, server_words()) {
        Category::Servers
    } else if holds_any(description, tool_words()) {
        Category::Tools
    } else if holds_any(name, language_marks()) {
        Category::Languages
    } else if holds_any(name, build_tool_marks()) {
        Category::BuildTools
    } else if holds_any(name, framework_marks()) {
        Category::Frameworks
    } else if holds_any(name, server_marks()) {
        Category::Servers
    } else {
        Category::Other
    }
}

/// The categories of a JDK build whose identifier, in lower case, is `lower`:
/// JavaFX where it holds `.fx`, native image kit where it holds `-nik`, and a
/// plain JDK where it holds neither.
pub open spec fn jdk_tags(lower: Seq<char>) -> Seq<JdkCategory> {
    let fx = contains_text(lower, ".fx"@);
    let nik = contains_text(lower, "-nik"@);
    if fx && nik {
        seq![JdkCategory::JavaFx, JdkCategory::Nik]
    } else if fx {
        seq![JdkCategory::JavaFx]
    } else if nik {
        seq![JdkCategory::Nik]
    } else {
        seq![JdkCategory::Jdk]
    }
}

impl Category {
    /// The category of a candidate, from its name and its description in any
    /// case.
    pub fn from_name(candidate: &str, description: &str) -> (category: Category)
        ensures
            category == category_of(lowercase(candidate@), lowercase(description@)),
    {
        let name = candidate.to_lowercase();
        let words = description.to_lowercase();
        Category::from_lowercase(name.as_str(), words.as_str())
    }

    /// The category of a candidate, from its name and its description, both
    /// already in lower case.
    pub fn from_lowercase(name: &str, description: &str) -> (category: Category)
        ensures
            category == category_of(name@, description@),
    {
        let name = chars_of(name);
        if is_any_of(
            &name,
            &vec![
                "java",
                "kotlin",
                "scala",
                "groovy",
                "clojure",
                "jruby",
                "jython",
                "ceylon",
                "ballerina",
                "crash",
                "sbl",
            ],
        ) {
            return Category::Languages;
        }
        if is_any_of(&name, &vec!["maven", "mvnd", "gradle", "sbt", "ant", "bld"]) {
            return Category::BuildTools;
        }
        if is_any_of(&name, &vec!["springboot", "micronaut", "quarkus", "vertx"]) {
            return Category::Frameworks;
        }
        if is_any_of(
            &name,
            &vec![
                "tomcat",
                "jetty",
                "payara",
                "wildfly",
                "tomee",
                "liberty",
                "glowroot",
                "tackle",
                "akka",
            ],
        ) {
            return Category::Servers;
        }
        if is_any_of(&name, &vec!["activemq", "kcctl"]) {
            return Category::Mq;
        }
        if is_any_of(
            &name,
            &vec![
                "visualvm",
                "jmc",
                "jmeter",
                "gatling",
                "selenide",
                "cucumber",
                "testng",
                "mockito",
                "asciidoctorj",
                "jbang",
                "lombok",
                "cdi",
                "jakartaee",
                "leiningen",
                "helidon",
                "apache",
                "zookeeper",
                "consul",
                "etcd",
                "redis",
            ],
        ) {
            return Category::Tools;
        }
        let description = chars_of(description);
        if holds_any_of(
            &description,
            &vec!["programming language", "jvm language", "language", "compiler"],
        ) {
            return Category::Languages;
        }
        if holds_any_of(
            &description,
            &vec!["build tool", "build automation", "project management"],
        ) {
            return Category::BuildTools;
        }
        if holds_any_of(
            &description,
            &vec!["framework", "microframework", "application framework"],
        ) {
            return Category::Frameworks;
        }
        if holds_any_of(
            &description,
            &vec!["server", "application server", "servlet container", "web server"],
        ) {
            return Category::Servers;
        }
        if holds_any_of(
            &description,
            &vec!["tool", "utility", "monitoring", "testing", "debugging", "documentation"],
        ) {
            return Category::Tools;
        }
        if holds_any_of(&name, &vec!["lang", "language"]) {
            return Category::Languages;
        }
        if holds_any_of(&name, &vec!["build", "gradle", "maven", "ant"]) {
            return Category::BuildTools;
        }
        if holds_any_of(&name, &vec!["framework", "spring", "micro", "quarkus"]) {
            return Category::Frameworks;
        }
        if holds_any_of(&name, &vec!["server", "tomcat", "jetty", "wildfly"]) {
            return Category::Servers;
        }
        Category::Other
    }
}

impl JdkCategory {
    /// The categories of a JDK build, from its identifier in any case. An
    /// empty identifier is a plain JDK.
    pub fn from_identifier(identifier: &str) -> (categories: Vec<JdkCategory>)
        ensures
            categories@ == if identifier@.len() == 0 {
                seq![JdkCategory::Jdk]
            } else {
                jdk_tags(lowercase(identifier@))
            },
            categories@.no_duplicates(),
    {
        if identifier.unicode_len() == 0 {
            let only = vec![JdkCategory::Jdk];
            return only;
        }
        let lower = identifier.to_lowercase();
        JdkCategory::from_lowercase(lower.as_str())
    }

    /// The categories of a JDK build, from its identifier in lower case.
    pub fn from_lowercase(lower: &str) -> (categories: Vec<JdkCategory>)
        ensures
            categories@ == jdk_tags(lower@),
            categories@.no_duplicates(),
    {
        let text = chars_of(lower);
        let mut categories: Vec<JdkCategory> = Vec::new();
        if contains(&text, &chars_of(".fx")) {
            categories.push(JdkCategory::JavaFx);
        }
        if contains(&text, &chars_of("-nik")) {
            categories.push(JdkCategory::Nik);
        }
        if categories.len() == 0 {
            categories.push(JdkCategory::Jdk);
        }
        categories
    }
}


/// A candidate, over plain values.
pub struct SdkView {
    pub candidate: Seq<char>,
    pub name: Seq<char>,
    pub description: Seq<char>,
    pub website: Option<Seq<char>>,
    pub latest_version: Option<Seq<char>>,
    pub installed_version: Option<Seq<char>>,
    pub installed: bool,
    pub category: Category,
}

/// A version, over plain values.
pub struct SdkVersionView {
    pub version: Seq<char>,
    pub identifier: Seq<char>,
    pub vendor: Seq<char>,
    pub categories: Seq<JdkCategory>,
    pub candidate: Seq<char>,
    pub installed: bool,
    pub is_default: bool,
    pub in_use: bool,
    pub installing: Option<bool>,
    pub install_progress: Option<Seq<char>>,
}

impl View for Sdk {
    type V = SdkView;

    open spec fn view(&self) -> SdkView {
        SdkView {
            candidate: self.candidate@,
            name: self.name@,
            description: self.description@,
            website: crate::config::option_view(self.website),
            latest_version: crate::config::option_view(self.latest_version),
            installed_version: crate::config::option_view(self.installed_version),
            installed: self.installed,
            category: self.category,
        }
    }
}

impl View for SdkVersion {
    type V = SdkVersionView;

    open spec fn view(&self) -> SdkVersionView {
        SdkVersionView {
            version: self.version@,
            identifier: self.identifier@,
            vendor: self.vendor@,
            categories: self.categories@,
            candidate: self.candidate@,
            installed: self.installed,
            is_default: self.is_default,
            in_use: self.in_use,
            installing: self.installing,
            install_progress: crate::config::option_view(self.install_progress),
        }
    }
}

/// An entry of the tray's menu.
#[derive(Debug, Clone)]
pub struct TrayMenuItem {
    pub id: String,
    pub label: String,
}

/// The versions of a candidate as the catalog listed them at some time.
#[derive(Debug, Clone)]
pub struct SdkVersionsCache {
    pub candidate: String,
    pub versions: Vec<SdkVersion>,
    /// Seconds since the epoch.
    pub timestamp: u64,
}

} // verus!

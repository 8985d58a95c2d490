use sdkman_gui::models::{Category, JdkCategory, SdkVersion};
use sdkman_gui::parser::{ParseError, ResponseParser, VENDOR_HEADER_NAME};

const CANDIDATES: &str = "\
================================================================================
Available Candidates
================================================================================
q-quit                                  /-search down
j-down                                  ?-search up
k-up                                    h-help

--------------------------------------------------------------------------------
Apache ActiveMQ (Classic) (5.17.1)                  https://activemq.apache.org/

Apache ActiveMQ\u{ae} is a popular open source, multi-protocol, Java-based message
broker. It supports industry standard protocols so users get the benefits of
client choices across a broad range of languages and platforms.

                                                          $ sdk install activemq
--------------------------------------------------------------------------------
Gradle (8.5)                                                 https://gradle.org/

Gradle is a build automation tool that builds upon the concepts of Apache Ant
and Apache Maven.

                                                            $ sdk install gradle
--------------------------------------------------------------------------------
Plain

No website and no version here.

                                                             $ sdk install plain
--------------------------------------------------------------------------------
";

const JAVA: &str = "\
================================================================================
Available Java Versions for Linux 64bit
================================================================================
 Vendor        | Use | Version      | Dist    | Status     | Identifier
--------------------------------------------------------------------------------
 Corretto      |     | 21.0.9       | amzn    |            | 21.0.9-amzn
               | >>> | 17.0.17      | amzn    | installed  | 17.0.17-amzn
               |  *  | 11.0.29      | amzn    |            | 11.0.29-amzn
 Liberica NIK  |     | 25.0.1.r25   | nik     |            | 25.0.1.r25-nik
               |     | 23.fx        | librca  | local only | 23.0.2.fx-librca
 Broken        |     | 1.0          | none    |            |
               |     | 2.0          | none    |            | 2.0-none
================================================================================
Omit Identifier to install default version 21.0.9-tem:
    $ sdk install java
================================================================================
";

const GRADLE: &str = "\
================================================================================
Available Gradle Versions
================================================================================
 > * 8.5                 8.1.1               7.4                 6.5.1
   * 8.4                 8.1                 7.3.3               6.5
     8.3                 8.0.2

================================================================================
+ - local version
* - installed
> - currently in use
================================================================================
";

fn flags(v: &SdkVersion) -> (bool, bool, bool) {
    (v.installed, v.is_default, v.in_use)
}

#[test]
fn empty_candidate_list_has_no_candidates() {
    assert_eq!(ResponseParser::parse_candidates("").map(|v| v.len()), Ok(0));
    assert_eq!(ResponseParser::parse_candidates("  \n\t \r\n").map(|v| v.len()), Ok(0));
    assert_eq!(ResponseParser::parse_candidates("no blocks here\n").map(|v| v.len()), Ok(0));
}

#[test]
fn candidates_are_read_block_by_block() {
    let sdks = ResponseParser::parse_candidates(CANDIDATES).unwrap();
    assert_eq!(sdks.len(), 3);
    let a = &sdks[0];
    assert_eq!(a.candidate, "activemq");
    assert_eq!(a.name, "Apache ActiveMQ (Classic)");
    assert_eq!(a.latest_version, Some("5.17.1".to_string()));
    assert_eq!(a.website, Some("https://activemq.apache.org/".to_string()));
    assert_eq!(
        a.description,
        "Apache ActiveMQ\u{ae} is a popular open source, multi-protocol, Java-based message \
broker. It supports industry standard protocols so users get the benefits of \
client choices across a broad range of languages and platforms."
    );
    assert_eq!(a.category, Category::Mq);
    assert_eq!(a.installed_version, None);
    assert!(!a.installed);
    let g = &sdks[1];
    assert_eq!(g.candidate, "gradle");
    assert_eq!(g.name, "Gradle");
    assert_eq!(g.latest_version, Some("8.5".to_string()));
    assert_eq!(g.website, Some("https://gradle.org/".to_string()));
    assert_eq!(g.category, Category::BuildTools);
    assert_eq!(
        g.description,
        "Gradle is a build automation tool that builds upon the concepts of Apache Ant and Apache Maven."
    );
    let p = &sdks[2];
    assert_eq!(p.candidate, "plain");
    assert_eq!(p.name, "Plain");
    assert_eq!(p.latest_version, None);
    assert_eq!(p.website, None);
    assert_eq!(p.description, "No website and no version here.");
    assert_eq!(p.category, Category::Other);
}

#[test]
fn candidates_with_carriage_returns() {
    let text = "---\r\nScala (3.3.1)   https://www.scala-lang.org/\r\n\r\nA language.\r\n\r\n   $ sdk install scala\r\n---\r\n";
    let sdks = ResponseParser::parse_candidates(text).unwrap();
    assert_eq!(sdks.len(), 1);
    assert_eq!(sdks[0].candidate, "scala");
    assert_eq!(sdks[0].name, "Scala");
    assert_eq!(sdks[0].latest_version, Some("3.3.1".to_string()));
    assert_eq!(sdks[0].website, Some("https://www.scala-lang.org/".to_string()));
    assert_eq!(sdks[0].description, "A language.");
    assert_eq!(sdks[0].category, Category::Languages);
}

#[test]
fn candidates_from_given_groups() {
    let block = |a: &str, b: &str, c: &str| {
        vec![Some("whole".to_string()), Some(a.to_string()), Some(b.to_string()), Some(c.to_string())]
    };
    let found = vec![
        block("  Name (old) (1.0) http://a http://b  ", " first\nsecond ", " id "),
        block("Name )1.0(", "", "x"),
        block("(2.0)", "a testing tool", "y"),
        vec![Some("whole".to_string()), None],
    ];
    let sdks = ResponseParser::candidates_from(&found);
    assert_eq!(sdks.len(), 4);
    assert_eq!(sdks[0].website, Some("http://b".to_string()));
    assert_eq!(sdks[0].latest_version, Some("1.0".to_string()));
    assert_eq!(sdks[0].name, "Name (old)");
    assert_eq!(sdks[0].description, "first second");
    assert_eq!(sdks[0].candidate, "id");
    assert_eq!(sdks[1].name, "Name )1.0(");
    assert_eq!(sdks[1].latest_version, None);
    assert_eq!(sdks[2].name, "");
    assert_eq!(sdks[2].latest_version, Some("2.0".to_string()));
    assert_eq!(sdks[2].category, Category::Tools);
    assert_eq!(sdks[3].candidate, "");
    assert_eq!(sdks[3].name, "");
    assert_eq!(sdks[3].description, "");
    assert_eq!(sdks[3].category, Category::Other);
}

#[test]
fn empty_version_list_has_no_versions() {
    assert_eq!(ResponseParser::parse_versions("", "java").map(|v| v.len()), Ok(0));
    assert_eq!(ResponseParser::parse_versions(" \n ", "gradle").map(|v| v.len()), Ok(0));
}

#[test]
fn java_table_is_read_row_by_row() {
    assert_eq!(VENDOR_HEADER_NAME, "Vendor");
    let versions = ResponseParser::parse_versions(JAVA, "java").unwrap();
    let ids: Vec<&str> = versions.iter().map(|v| v.identifier.as_str()).collect();
    assert_eq!(
        ids,
        vec!["21.0.9-amzn", "17.0.17-amzn", "11.0.29-amzn", "25.0.1.r25-nik", "23.0.2.fx-librca", "2.0-none"]
    );
    let vendors: Vec<&str> = versions.iter().map(|v| v.vendor.as_str()).collect();
    assert_eq!(vendors, vec!["Corretto", "Corretto", "Corretto", "Liberica NIK", "Liberica NIK", "Broken"]);
    let numbers: Vec<&str> = versions.iter().map(|v| v.version.as_str()).collect();
    assert_eq!(numbers, vec!["21.0.9", "17.0.17", "11.0.29", "25.0.1.r25", "23.fx", "2.0"]);
    assert_eq!(flags(&versions[0]), (false, false, false));
    assert_eq!(flags(&versions[1]), (true, true, true));
    assert_eq!(flags(&versions[2]), (true, false, false));
    assert_eq!(flags(&versions[4]), (false, false, false));
    assert_eq!(versions[0].categories, vec![JdkCategory::Jdk]);
    assert_eq!(versions[3].categories, vec![JdkCategory::Nik]);
    assert_eq!(versions[4].categories, vec![JdkCategory::JavaFx]);
    for v in versions.iter() {
        assert_eq!(v.candidate, "java");
        assert_eq!(v.installing, None);
        assert_eq!(v.install_progress, None);
    }
}

#[test]
fn java_rows_from_given_groups() {
    let row = |cols: [&str; 6]| {
        let mut groups = vec![Some("whole".to_string())];
        for c in cols.iter() {
            groups.push(Some(c.to_string()));
        }
        groups
    };
    let found = vec![
        row(["", "", "1", "", "", " a-1 "]),
        row([" Vendor ", "Use", "Version", "Dist", "Status", "Identifier"]),
        row([" Tem ", "", "2", "", "", ""]),
        row(["", " > ", "3", "", "", "b.FX-NIK"]),
        row(["", "", "4", "", "not installed", "c"]),
    ];
    let versions = ResponseParser::java_versions_from(&found, "java");
    assert_eq!(versions.len(), 3);
    assert_eq!(versions[0].identifier, "a-1");
    assert_eq!(versions[0].vendor, "");
    assert_eq!(versions[1].identifier, "b.FX-NIK");
    assert_eq!(versions[1].vendor, "Tem");
    assert_eq!(flags(&versions[1]), (false, true, true));
    assert_eq!(versions[1].categories, vec![JdkCategory::JavaFx, JdkCategory::Nik]);
    assert_eq!(flags(&versions[2]), (true, false, false));
}

#[test]
fn plain_table_is_read_word_by_word() {
    let versions = ResponseParser::parse_versions(GRADLE, "gradle").unwrap();
    let ids: Vec<&str> = versions.iter().map(|v| v.identifier.as_str()).collect();
    assert_eq!(ids, vec!["8.5", "8.1.1", "7.4", "6.5.1", "8.4", "8.1", "7.3.3", "6.5", "8.3", "8.0.2"]);
    assert_eq!(flags(&versions[0]), (true, true, true));
    assert_eq!(flags(&versions[1]), (false, false, false));
    assert_eq!(flags(&versions[4]), (true, false, false));
    assert_eq!(flags(&versions[5]), (false, false, false));
    assert_eq!(flags(&versions[8]), (false, false, false));
    for v in versions.iter() {
        assert_eq!(v.version, v.identifier);
        assert_eq!(v.vendor, "");
        assert!(v.categories.is_empty());
        assert_eq!(v.candidate, "gradle");
    }
}

#[test]
fn plain_table_marks_and_short_lines() {
    let text = "h1\nh2\nh3\n >\n  *  \n > 1.0 2.0\n1234567 8\n\n=====\n 9.9\n";
    let versions = ResponseParser::parse_other_versions(text, "x").unwrap();
    let ids: Vec<&str> = versions.iter().map(|v| v.identifier.as_str()).collect();
    assert_eq!(ids, vec!["0", "2.0", "67", "8"]);
    assert_eq!(flags(&versions[0]), (true, true, true));
    assert_eq!(flags(&versions[2]), (false, false, false));
}

#[test]
fn plain_table_stops_at_the_rule_only_after_the_head() {
    let text = "=====\n=====\n=====\n     1.0\n  =====\n     2.0\n";
    let versions = ResponseParser::parse_other_versions(text, "x").unwrap();
    assert_eq!(versions.len(), 1);
    assert_eq!(versions[0].identifier, "1.0");
}

#[test]
fn plain_table_counts_the_marks_in_bytes() {
    let text = "h\nh\nh\n \u{e9} * 1.0 2.0\n";
    let versions = ResponseParser::parse_other_versions(text, "x").unwrap();
    let ids: Vec<&str> = versions.iter().map(|v| v.identifier.as_str()).collect();
    assert_eq!(ids, vec!["1.0", "2.0"]);
    assert_eq!(flags(&versions[0]), (true, false, false));
    let text = "h\nh\nh\n  \u{e9}*1.0 2.0\n";
    let versions = ResponseParser::parse_other_versions(text, "x").unwrap();
    let ids: Vec<&str> = versions.iter().map(|v| v.identifier.as_str()).collect();
    assert_eq!(ids, vec!["1.0", "2.0"]);
    assert_eq!(flags(&versions[0]), (true, false, false));
}

#[test]
fn plain_table_refuses_a_split_character() {
    let text = "h\nh\nh\n    \u{e9} 1.0\n";
    assert_eq!(ResponseParser::parse_other_versions(text, "x").map(|v| v.len()), Err(ParseError::MarkerSplit));
    let text = "h\nh\nh\n   \u{20ac}\n";
    assert_eq!(ResponseParser::parse_other_versions(text, "x").map(|v| v.len()), Err(ParseError::MarkerSplit));
    let text = "h\nh\nh\n   \u{e9}\n";
    assert_eq!(ResponseParser::parse_other_versions(text, "x").map(|v| v.len()), Ok(0));
}

#[test]
fn a_table_with_bars_but_without_the_vendor_head_is_plain() {
    let text = "a|b|c|d|e|f\nh\nh\n     1.0\n";
    let versions = ResponseParser::parse_versions(text, "x").unwrap();
    assert_eq!(versions.len(), 1);
    assert_eq!(versions[0].identifier, "1.0");
    let text = "Vendor\nh\nh\n     1.0\n";
    let versions = ResponseParser::parse_versions(text, "x").unwrap();
    assert_eq!(versions.len(), 1);
}

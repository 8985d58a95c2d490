use sdkman_gui::error::{ErrorKind, SdkError};
use sdkman_gui::scanner::LocalScanner;
use sdkman_gui::store::{ActiveLink, CandidateDir, Listed, PathKind};

fn row(name: &str, is_dir: bool) -> Listed {
    Listed { name: name.to_string(), is_dir, is_empty: false }
}

fn dir(name: &str, versions: &[&str], link: ActiveLink) -> CandidateDir {
    let rows: Vec<Listed> = versions.iter().map(|v| row(v, true)).collect();
    CandidateDir::from_listing(name, &rows, link)
}

fn inside(name: &str, kind: PathKind) -> ActiveLink {
    ActiveLink::To { name: Some(name.to_string()), inside: true, kind }
}

#[test]
fn test_get_sdkman_dir() {
    let result = LocalScanner::get_sdkman_dir(Some("/home/user"));
    assert!(result.is_ok());
    let path = result.unwrap();
    assert!(path.contains(".sdkman"));
}

#[test]
fn test_scan_installed_versions() {
    let result = LocalScanner::scan_installed_versions(&CandidateDir::missing("java"));
    assert!(result.is_ok());
}

#[test]
fn test_get_current_version() {
    let result = LocalScanner::get_current_version(&CandidateDir::missing("java"));
    assert!(result.is_ok());
}

#[test]
fn sdkman_dir_needs_a_home() {
    assert_eq!(LocalScanner::get_sdkman_dir(Some("/home/user")), Ok("/home/user/.sdkman".to_string()));
    assert_eq!(LocalScanner::get_sdkman_dir(None), Err(SdkError::HomeMissing));
    assert_eq!(SdkError::HomeMissing.kind(), ErrorKind::Filesystem);
    assert_eq!(
        LocalScanner::get_candidate_dir(Some("/home/user"), "java"),
        Ok("/home/user/.sdkman/candidates/java".to_string())
    );
    assert_eq!(LocalScanner::get_candidate_dir(None, "java"), Err(SdkError::HomeMissing));
}

#[test]
fn candidate_without_directory_has_nothing() {
    let d = CandidateDir::missing("kotlin");
    assert_eq!(LocalScanner::scan_installed_versions(&d), Ok(Vec::new()));
    assert_eq!(LocalScanner::get_current_version(&d), Ok(None));
    assert_eq!(LocalScanner::is_version_installed(&d, "1.9.0"), Ok(false));
}

#[test]
fn scan_sorts_and_leaves_out_current_and_files() {
    let rows = vec![
        row("8.0.392-zulu", true),
        row("21.0.1-tem", true),
        row("current", true),
        row("README", false),
        row("11.0.21-amzn", true),
        row("17.0.9-tem", true),
    ];
    let d = CandidateDir::from_listing("java", &rows, inside("21.0.1-tem", PathKind::Directory));
    assert_eq!(
        LocalScanner::scan_installed_versions(&d),
        Ok(vec![
            "11.0.21-amzn".to_string(),
            "17.0.9-tem".to_string(),
            "21.0.1-tem".to_string(),
            "8.0.392-zulu".to_string()
        ])
    );
}

#[test]
fn scan_of_unreadable_directory_fails() {
    let d = CandidateDir::unreadable("java");
    assert_eq!(LocalScanner::scan_installed_versions(&d), Err(SdkError::DirectoryUnreadable));
    assert_eq!(SdkError::DirectoryUnreadable.kind(), ErrorKind::Filesystem);
}

#[test]
fn current_version_follows_the_link() {
    let d = dir("java", &["17", "21"], inside("21", PathKind::Directory));
    assert_eq!(LocalScanner::get_current_version(&d), Ok(Some("21".to_string())));
    let d = dir("java", &["17", "21"], ActiveLink::Absent);
    assert_eq!(LocalScanner::get_current_version(&d), Ok(None));
    let d = dir("java", &["17"], inside("21", PathKind::Missing));
    assert_eq!(LocalScanner::get_current_version(&d), Ok(Some("21".to_string())));
    let d = dir(
        "java",
        &["17"],
        ActiveLink::To { name: Some("jdk".to_string()), inside: false, kind: PathKind::Directory },
    );
    assert_eq!(LocalScanner::get_current_version(&d), Ok(Some("jdk".to_string())));
    let d = dir("java", &["17"], ActiveLink::To { name: None, inside: false, kind: PathKind::Directory });
    assert_eq!(LocalScanner::get_current_version(&d), Ok(None));
}

#[test]
fn unreadable_link_is_an_error_not_an_absence() {
    let d = dir("java", &["17"], ActiveLink::Unreadable);
    assert_eq!(LocalScanner::get_current_version(&d), Err(SdkError::LinkUnreadable));
    assert_eq!(SdkError::LinkUnreadable.kind(), ErrorKind::Filesystem);
}

#[test]
fn installed_means_a_directory_of_that_exact_name() {
    let rows = vec![row("21.0.1-tem", true), row("17", false)];
    let d = CandidateDir::from_listing("java", &rows, ActiveLink::Absent);
    assert_eq!(LocalScanner::is_version_installed(&d, "21.0.1-tem"), Ok(true));
    assert_eq!(LocalScanner::is_version_installed(&d, "21.0.1"), Ok(false));
    assert_eq!(LocalScanner::is_version_installed(&d, "21.0.1-TEM"), Ok(false));
    assert_eq!(LocalScanner::is_version_installed(&d, "17"), Ok(false));
    assert_eq!(LocalScanner::is_version_installed(&d, "current"), Ok(false));
    assert_eq!(LocalScanner::is_version_installed(&d, ""), Ok(false));
}

#[test]
fn candidates_with_installs_are_listed_in_order() {
    let dirs = vec![
        dir("maven", &["3.9.6"], ActiveLink::Absent),
        dir("kotlin", &[], ActiveLink::Absent),
        dir("java", &["17", "21"], ActiveLink::Absent),
        CandidateDir::missing("scala"),
        dir("gradle", &["8.5"], ActiveLink::Absent),
    ];
    assert_eq!(
        LocalScanner::list_installed_candidates(&dirs),
        Ok(vec!["gradle".to_string(), "java".to_string(), "maven".to_string()])
    );
    assert_eq!(LocalScanner::list_installed_candidates(&Vec::new()), Ok(Vec::new()));
}

#[test]
fn an_unreadable_candidate_fails_the_listing() {
    let dirs = vec![dir("maven", &["3.9.6"], ActiveLink::Absent), CandidateDir::unreadable("java")];
    assert_eq!(LocalScanner::list_installed_candidates(&dirs), Err(SdkError::DirectoryUnreadable));
}

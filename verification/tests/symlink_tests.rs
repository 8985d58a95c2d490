use sdkman_gui::error::{ErrorKind, SdkError};
use sdkman_gui::scanner::LocalScanner;
use sdkman_gui::store::{ActiveLink, CandidateDir, FsAction, Listed, PathKind};
use sdkman_gui::symlink::SymlinkManager;

fn dir(versions: &[&str], link: ActiveLink) -> CandidateDir {
    let rows: Vec<Listed> = versions
        .iter()
        .map(|v| Listed { name: v.to_string(), is_dir: true, is_empty: false })
        .collect();
    CandidateDir::from_listing("java", &rows, link)
}

fn inside(name: &str, kind: PathKind) -> ActiveLink {
    ActiveLink::To { name: Some(name.to_string()), inside: true, kind }
}

#[test]
fn test_get_symlink_target() {
    let result = SymlinkManager::get_symlink_target(&CandidateDir::missing("java"));
    assert!(result.is_ok());
}

#[test]
fn test_is_symlink_valid() {
    let result = SymlinkManager::is_symlink_valid(&CandidateDir::missing("java"));
    assert!(result.is_ok());
}

#[test]
fn set_default_then_resolve() {
    let mut d = dir(&["17", "21"], ActiveLink::Absent);
    assert_eq!(SymlinkManager::set_default_version(&mut d, "21"), Ok(vec![FsAction::CreateLink]));
    assert_eq!(SymlinkManager::get_symlink_target(&d), Ok(Some("21".to_string())));
    assert_eq!(LocalScanner::get_current_version(&d), Ok(Some("21".to_string())));
    assert_eq!(SymlinkManager::is_symlink_valid(&d), Ok(true));
}

#[test]
fn set_default_replaces_an_old_link() {
    let mut d = dir(&["17", "21"], inside("17", PathKind::Directory));
    assert_eq!(
        SymlinkManager::set_default_version(&mut d, "21"),
        Ok(vec![FsAction::RemoveLink, FsAction::CreateLink])
    );
    assert_eq!(SymlinkManager::get_symlink_target(&d), Ok(Some("21".to_string())));
}

#[test]
fn set_default_replaces_a_dangling_link() {
    let mut d = dir(&["21"], inside("17", PathKind::Missing));
    assert_eq!(SymlinkManager::get_symlink_target(&d), Ok(Some("17".to_string())));
    assert_eq!(
        SymlinkManager::set_default_version(&mut d, "21"),
        Ok(vec![FsAction::RemoveLink, FsAction::CreateLink])
    );
    assert_eq!(SymlinkManager::get_symlink_target(&d), Ok(Some("21".to_string())));
    let mut d = dir(&["21"], ActiveLink::Unreadable);
    assert_eq!(
        SymlinkManager::set_default_version(&mut d, "21"),
        Ok(vec![FsAction::RemoveLink, FsAction::CreateLink])
    );
    assert_eq!(SymlinkManager::is_symlink_valid(&d), Ok(true));
}

#[test]
fn set_default_needs_the_version() {
    let mut d = dir(&["17"], inside("17", PathKind::Directory));
    assert_eq!(SymlinkManager::set_default_version(&mut d, "21"), Err(SdkError::NotInstalled));
    assert_eq!(SdkError::NotInstalled.kind(), ErrorKind::State);
    assert_eq!(SymlinkManager::get_symlink_target(&d), Ok(Some("17".to_string())));
    let mut d = CandidateDir::missing("java");
    assert_eq!(SymlinkManager::set_default_version(&mut d, "21"), Err(SdkError::NotInstalled));
    assert_eq!(SymlinkManager::get_symlink_target(&d), Ok(None));
}

#[test]
fn unset_default_then_resolve() {
    let mut d = dir(&["17", "21"], inside("21", PathKind::Directory));
    assert_eq!(SymlinkManager::unset_default_version(&mut d), Ok(vec![FsAction::RemoveLink]));
    assert_eq!(SymlinkManager::get_symlink_target(&d), Ok(None));
    assert_eq!(SymlinkManager::is_symlink_valid(&d), Ok(false));
    assert!(matches!(d.link(), ActiveLink::Absent));
}

#[test]
fn unset_default_without_a_link_does_nothing() {
    let mut d = dir(&["17"], ActiveLink::Absent);
    assert_eq!(SymlinkManager::unset_default_version(&mut d), Ok(Vec::new()));
    assert_eq!(SymlinkManager::get_symlink_target(&d), Ok(None));
    let mut d = CandidateDir::missing("java");
    assert_eq!(SymlinkManager::unset_default_version(&mut d), Ok(Vec::new()));
}

#[test]
fn unset_default_removes_a_dangling_link() {
    let mut d = dir(&["17"], inside("21", PathKind::Missing));
    assert_eq!(SymlinkManager::unset_default_version(&mut d), Ok(vec![FsAction::RemoveLink]));
    assert!(matches!(d.link(), ActiveLink::Absent));
    assert_eq!(SymlinkManager::get_symlink_target(&d), Ok(None));
    assert_eq!(d.version_names(), vec!["17"]);
    let mut d = dir(
        &["17"],
        ActiveLink::To { name: None, inside: false, kind: PathKind::Missing },
    );
    assert_eq!(SymlinkManager::unset_default_version(&mut d), Ok(vec![FsAction::RemoveLink]));
    assert!(matches!(d.link(), ActiveLink::Absent));
}

#[test]
fn a_dangling_link_still_names_its_version() {
    let d = dir(&["17"], inside("21", PathKind::Missing));
    assert_eq!(SymlinkManager::get_symlink_target(&d), Ok(Some("21".to_string())));
    assert_eq!(LocalScanner::get_current_version(&d), Ok(Some("21".to_string())));
    assert_eq!(SymlinkManager::is_symlink_valid(&d), Ok(false));
    let d = dir(
        &["17"],
        ActiveLink::To { name: Some("jdk".to_string()), inside: false, kind: PathKind::Missing },
    );
    assert_eq!(SymlinkManager::get_symlink_target(&d), Ok(Some("jdk".to_string())));
}

#[test]
fn unset_default_removes_what_is_no_link() {
    let mut d = dir(&["17"], ActiveLink::Unreadable);
    assert_eq!(SymlinkManager::unset_default_version(&mut d), Ok(vec![FsAction::RemoveLink]));
    assert_eq!(SymlinkManager::get_symlink_target(&d), Ok(None));
}

#[test]
fn validity_of_the_link() {
    assert_eq!(SymlinkManager::is_symlink_valid(&dir(&["17"], ActiveLink::Absent)), Ok(false));
    assert_eq!(
        SymlinkManager::is_symlink_valid(&dir(&["17"], inside("17", PathKind::Directory))),
        Ok(true)
    );
    assert_eq!(
        SymlinkManager::is_symlink_valid(&dir(&["17"], inside("21", PathKind::Missing))),
        Ok(false)
    );
    assert_eq!(
        SymlinkManager::is_symlink_valid(&dir(&["17"], inside("notes", PathKind::File))),
        Ok(false)
    );
    assert_eq!(
        SymlinkManager::is_symlink_valid(&dir(
            &["17"],
            ActiveLink::To { name: Some("jdk".to_string()), inside: false, kind: PathKind::Directory }
        )),
        Ok(true)
    );
    assert_eq!(
        SymlinkManager::is_symlink_valid(&dir(&["17"], ActiveLink::Unreadable)),
        Err(SdkError::LinkUnreadable)
    );
    assert_eq!(
        SymlinkManager::get_symlink_target(&dir(&["17"], ActiveLink::Unreadable)),
        Err(SdkError::LinkUnreadable)
    );
}

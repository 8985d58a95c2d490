use sdkman_gui::store::{
    candidate_dir, current_link, is_valid_version, sdkman_dir, version_dir, ActiveLink,
    CandidateDir, Contents, DirState, Listed, PathKind, EXECUTABLE_MODE,
};

fn row(name: &str, is_dir: bool, is_empty: bool) -> Listed {
    Listed { name: name.to_string(), is_dir, is_empty }
}

fn sorted(mut names: Vec<String>) -> Vec<String> {
    names.sort();
    names
}

const DIR: &str = "/home/u/.sdkman/candidates/java";

#[test]
fn layout_is_below_the_home_directory() {
    assert_eq!(sdkman_dir("/home/u"), "/home/u/.sdkman");
    assert_eq!(candidate_dir("/home/u", "java"), "/home/u/.sdkman/candidates/java");
    assert_eq!(version_dir("/home/u", "java", "21.0.1-tem"), "/home/u/.sdkman/candidates/java/21.0.1-tem");
    assert_eq!(current_link("/home/u", "java"), "/home/u/.sdkman/candidates/java/current");
    assert_eq!(EXECUTABLE_MODE, 0o755);
}

#[test]
fn version_names_are_single_components() {
    assert!(is_valid_version("21.0.1-tem"));
    assert!(is_valid_version("8"));
    assert!(is_valid_version("..."));
    assert!(is_valid_version(".hidden"));
    assert!(is_valid_version("Current"));
    assert!(!is_valid_version(""));
    assert!(!is_valid_version("."));
    assert!(!is_valid_version(".."));
    assert!(!is_valid_version("current"));
    assert!(!is_valid_version("a/b"));
    assert!(!is_valid_version("/21"));
    assert!(!is_valid_version("21/"));
}

#[test]
fn missing_and_unreadable_directories_hold_nothing() {
    let d = CandidateDir::missing("java");
    assert_eq!(d.name(), "java");
    assert_eq!(d.state(), DirState::Missing);
    assert!(d.version_names().is_empty());
    assert!(matches!(d.link(), ActiveLink::Absent));
    let d = CandidateDir::unreadable("java");
    assert_eq!(d.state(), DirState::Unreadable);
    assert!(d.version_names().is_empty());
}

#[test]
fn listing_keeps_directories_only() {
    let rows = vec![
        row("21.0.1-tem", true, false),
        row("notes.txt", false, false),
        row("17.0.9-tem", true, true),
        row("current", true, false),
    ];
    let d = CandidateDir::from_listing("java", &rows, ActiveLink::Absent);
    assert_eq!(d.state(), DirState::Present);
    assert_eq!(sorted(d.version_names()), vec!["17.0.9-tem", "21.0.1-tem"]);
    assert_eq!(d.contents_of("21.0.1-tem"), Some(Contents::Filled));
    assert_eq!(d.contents_of("17.0.9-tem"), Some(Contents::Empty));
    assert_eq!(d.contents_of("notes.txt"), None);
    assert_eq!(d.contents_of("current"), None);
    assert_eq!(d.contents_of("8"), None);
}

#[test]
fn listing_takes_the_first_row_of_a_name() {
    let rows = vec![row("21", true, true), row("21", true, false), row("a/b", true, false)];
    let d = CandidateDir::from_listing("java", &rows, ActiveLink::Absent);
    assert_eq!(d.version_names(), vec!["21"]);
    assert_eq!(d.contents_of("21"), Some(Contents::Empty));
}

#[test]
fn link_into_the_directory_is_inside() {
    let link = ActiveLink::from_target(DIR, "/home/u/.sdkman/candidates/java/21.0.1-tem", PathKind::Directory);
    match link {
        ActiveLink::To { name, inside, kind } => {
            assert_eq!(name, Some("21.0.1-tem".to_string()));
            assert!(inside);
            assert_eq!(kind, PathKind::Directory);
        }
        other => panic!("unexpected {:?}", other),
    }
}

#[test]
fn relative_link_is_resolved_in_the_directory() {
    for target in ["21.0.1-tem", "./21.0.1-tem", "21.0.1-tem/", "21.0.1-tem/."] {
        match ActiveLink::from_target(DIR, target, PathKind::Directory) {
            ActiveLink::To { name, inside, .. } => {
                assert_eq!(name, Some("21.0.1-tem".to_string()), "{}", target);
                assert!(inside, "{}", target);
            }
            other => panic!("unexpected {:?}", other),
        }
    }
}

#[test]
fn link_elsewhere_is_not_inside() {
    let cases = [
        ("/opt/jdk/21", Some("21")),
        ("/home/u/.sdkman/candidates/java", Some("java")),
        ("/home/u/.sdkman/candidates/java/a/b", Some("b")),
        ("/home/u/.sdkman/candidates/maven/21", Some("21")),
        ("../maven/21", Some("21")),
        ("x/..", None),
        ("", None),
        ("/", None),
    ];
    for (target, last) in cases.iter() {
        match ActiveLink::from_target(DIR, target, PathKind::File) {
            ActiveLink::To { name, inside, kind } => {
                assert_eq!(name, last.map(|s| s.to_string()), "{}", target);
                assert!(!inside, "{}", target);
                assert_eq!(kind, PathKind::File);
            }
            other => panic!("unexpected {:?}", other),
        }
    }
}

#[test]
fn listing_decides_what_a_link_inside_leads_to() {
    let rows = vec![row("21", true, false)];
    let to = |name: &str, kind: PathKind| ActiveLink::To { name: Some(name.to_string()), inside: true, kind };
    let d = CandidateDir::from_listing("java", &rows, to("21", PathKind::Missing));
    assert!(matches!(d.link(), ActiveLink::To { kind: PathKind::Directory, inside: true, .. }));
    let d = CandidateDir::from_listing("java", &rows, to("17", PathKind::Directory));
    assert!(matches!(d.link(), ActiveLink::To { kind: PathKind::Missing, inside: true, .. }));
    let d = CandidateDir::from_listing("java", &rows, to("17", PathKind::File));
    assert!(matches!(d.link(), ActiveLink::To { kind: PathKind::File, inside: true, .. }));
    let d = CandidateDir::from_listing(
        "java",
        &rows,
        ActiveLink::To { name: Some("21".to_string()), inside: false, kind: PathKind::Missing },
    );
    assert!(matches!(d.link(), ActiveLink::To { kind: PathKind::Missing, inside: false, .. }));
    let d = CandidateDir::from_listing(
        "java",
        &rows,
        ActiveLink::To { name: None, inside: true, kind: PathKind::Directory },
    );
    assert!(matches!(d.link(), ActiveLink::To { name: None, inside: false, kind: PathKind::Directory }));
    let d = CandidateDir::from_listing("java", &rows, ActiveLink::Unreadable);
    assert!(matches!(d.link(), ActiveLink::Unreadable));
}

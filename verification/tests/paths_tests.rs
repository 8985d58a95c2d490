use sdkman_gui::paths::{components_of, file_name_of, join, relocate};

fn parts(path: &str) -> Vec<String> {
    components_of(path)
}

fn strs(items: &[&str]) -> Vec<String> {
    items.iter().map(|s| s.to_string()).collect()
}

#[test]
fn components_of_plain_paths() {
    assert_eq!(parts("wrapper/bin/tool"), strs(&["wrapper", "bin", "tool"]));
    assert_eq!(parts("wrapper"), strs(&["wrapper"]));
    assert_eq!(parts(""), strs(&[]));
}

#[test]
fn components_ignore_repeated_and_trailing_separators() {
    assert_eq!(parts("a//b"), strs(&["a", "b"]));
    assert_eq!(parts("a/b/"), strs(&["a", "b"]));
    assert_eq!(parts("a/b//"), strs(&["a", "b"]));
    assert_eq!(parts("wrapper/"), strs(&["wrapper"]));
}

#[test]
fn components_keep_a_dot_only_at_the_beginning() {
    assert_eq!(parts("a/./b"), strs(&["a", "b"]));
    assert_eq!(parts("a/b/."), strs(&["a", "b"]));
    assert_eq!(parts("./a/b"), strs(&[".", "a", "b"]));
    assert_eq!(parts("."), strs(&["."]));
    assert_eq!(parts("./"), strs(&["."]));
    assert_eq!(parts(".a/b"), strs(&[".a", "b"]));
    assert_eq!(parts("a/.b"), strs(&["a", ".b"]));
}

#[test]
fn components_keep_root_and_parent() {
    assert_eq!(parts("/a/b"), strs(&["/", "a", "b"]));
    assert_eq!(parts("/"), strs(&["/"]));
    assert_eq!(parts("//a"), strs(&["/", "a"]));
    assert_eq!(parts("/./a"), strs(&["/", "a"]));
    assert_eq!(parts("a/../b"), strs(&["a", "..", "b"]));
    assert_eq!(parts("../b"), strs(&["..", "b"]));
}

#[test]
fn components_agree_with_std() {
    let samples = [
        "", "a", "a/b", "a//b", "a/b/", "./a", ".", "..", "/", "/a", "/a/./b", "a/./.", "./.",
        "wrapper/bin/tool", "jdk-21.0.1+12/bin/java", "a/../b", ".hidden/x", "a.b/c.d",
        "/home/u/.sdkman/candidates/java/21.0.1-tem", "x/ /y", "été/ü",
    ];
    for s in samples.iter() {
        let expected: Vec<String> = std::path::Path::new(s)
            .components()
            .map(|c| c.as_os_str().to_string_lossy().to_string())
            .collect();
        assert_eq!(parts(s), expected, "components of {:?}", s);
    }
}

#[test]
fn join_puts_separators_between() {
    assert_eq!(join(&strs(&["a", "b", "c"]), 0), "a/b/c");
    assert_eq!(join(&strs(&["a", "b", "c"]), 1), "b/c");
    assert_eq!(join(&strs(&["a", "b", "c"]), 2), "c");
    assert_eq!(join(&strs(&["a", "b", "c"]), 3), "");
    assert_eq!(join(&strs(&[]), 0), "");
}

#[test]
fn extraction_strips_one_leading_component() {
    assert_eq!(relocate("wrapper/bin/tool"), Some("bin/tool".to_string()));
    assert_eq!(relocate("jdk-21.0.1+12/lib/modules"), Some("lib/modules".to_string()));
    assert_eq!(relocate("wrapper/bin/"), Some("bin".to_string()));
    assert_eq!(relocate("wrapper//bin//tool"), Some("bin/tool".to_string()));
    assert_eq!(relocate("a/b/c/d"), Some("b/c/d".to_string()));
}

#[test]
fn wrapper_directory_itself_is_skipped() {
    assert_eq!(relocate("wrapper"), None);
    assert_eq!(relocate("wrapper/"), None);
    assert_eq!(relocate("wrapper/."), None);
    assert_eq!(relocate(""), None);
    assert_eq!(relocate("/"), None);
    assert_eq!(relocate("."), None);
}

#[test]
fn relocation_counts_special_components_too() {
    assert_eq!(relocate("./wrapper"), Some("wrapper".to_string()));
    assert_eq!(relocate("./wrapper/bin"), Some("wrapper/bin".to_string()));
    assert_eq!(relocate("/wrapper/bin"), Some("wrapper/bin".to_string()));
    assert_eq!(relocate("../wrapper/bin"), Some("wrapper/bin".to_string()));
    assert_eq!(relocate("wrapper/..."), Some("...".to_string()));
    assert_eq!(relocate("wrapper/..x/y.."), Some("..x/y..".to_string()));
}

#[test]
fn an_entry_that_climbs_goes_nowhere() {
    assert_eq!(relocate("wrapper/../x"), None);
    assert_eq!(relocate("wrapper/../../evil"), None);
    assert_eq!(relocate("wrapper/bin/../tool"), None);
    assert_eq!(relocate("wrapper/bin/.."), None);
    assert_eq!(relocate("./wrapper/.."), None);
    assert_eq!(relocate("/wrapper/../etc/passwd"), None);
    assert_eq!(relocate("../.."), None);
}

#[test]
fn file_name_is_the_last_name() {
    assert_eq!(file_name_of("/tmp/java-21.tar.gz"), Some("java-21.tar.gz".to_string()));
    assert_eq!(file_name_of("gradle-8.5.zip"), Some("gradle-8.5.zip".to_string()));
    assert_eq!(file_name_of("/tmp/dir.zip/"), Some("dir.zip".to_string()));
    assert_eq!(file_name_of("/home/u/.sdkman/candidates/java/21"), Some("21".to_string()));
    assert_eq!(file_name_of("a/.."), None);
    assert_eq!(file_name_of(".."), None);
    assert_eq!(file_name_of("/"), None);
    assert_eq!(file_name_of("."), None);
    assert_eq!(file_name_of(""), None);
    assert_eq!(file_name_of("..."), Some("...".to_string()));
}

#[test]
fn file_name_agrees_with_std() {
    let samples = ["", "a", "a/b", "a/b/", "a/..", "/", ".", "..", "./x", "/x/y.tar.gz", "x/.", "..."];
    for s in samples.iter() {
        let expected = std::path::Path::new(s).file_name().map(|n| n.to_string_lossy().to_string());
        assert_eq!(file_name_of(s), expected, "file name of {:?}", s);
    }
}

//! Questions about what is installed. They change nothing.

use vstd::prelude::*;
use crate::config::option_view;
use crate::error::SdkError;
use crate::store::{
    candidate_dir,
    candidate_dir_of,
    current_name,
    sdkman_dir,
    sdkman_dir_of,
    ActiveLink,
    CandidateDir,
    DirState,
    DirView,
    LinkView,
};
use crate::text::{
    lemma_sorted_distinct_is_strict,
    sort_names,
    sorted,
    strictly_sorted,
    views_of,
};

verus! {

/// The version that the link selects: the last component of its target,
/// whether or not anything stands there. Only a link that is absent selects
/// none; something named `current` that cannot be read as a link is a
/// failure.
pub open spec fn active_version(d: DirView) -> Result<Option<Seq<char>>, SdkError> {
    match d.link {
        LinkView::Absent => Ok(None),
        LinkView::Unreadable => Err(SdkError::LinkUnreadable),
        LinkView::To { name, .. } => Ok(name),
    }
}

/// The names of the candidates that have a version installed, in the order
/// of their directories.
pub open spec fn with_installs(dirs: Seq<CandidateDir>) -> Seq<Seq<char>>
    decreases dirs.len(),
{
    if dirs.len() == 0 {
        Seq::empty()
    } else if dirs.last()@.versions.dom().len() > 0 {
        with_installs(dirs.drop_last()).push(dirs.last()@.name)
    } else {
        with_installs(dirs.drop_last())
    }
}

/// One of the directories cannot be listed.
pub open spec fn any_unreadable(dirs: Seq<CandidateDir>) -> bool {
    exists|i: int| 0 <= i < dirs.len() && (#[trigger] dirs[i])@.state == DirState::Unreadable
}

/// Reads what is installed.
pub struct LocalScanner;

impl LocalScanner {
    /// Where the SDKs are kept, for a user whose home directory is `home`.
    /// A user without a home directory has no such place.
    pub fn get_sdkman_dir(home: Option<&str>) -> (path: Result<String, SdkError>)
        ensures
            match path {
                Ok(path) => home matches Some(h) && path@ == sdkman_dir_of(h@),
                Err(e) => home is None && e == SdkError::HomeMissing,
            },
    {
        match home {
            Some(home) => Ok(sdkman_dir(home)),
            None => Err(SdkError::HomeMissing),
        }
    }

    /// The directory of a candidate, for a user whose home directory is
    /// `home`.
    pub fn get_candidate_dir(home: Option<&str>, candidate: &str) -> (path: Result<
        String,
        SdkError,
    >)
        ensures
            match path {
                Ok(path) => home matches Some(h) && path@ == candidate_dir_of(h@, candidate@),
                Err(e) => home is None && e == SdkError::HomeMissing,
            },
    {
        match home {
            Some(home) => Ok(candidate_dir(home, candidate)),
            None => Err(SdkError::HomeMissing),
        }
    }

    /// The installed versions of a candidate in lexicographic order, each
    /// once: the names of the directories in its directory, `current` never
    /// among them.
    /// A candidate without a directory has none, which is no failure; a
    /// directory that cannot be listed is one.
    pub fn scan_installed_versions(dir: &CandidateDir) -> (versions: Result<Vec<String>, SdkError>)
        requires
            dir.wf(),
        ensures
            match versions {
                Ok(names) => {
                    &&& dir@.state != DirState::Unreadable
                    &&& strictly_sorted(views_of(names@))
                    &&& forall|name: Seq<char>|
                        views_of(names@).contains(name) <==> dir@.installed(name)
                    &&& !views_of(names@).contains(current_name())
                    &&& dir@.state == DirState::Missing ==> names@.len() == 0
                },
                Err(e) => dir@.state == DirState::Unreadable && e == SdkError::DirectoryUnreadable,
            },
    {
        match dir.state() {
            DirState::Unreadable => {
                return Err(SdkError::DirectoryUnreadable);
            },
            _ => {},
        }
        let found = dir.version_names();
        let names = sort_names(&found);
        proof {
            dir.lemma_wf();
            let before = views_of(found@);
            let after = views_of(names@);
            before.lemma_multiset_has_no_duplicates();
            after.lemma_multiset_has_no_duplicates_conv();
            lemma_sorted_distinct_is_strict(after);
            assert forall|name: Seq<char>| after.contains(name) <==> dir@.installed(name) by {
                vstd::seq_lib::to_multiset_contains(after, name);
                vstd::seq_lib::to_multiset_contains(before, name);
            }
            if after.contains(current_name()) {
                assert(dir@.installed(current_name()));
                assert(crate::store::valid_version(current_name()));
            }
            if dir@.state == DirState::Missing {
                if names@.len() > 0 {
                    assert(after[0] == names@[0]@);
                    assert(after.contains(after[0]));
                    assert(dir@.installed(after[0]));
                    assert(dir@.versions.dom().contains(after[0]));
                }
            }
        }
        Ok(names)
    }

    /// The version that is in use: the one that `current` selects.
    pub fn get_current_version(dir: &CandidateDir) -> (version: Result<Option<String>, SdkError>)
        ensures
            match version {
                Ok(name) => active_version(dir@) == Ok::<Option<Seq<char>>, SdkError>(
                    option_view(name),
                ),
                Err(e) => active_version(dir@) == Err::<Option<Seq<char>>, SdkError>(e),
            },
    {
        match dir.link() {
            ActiveLink::Absent => Ok(None),
            ActiveLink::Unreadable => Err(SdkError::LinkUnreadable),
            ActiveLink::To { name, .. } => Ok(name.clone()),
        }
    }

    /// Whether the directory of `version` is there.
    pub fn is_version_installed(dir: &CandidateDir, version: &str) -> (installed: Result<
        bool,
        SdkError,
    >)
        requires
            dir.wf(),
        ensures
            installed == Ok::<bool, SdkError>(dir@.installed(version@)),
    {
        Ok(dir.contents_of(version).is_some())
    }

    /// The candidates of which a version is installed, in lexicographic
    /// order. `dirs` holds the directories of the candidates; where one of
    /// them cannot be listed, nothing is said of the others.
    pub fn list_installed_candidates(dirs: &Vec<CandidateDir>) -> (candidates: Result<
        Vec<String>,
        SdkError,
    >)
        requires
            forall|i: int| 0 <= i < dirs@.len() ==> (#[trigger] dirs@[i]).wf(),
        ensures
            match candidates {
                Ok(names) => {
                    &&& !any_unreadable(dirs@)
                    &&& sorted(views_of(names@))
                    &&& views_of(names@).to_multiset() == with_installs(dirs@).to_multiset()
                },
                Err(e) => any_unreadable(dirs@) && e == SdkError::DirectoryUnreadable,
            },
    {
        let mut found: Vec<String> = Vec::new();
        let mut i: usize = 0;
        proof {
            assert(dirs@.take(0) =~= Seq::<CandidateDir>::empty());
            assert(views_of(found@) =~= Seq::<Seq<char>>::empty());
        }
        while i < dirs.len()
            invariant
                i <= dirs.len(),
                forall|j: int| 0 <= j < dirs@.len() ==> (#[trigger] dirs@[j]).wf(),
                forall|j: int| 0 <= j < i ==> (#[trigger] dirs@[j])@.state != DirState::Unreadable,
                views_of(found@) == with_installs(dirs@.take(i as int)),
            decreases dirs.len() - i,
        {
            let dir = &dirs[i];
            proof {
                assert(dirs@.take(i + 1).drop_last() =~= dirs@.take(i as int));
                assert(dirs@.take(i + 1).last() == dirs@[i as int]);
                assert(dirs@[i as int].wf());
            }
            match LocalScanner::scan_installed_versions(dir) {
                Err(e) => {
                    return Err(e);
                },
                Ok(versions) => {
                    proof {
                        dir.lemma_wf();
                        let names = views_of(versions@);
                        if versions@.len() > 0 {
                            assert(names[0] == versions@[0]@);
                            assert(names.contains(names[0]));
                            assert(dir@.installed(names[0]));
                            assert(dir@.versions.dom().contains(names[0]));
                            if dir@.versions.dom().len() == 0 {
                                dir@.versions.dom().lemma_len0_is_empty();
                            }
                        } else if dir@.versions.dom().len() > 0 {
                            let some = dir@.versions.dom().choose();
                            assert(dir@.versions.dom().contains(some));
                            assert(dir@.installed(some));
                            assert(names.contains(some));
                        }
                    }
                    if versions.len() > 0 {
                        let ghost before = views_of(found@);
                        found.push(dir.name());
                        assert(views_of(found@) =~= before.push(dir@.name));
                    }
                },
            }
            i += 1;
        }
        assert(dirs@.take(dirs@.len() as int) =~= dirs@);
        Ok(sort_names(&found))
    }
}

} // verus!

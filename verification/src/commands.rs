//! What the commands decide between their calls: how a listing of the
//! catalog is matched with what is installed, and when a version that was
//! just installed becomes the one in use.

use vstd::prelude::*;
use crate::config::option_view;
use crate::models::{SdkVersion, SdkVersionView, Statistics};
use crate::scanner::LocalScanner;
use crate::store::{CandidateDir, DirView, FsAction};
use crate::symlink::{after_set_default, set_default_actions, SymlinkManager};
use crate::text::{same_text, views_of};

verus! {

/// The listed version as it stands here: installed where its identifier is
/// among the installed ones, in use and the default where it is the one that
/// the link selects.
pub open spec fn marked(
    listed: SdkVersionView,
    installed: Seq<Seq<char>>,
    current: Option<Seq<char>>,
) -> SdkVersionView {
    SdkVersionView {
        installed: installed.contains(listed.identifier),
        in_use: current == Some(listed.identifier),
        is_default: current == Some(listed.identifier),
        ..listed
    }
}

/// The names with a comma between each two.
pub open spec fn comma_joined(names: Seq<Seq<char>>) -> Seq<char>
    decreases names.len(),
{
    if names.len() == 0 {
        Seq::empty()
    } else if names.len() == 1 {
        names[0]
    } else {
        comma_joined(names.drop_last()) + seq![','] + names.last()
    }
}

/// The address of the list of versions of a candidate, for the platform that
/// the program was built for and for what is installed here: the installed
/// versions and the one in use, which is empty where there is none.
pub open spec fn versions_request_url(
    candidate: Seq<char>,
    os: Seq<char>,
    arch: Seq<char>,
    installed: Seq<Seq<char>>,
    current: Option<Seq<char>>,
) -> Seq<char> {
    crate::api::versions_list_url(
        candidate,
        crate::api::platform_of(os, arch),
        comma_joined(installed),
        match current {
            Some(version) => version,
            None => Seq::empty(),
        },
    )
}

/// Whether a version becomes the one in use without being asked for: it is
/// installed, and it is the only one.
pub open spec fn becomes_default(d: DirView, version: Seq<char>) -> bool {
    d.versions.dom().len() == 1 && d.installed(version)
}

/// The picture after a version was installed and, being the only one, was
/// made the one in use.
pub open spec fn after_auto_default(d: DirView, version: Seq<char>) -> DirView {
    if becomes_default(d, version) {
        after_set_default(d, version)
    } else {
        d
    }
}

/// The versions installed in all the directories together.
pub open spec fn installed_count(dirs: Seq<CandidateDir>) -> nat
    decreases dirs.len(),
{
    if dirs.len() == 0 {
        0
    } else {
        installed_count(dirs.drop_last()) + dirs.last()@.versions.dom().len()
    }
}

/// The listing to show without asking the catalog: the one that was kept,
/// unless a fresh one is asked for.
pub fn kept_listing<T>(force_refresh: bool, kept: Option<T>) -> (listing: Option<T>)
    ensures
        listing == if force_refresh {
            None
        } else {
            kept
        },
{
    if force_refresh {
        None
    } else {
        kept
    }
}

/// Whether `name` is among `names`.
pub fn is_listed(names: &Vec<String>, name: &str) -> (found: bool)
    ensures
        found == views_of(names@).contains(name@),
{
    let mut i: usize = 0;
    while i < names.len()
        invariant
            i <= names.len(),
            forall|j: int| 0 <= j < i ==> views_of(names@)[j] != name@,
        decreases names.len() - i,
    {
        assert(views_of(names@)[i as int] == names@[i as int]@);
        if same_text(names[i].as_str(), name) {
            return true;
        }
        i += 1;
    }
    false
}

/// Matches a listing of the catalog with what is installed here: every
/// version is marked as installed, in use and default by its identifier.
pub fn mark_local_state(
    versions: Vec<SdkVersion>,
    installed: &Vec<String>,
    current: &Option<String>,
) -> (local: Vec<SdkVersion>)
    ensures
        local@.len() == versions@.len(),
        forall|i: int|
            0 <= i < versions@.len() ==> (#[trigger] local@[i])@ == marked(
                versions@[i]@,
                views_of(installed@),
                option_view(*current),
            ),
{
    let mut local: Vec<SdkVersion> = Vec::new();
    let ghost all = versions@;
    for listed in it: versions
        invariant
            it.seq() == all,
            local@.len() == it.index(),
            forall|i: int|
                0 <= i < local@.len() ==> (#[trigger] local@[i])@ == marked(
                    all[i]@,
                    views_of(installed@),
                    option_view(*current),
                ),
    {
        let is_installed = is_listed(installed, listed.identifier.as_str());
        let is_current = match current {
            Some(name) => same_text(name.as_str(), listed.identifier.as_str()),
            None => false,
        };
        local.push(
            SdkVersion {
                version: listed.version,
                identifier: listed.identifier,
                vendor: listed.vendor,
                categories: listed.categories,
                candidate: listed.candidate,
                installed: is_installed,
                is_default: is_current,
                in_use: is_current,
                installing: listed.installing,
                install_progress: listed.install_progress,
            },
        );
    }
    local
}

/// The installed versions as a request names them: with a comma between
/// each two.
pub fn installed_query(installed: &Vec<String>) -> (query: String)
    ensures
        query@ == comma_joined(views_of(installed@)),
{
    let mut query = String::new();
    let mut i: usize = 0;
    let ghost all = views_of(installed@);
    assert(all.take(0) =~= Seq::<Seq<char>>::empty());
    while i < installed.len()
        invariant
            i <= installed.len(),
            all == views_of(installed@),
            query@ == comma_joined(all.take(i as int)),
        decreases installed.len() - i,
    {
        proof {
            assert(all.take(i + 1).drop_last() =~= all.take(i as int));
            assert(all.take(i + 1).last() == installed@[i as int]@);
        }
        if i > 0 {
            proof {
                reveal_strlit(",");
                assert(","@ =~= seq![',']);
            }
            query.append(",");
        }
        query.append(installed[i].as_str());
        proof {
            if i == 0 {
                assert(all.take(1).len() == 1);
                assert(query@ =~= all.take(1)[0]);
            }
        }
        i += 1;
    }
    assert(all.take(installed@.len() as int) =~= all);
    query
}

/// The address to ask for the versions of a candidate.
pub fn versions_request(
    candidate: &str,
    os: &str,
    arch: &str,
    installed: &Vec<String>,
    current: &Option<String>,
) -> (url: String)
    ensures
        url@ == versions_request_url(
            candidate@,
            os@,
            arch@,
            views_of(installed@),
            option_view(*current),
        ),
{
    let platform = crate::api::detect_platform(os, arch);
    let query = installed_query(installed);
    let in_use = match current {
        Some(version) => version.clone(),
        None => String::new(),
    };
    crate::api::ApiEndpoints::versions_list(
        candidate,
        platform.as_str(),
        query.as_str(),
        in_use.as_str(),
    )
}

/// After a version was installed: where it is the only one of its
/// candidate, it becomes the one in use. With more than one installed the
/// choice stays with the user.
pub fn auto_default(dir: &mut CandidateDir, version: &str) -> (actions: Vec<FsAction>)
    requires
        old(dir).wf(),
    ensures
        final(dir).wf(),
        final(dir)@ == after_auto_default(old(dir)@, version@),
        actions@ == if becomes_default(old(dir)@, version@) {
            set_default_actions(old(dir)@)
        } else {
            Seq::<FsAction>::empty()
        },
{
    let names = dir.version_names();
    proof {
        dir.lemma_wf();
        let views = views_of(names@);
        views.unique_seq_to_set();
        assert(views.to_set() =~= dir@.versions.dom()) by {
            assert forall|name: Seq<char>| views.to_set().contains(name)
                == dir@.versions.dom().contains(name) by {
                assert(views.contains(name) <==> dir@.versions.contains_key(name));
            }
        }
    }
    if names.len() == 1 {
        match SymlinkManager::set_default_version(dir, version) {
            Ok(actions) => actions,
            Err(_) => Vec::new(),
        }
    } else {
        Vec::new()
    }
}

/// The counts for the front page. `jdk` is the directory of the Java
/// candidate and `dirs` are those of all the candidates that the catalog
/// lists; a count that does not fit is the largest that does.
pub fn statistics(
    jdk: &CandidateDir,
    jdk_available: usize,
    dirs: &Vec<CandidateDir>,
    sdk_available: usize,
) -> (counts: Statistics)
    requires
        jdk.wf(),
        forall|i: int| 0 <= i < dirs@.len() ==> (#[trigger] dirs@[i]).wf(),
    ensures
        counts.jdk_available == jdk_available,
        counts.sdk_available == sdk_available,
        counts.jdk_installed == jdk@.versions.dom().len(),
        counts.sdk_installed == if installed_count(dirs@) <= usize::MAX {
            installed_count(dirs@)
        } else {
            usize::MAX as nat
        },
{
    let jdk_installed = count_versions(jdk);
    let mut sdk_installed: usize = 0;
    let mut i: usize = 0;
    assert(dirs@.take(0) =~= Seq::<CandidateDir>::empty());
    while i < dirs.len()
        invariant
            i <= dirs.len(),
            forall|j: int| 0 <= j < dirs@.len() ==> (#[trigger] dirs@[j]).wf(),
            sdk_installed == if installed_count(dirs@.take(i as int)) <= usize::MAX {
                installed_count(dirs@.take(i as int))
            } else {
                usize::MAX as nat
            },
        decreases dirs.len() - i,
    {
        proof {
            assert(dirs@.take(i + 1).drop_last() =~= dirs@.take(i as int));
            assert(dirs@.take(i + 1).last() == dirs@[i as int]);
            assert(dirs@[i as int].wf());
        }
        let here = count_versions(&dirs[i]);
        sdk_installed = if here > usize::MAX - sdk_installed {
            usize::MAX
        } else {
            sdk_installed + here
        };
        i += 1;
    }
    assert(dirs@.take(dirs@.len() as int) =~= dirs@);
    Statistics { jdk_installed, jdk_available, sdk_installed, sdk_available }
}

/// The number of versions installed in a directory.
pub fn count_versions(dir: &CandidateDir) -> (count: usize)
    requires
        dir.wf(),
    ensures
        count == dir@.versions.dom().len(),
{
    let names = dir.version_names();
    proof {
        let views = views_of(names@);
        views.unique_seq_to_set();
        assert(views.to_set() =~= dir@.versions.dom()) by {
            assert forall|name: Seq<char>| views.to_set().contains(name)
                == dir@.versions.dom().contains(name) by {
                assert(views.contains(name) <==> dir@.versions.contains_key(name));
            }
        }
    }
    names.len()
}

} // verus!

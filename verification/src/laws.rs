//! What holds of every directory, whatever was done to it before.

use vstd::prelude::*;
use crate::error::SdkError;
use crate::installer::{
    after_install,
    after_prepare,
    after_uninstall,
    archive_kind_of,
    archive_name_of,
    gzip_magic,
    install_outcome,
    planned,
    prepare_actions,
    progress_count,
    progress_due,
    uninstall_actions,
    ArchiveEntry,
    ArchiveFile,
    ArchiveKind,
};
use crate::paths::{lemma_relocated_stays_below, stays_below};
use crate::scanner::active_version;
use crate::store::{
    effects,
    valid_version,
    Contents,
    DirState,
    DirView,
    FsAction,
    LinkView,
    PathKind,
};
use crate::symlink::{
    after_set_default,
    after_unset_default,
    default_valid,
    set_default_actions,
    unset_default_actions,
};

verus! {

/// A candidate without a directory has no version installed and none in use,
/// and asking is no failure.
pub proof fn lemma_missing_candidate_is_empty(d: DirView)
    requires
        d.wf(),
        d.state == DirState::Missing,
    ensures
        forall|version: Seq<char>| !d.installed(version),
        active_version(d) == Ok::<Option<Seq<char>>, SdkError>(None),
        default_valid(d) == Ok::<bool, SdkError>(false),
{
}

/// Every change keeps the picture consistent.
pub proof fn lemma_changes_keep_consistency(d: DirView, version: Seq<char>, contents: Contents)
    requires
        d.wf(),
    ensures
        valid_version(version) ==> after_prepare(d, version).wf(),
        valid_version(version) ==> after_install(d, version, contents).wf(),
        after_uninstall(d, version).wf(),
        after_set_default(d, version).wf(),
        after_unset_default(d).wf(),
{
    if d.installed(version) {
        assert(d.versions.contains_key(version));
        if d.state != DirState::Present {
            assert(d.versions.dom().contains(version));
        }
    }
    if valid_version(version) {
        let prepared = after_prepare(d, version);
        assert(prepared.versions.dom() =~= d.versions.dom().insert(version));
        assert(prepared.wf());
        let installed = after_install(d, version, contents);
        assert(installed.versions.dom() =~= d.versions.dom().insert(version));
        assert(installed.wf());
    }
    let removed = d.without_version(version);
    assert(removed.versions.dom() =~= d.versions.dom().remove(version));
    if d.state != DirState::Present {
        assert(removed.versions.dom() =~= d.versions.dom());
    }
    assert(removed.wf());
    assert(removed.unlinked().wf());
}

/// After a version has been selected, it is the one in use, and the link is
/// valid.
pub proof fn lemma_set_then_resolve(d: DirView, version: Seq<char>)
    requires
        d.wf(),
        d.installed(version),
    ensures
        active_version(after_set_default(d, version)) == Ok::<Option<Seq<char>>, SdkError>(
            Some(version),
        ),
        default_valid(after_set_default(d, version)) == Ok::<bool, SdkError>(true),
{
}

/// After no version has been selected there is no link, and none is in use,
/// whatever the link was.
pub proof fn lemma_unset_then_resolve(d: DirView)
    ensures
        after_unset_default(d).link == LinkView::Absent,
        active_version(after_unset_default(d)) == Ok::<Option<Seq<char>>, SdkError>(None),
        default_valid(after_unset_default(d)) == Ok::<bool, SdkError>(false),
{
}

/// A link that leads nowhere still selects the version that it names, and is
/// not valid.
pub proof fn lemma_dangling_link_is_read(d: DirView, name: Option<Seq<char>>, inside: bool)
    requires
        d.link == (LinkView::To { name, inside, kind: PathKind::Missing }),
    ensures
        active_version(d) == Ok::<Option<Seq<char>>, SdkError>(name),
        default_valid(d) == Ok::<bool, SdkError>(false),
{
}

/// A version is installed once its directory is prepared, and stays so when
/// the installation has ended; the other versions are as they were.
pub proof fn lemma_install_then_installed(d: DirView, version: Seq<char>, contents: Contents)
    ensures
        after_prepare(d, version).installed(version),
        after_install(d, version, contents).installed(version),
        after_install(d, version, contents).versions[version] == contents,
        forall|other: Seq<char>|
            other != version ==> after_install(d, version, contents).installed(other)
                == d.installed(other),
{
}

/// A version that was removed is not installed; the other versions are as
/// they were.
pub proof fn lemma_uninstall_then_not_installed(d: DirView, version: Seq<char>)
    requires
        d.installed(version),
    ensures
        !after_uninstall(d, version).installed(version),
        forall|other: Seq<char>|
            other != version ==> after_uninstall(d, version).installed(other) == d.installed(
                other,
            ),
{
}

/// Removing the version that the link points at removes the link: no version
/// is in use then, and the link is not valid.
pub proof fn lemma_uninstall_active_version(d: DirView, version: Seq<char>)
    requires
        d.wf(),
        d.installed(version),
        d.link.selects(version),
    ensures
        after_uninstall(d, version).link == LinkView::Absent,
        active_version(after_uninstall(d, version)) == Ok::<Option<Seq<char>>, SdkError>(None),
        default_valid(after_uninstall(d, version)) == Ok::<bool, SdkError>(false),
{
}

/// Removing a version leaves no link that leads nowhere, whatever the link
/// pointed at before.
pub proof fn lemma_uninstall_heals_link(d: DirView, version: Seq<char>)
    requires
        d.installed(version),
    ensures
        !(after_uninstall(d, version).link matches LinkView::To { kind, .. } && kind
            == PathKind::Missing),
{
}

/// Installing a version, selecting it and removing it again leaves the
/// version not installed and no link; the other versions are as they were.
pub proof fn lemma_round_trip(d: DirView, version: Seq<char>, contents: Contents)
    requires
        d.wf(),
        valid_version(version),
    ensures
        ({
            let installed = after_install(d, version, contents);
            let selected = after_set_default(installed, version);
            let removed = after_uninstall(selected, version);
            &&& !removed.installed(version)
            &&& removed.link == LinkView::Absent
            &&& removed.versions == d.versions.remove(version)
        }),
{
    let installed = after_install(d, version, contents);
    let selected = after_set_default(installed, version);
    let removed = after_uninstall(selected, version);
    assert(installed.installed(version));
    assert(selected.link.selects(version));
    assert(removed.versions =~= d.versions.remove(version));
}

/// One change, and then the others.
proof fn lemma_effects_unfold(actions: Seq<FsAction>, d: DirView, version: Seq<char>)
    ensures
        actions.len() == 0 ==> effects(actions, d, version) == d,
        actions.len() == 1 ==> effects(actions, d, version) == actions[0].effect(d, version),
        actions.len() == 2 ==> effects(actions, d, version) == actions[1].effect(
            actions[0].effect(d, version),
            version,
        ),
{
    reveal_with_fuel(effects, 3);
    if actions.len() == 2 {
        assert(actions.drop_first()[0] == actions[1]);
    }
}

/// Carrying out what a command asks for, in order, changes the picture as
/// the command says: for selecting a version, for selecting none, for
/// preparing the directory of a version, and for removing a version.
pub proof fn lemma_actions_make_the_change(d: DirView, version: Seq<char>)
    requires
        d.wf(),
    ensures
        d.installed(version) ==> effects(set_default_actions(d), d, version)
            == after_set_default(d, version),
        effects(unset_default_actions(d), d, version) == after_unset_default(d),
        effects(prepare_actions(d, version), d, version) == after_prepare(d, version),
        d.installed(version) ==> effects(uninstall_actions(d, version), d, version)
            == after_uninstall(d, version),
{
    lemma_effects_unfold(set_default_actions(d), d, version);
    lemma_effects_unfold(unset_default_actions(d), d, version);
    lemma_effects_unfold(prepare_actions(d, version), d, version);
    lemma_effects_unfold(uninstall_actions(d, version), d, version);
    if d.installed(version) {
        assert(d.versions.dom().contains(version));
        assert(d.state == DirState::Present);
        assert(effects(set_default_actions(d), d, version) =~= after_set_default(d, version));
        assert(effects(uninstall_actions(d, version), d, version) =~= after_uninstall(
            d,
            version,
        ));
        let removed = d.without_version(version);
        assert(removed.versions.insert(version, Contents::Empty) =~= d.versions.insert(
            version,
            Contents::Empty,
        ));
    }
    assert(effects(unset_default_actions(d), d, version) =~= after_unset_default(d));
    assert(effects(prepare_actions(d, version), d, version) =~= after_prepare(d, version));
}

/// Whatever an entry of an archive is called, it is written below the
/// directory of the version or not at all: the place that it is planned for
/// never climbs with a `..` and never begins at the root.
pub proof fn lemma_entries_stay_below(kind: ArchiveKind, entry: ArchiveEntry)
    ensures
        planned(kind, entry).target() matches Some(target) ==> stays_below(target),
{
    if entry.path is Some {
        lemma_relocated_stays_below(entry.path->0@);
    }
}

/// A ZIP archive reports at its last entry and at every tenth, whether the
/// entry is written or left out, so the last event counts all its entries.
pub proof fn lemma_zip_reports_by_index(total: usize, index: usize, written: bool, extracted: usize)
    ensures
        progress_due(ArchiveKind::Zip, total, index, written, extracted) == (index % 10 == 0
            || index + 1 == total),
        index + 1 == total ==> progress_due(ArchiveKind::Zip, total, index, written, extracted)
            && progress_count(ArchiveKind::Zip, index, extracted) == total,
{
}

/// A file that is named as a gzip archive, is there and holds bytes, but does
/// not begin with the magic number of gzip, is refused for that reason, and no
/// extraction comes of it.
pub proof fn lemma_bad_magic_is_refused(archive: ArchiveFile)
    requires
        archive_kind_of(archive_name_of(archive.path@)) == Some(ArchiveKind::TarGz),
        archive.exists,
        archive.size > 0,
        archive.head@.len() >= 2,
        !gzip_magic(archive.head@),
    ensures
        install_outcome(archive) == Err::<(ArchiveKind, usize), SdkError>(
            SdkError::NotGzip { first: archive.head@[0], second: archive.head@[1] },
        ),
{
}

} // verus!

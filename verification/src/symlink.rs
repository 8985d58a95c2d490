//! The link `current`: which version is in use.
//!
//! Pointing the link elsewhere removes the old link and then makes the new
//! one. Between the two steps there is no link, and whoever looks then sees
//! no version in use.

use vstd::prelude::*;
use crate::config::option_view;
use crate::error::SdkError;
use crate::scanner::{active_version, LocalScanner};
use crate::store::{ActiveLink, CandidateDir, DirView, FsAction, LinkView, PathKind};

verus! {

/// Whether something named `current` is there, whatever it leads to.
pub open spec fn link_present(d: DirView) -> bool {
    d.link != LinkView::Absent
}

/// What it takes to select a version: the old link goes first, where there
/// is one, whether it leads anywhere or not.
pub open spec fn set_default_actions(d: DirView) -> Seq<FsAction> {
    if link_present(d) {
        seq![FsAction::RemoveLink, FsAction::CreateLink]
    } else {
        seq![FsAction::CreateLink]
    }
}

/// The picture after `version` has been selected.
pub open spec fn after_set_default(d: DirView, version: Seq<char>) -> DirView {
    if d.installed(version) {
        d.pointing_at(version)
    } else {
        d
    }
}

/// What it takes to select no version: the link goes, wherever there is
/// one, whether it leads anywhere or not.
pub open spec fn unset_default_actions(d: DirView) -> Seq<FsAction> {
    if link_present(d) {
        seq![FsAction::RemoveLink]
    } else {
        Seq::empty()
    }
}

/// The picture after no version has been selected: there is no link.
pub open spec fn after_unset_default(d: DirView) -> DirView {
    d.unlinked()
}

/// Whether the link leads to a directory. Something named `current` that
/// cannot be read as a link is a failure.
pub open spec fn default_valid(d: DirView) -> Result<bool, SdkError> {
    match d.link {
        LinkView::Absent => Ok(false),
        LinkView::Unreadable => Err(SdkError::LinkUnreadable),
        LinkView::To { kind, .. } => Ok(kind == PathKind::Directory),
    }
}

/// Points the link `current`.
pub struct SymlinkManager;

impl SymlinkManager {
    /// Makes `version` the one in use. It must be installed; else nothing
    /// changes.
    pub fn set_default_version(dir: &mut CandidateDir, version: &str) -> (done: Result<
        Vec<FsAction>,
        SdkError,
    >)
        requires
            old(dir).wf(),
        ensures
            final(dir).wf(),
            final(dir)@ == after_set_default(old(dir)@, version@),
            match done {
                Ok(actions) => old(dir)@.installed(version@) && actions@ == set_default_actions(
                    old(dir)@,
                ),
                Err(e) => !old(dir)@.installed(version@) && e == SdkError::NotInstalled,
            },
    {
        if dir.contents_of(version).is_none() {
            return Err(SdkError::NotInstalled);
        }
        proof {
            dir.lemma_wf();
        }
        let mut actions: Vec<FsAction> = Vec::new();
        match dir.link() {
            ActiveLink::Absent => {},
            _ => {
                actions.push(FsAction::RemoveLink);
            },
        }
        actions.push(FsAction::CreateLink);
        dir.point_at(version);
        Ok(actions)
    }

    /// Makes no version the one in use. Where there is no link, nothing is
    /// done; a link that leads nowhere is removed like any other.
    pub fn unset_default_version(dir: &mut CandidateDir) -> (done: Result<Vec<FsAction>, SdkError>)
        requires
            old(dir).wf(),
        ensures
            final(dir).wf(),
            final(dir)@ == after_unset_default(old(dir)@),
            done matches Ok(actions) && actions@ == unset_default_actions(old(dir)@),
    {
        let present = match dir.link() {
            ActiveLink::Absent => false,
            _ => true,
        };
        let mut actions: Vec<FsAction> = Vec::new();
        if present {
            actions.push(FsAction::RemoveLink);
        }
        dir.clear_link();
        Ok(actions)
    }

    /// The version that the link selects.
    pub fn get_symlink_target(dir: &CandidateDir) -> (version: Result<Option<String>, SdkError>)
        ensures
            match version {
                Ok(name) => active_version(dir@) == Ok::<Option<Seq<char>>, SdkError>(
                    option_view(name),
                ),
                Err(e) => active_version(dir@) == Err::<Option<Seq<char>>, SdkError>(e),
            },
    {
        LocalScanner::get_current_version(dir)
    }

    /// Whether the link is there and leads to a directory.
    pub fn is_symlink_valid(dir: &CandidateDir) -> (valid: Result<bool, SdkError>)
        ensures
            valid == default_valid(dir@),
    {
        match dir.link() {
            ActiveLink::Absent => Ok(false),
            ActiveLink::Unreadable => Err(SdkError::LinkUnreadable),
            ActiveLink::To { kind, .. } => match kind {
                PathKind::Directory => Ok(true),
                _ => Ok(false),
            },
        }
    }
}

} // verus!

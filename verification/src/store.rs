//! What the directory of one candidate holds: a directory for each installed
//! version and the link `current`. The managers read and change this picture;
//! whoever owns the disk takes it from there and carries the changes back.

use vstd::prelude::*;
use crate::config::option_view;
use crate::paths::{components, components_of, file_name, file_name_of, is_name, is_plain};
use crate::text::{chars_of, same_text, views_of};

verus! {

/// Whether the directory of a candidate is there.
#[derive(Clone, Copy, Debug, PartialEq, Eq, Structural)]
pub enum DirState {
    /// There is no such directory.
    Missing,
    /// There is one, but it cannot be listed.
    Unreadable,
    /// There is one, and its listing is known.
    Present,
}

/// What stands at a path.
#[derive(Clone, Copy, Debug, PartialEq, Eq, Structural)]
pub enum PathKind {
    Missing,
    File,
    Directory,
}

/// Whether a directory holds anything.
#[derive(Clone, Copy, Debug, PartialEq, Eq, Structural)]
pub enum Contents {
    Empty,
    Filled,
}

/// One row of a directory's listing.
#[derive(Clone, Debug)]
pub struct Listed {
    pub name: String,
    /// The entry is a directory, or a link to one.
    pub is_dir: bool,
    /// For a directory: it holds nothing.
    pub is_empty: bool,
}

/// The link `current` of a candidate.
#[derive(Clone, Debug)]
pub enum ActiveLink {
    /// There is none.
    Absent,
    /// Something named `current` is there, but it is no link that can be read.
    Unreadable,
    /// A link.
    To {
        /// The last component of its target, where that is a name.
        name: Option<String>,
        /// The target lies directly inside the candidate's directory.
        inside: bool,
        /// What stands at the target.
        kind: PathKind,
    },
}

/// The link `current`, over plain values.
pub enum LinkView {
    Absent,
    Unreadable,
    To { name: Option<Seq<char>>, inside: bool, kind: PathKind },
}

/// The directory of a candidate, over plain values.
#[verifier::ext_equal]
pub struct DirView {
    /// The candidate.
    pub name: Seq<char>,
    pub state: DirState,
    /// The directories of the versions, by name.
    pub versions: Map<Seq<char>, Contents>,
    /// The link `current`.
    pub link: LinkView,
}

/// The name of the link that selects the active version.
pub open spec fn current_name() -> Seq<char> {
    seq!['c', 'u', 'r', 'r', 'e', 'n', 't']
}

/// A name that the directory of a version can have: one component, which is
/// neither `.` nor `..` nor the name of the link.
pub open spec fn valid_version(name: Seq<char>) -> bool {
    &&& is_plain(name)
    &&& is_name(name)
    &&& name != seq!['.', '.']
    &&& name != current_name()
}

impl ActiveLink {
    pub open spec fn view(&self) -> LinkView {
        match *self {
            ActiveLink::Absent => LinkView::Absent,
            ActiveLink::Unreadable => LinkView::Unreadable,
            ActiveLink::To { name, inside, kind } => LinkView::To {
                name: option_view(name),
                inside,
                kind,
            },
        }
    }
}

impl LinkView {
    /// The link points at the directory of `version` in the candidate's own
    /// directory.
    pub open spec fn selects(self, version: Seq<char>) -> bool {
        self matches LinkView::To { name, inside, .. } && inside && name == Some(version)
    }
}

impl DirView {
    /// The picture is consistent: only a directory that is there holds
    /// anything, every version has a valid name, and a link into the
    /// directory leads to a directory exactly where that version is there.
    pub open spec fn wf(self) -> bool {
        &&& self.versions.dom().finite()
        &&& forall|name: Seq<char>| self.versions.contains_key(name) ==> valid_version(name)
        &&& self.state != DirState::Present ==> self.versions.dom().is_empty() && self.link
            == LinkView::Absent
        &&& match self.link {
            LinkView::To { name, inside, kind } => inside ==> name is Some && (kind
                == PathKind::Directory <==> self.versions.contains_key(name->0)),
            _ => true,
        }
    }

    /// The directory of `version` is there.
    pub open spec fn installed(self, version: Seq<char>) -> bool {
        self.versions.contains_key(version)
    }

    /// The picture once the directory of `version` is there with `contents`.
    /// The candidate's directory is there then, and a link that points at the
    /// version leads to a directory.
    pub open spec fn with_version(self, version: Seq<char>, contents: Contents) -> DirView {
        DirView {
            name: self.name,
            state: DirState::Present,
            versions: self.versions.insert(version, contents),
            link: if self.link.selects(version) {
                LinkView::To { name: Some(version), inside: true, kind: PathKind::Directory }
            } else {
                self.link
            },
        }
    }

    /// The picture once the directory of `version` is gone. A link that points
    /// at the version dangles then.
    pub open spec fn without_version(self, version: Seq<char>) -> DirView {
        DirView {
            name: self.name,
            state: self.state,
            versions: self.versions.remove(version),
            link: if self.link.selects(version) {
                LinkView::To { name: Some(version), inside: true, kind: PathKind::Missing }
            } else {
                self.link
            },
        }
    }

    /// The picture once the link points at the directory of `version`.
    pub open spec fn pointing_at(self, version: Seq<char>) -> DirView {
        DirView {
            name: self.name,
            state: self.state,
            versions: self.versions,
            link: LinkView::To {
                name: Some(version),
                inside: true,
                kind: if self.versions.contains_key(version) {
                    PathKind::Directory
                } else {
                    PathKind::Missing
                },
            },
        }
    }

    /// The picture once the link is gone.
    pub open spec fn unlinked(self) -> DirView {
        DirView { name: self.name, state: self.state, versions: self.versions, link: LinkView::Absent }
    }
}

/// The directory of one version.
struct Version {
    name: String,
    contents: Contents,
}

/// The directory of a candidate.
pub struct CandidateDir {
    name: String,
    state: DirState,
    versions: Vec<Version>,
    link: ActiveLink,
}

spec fn lists(versions: Seq<Version>, name: Seq<char>) -> bool {
    exists|i: int| 0 <= i < versions.len() && (#[trigger] versions[i]).name@ == name
}

spec fn distinct(versions: Seq<Version>) -> bool {
    forall|i: int, j: int|
        0 <= i < j < versions.len() ==> (#[trigger] versions[i]).name@ != (
        #[trigger] versions[j]).name@
}

spec fn place(versions: Seq<Version>, name: Seq<char>) -> int {
    choose|i: int| 0 <= i < versions.len() && (#[trigger] versions[i]).name@ == name
}

spec fn map_of(versions: Seq<Version>) -> Map<Seq<char>, Contents> {
    Map::new(|name: Seq<char>| lists(versions, name), |name: Seq<char>| versions[place(versions, name)].contents)
}

proof fn lemma_map_at(versions: Seq<Version>, i: int)
    requires
        distinct(versions),
        0 <= i < versions.len(),
    ensures
        map_of(versions).contains_key(versions[i].name@),
        map_of(versions)[versions[i].name@] == versions[i].contents,
{
    let name = versions[i].name@;
    assert(lists(versions, name));
    let j = place(versions, name);
    assert(versions[j].name@ == name);
    assert(j == i);
}

proof fn lemma_map_finite(versions: Seq<Version>)
    ensures
        map_of(versions).dom().finite(),
        versions.len() == 0 ==> map_of(versions).dom().is_empty(),
    decreases versions.len(),
{
    if versions.len() == 0 {
        assert(map_of(versions).dom() =~= Set::empty());
    } else {
        let shorter = versions.drop_last();
        lemma_map_finite(shorter);
        let last = versions.last().name@;
        assert forall|name: Seq<char>| map_of(versions).dom().contains(name) == map_of(
            shorter,
        ).dom().insert(last).contains(name) by {
            if lists(versions, name) {
                let i = place(versions, name);
                if i < shorter.len() {
                    assert(shorter[i].name@ == name);
                }
            }
            if lists(shorter, name) {
                let i = place(shorter, name);
                assert(versions[i].name@ == name);
            }
            if name == last {
                assert(versions[versions.len() - 1].name@ == name);
            }
        }
        assert(map_of(versions).dom() =~= map_of(shorter).dom().insert(last));
    }
}

proof fn lemma_map_push(versions: Seq<Version>, added: Version)
    requires
        distinct(versions),
        !lists(versions, added.name@),
    ensures
        distinct(versions.push(added)),
        map_of(versions.push(added)) == map_of(versions).insert(added.name@, added.contents),
{
    let longer = versions.push(added);
    assert forall|i: int, j: int| 0 <= i < j < longer.len() implies longer[i].name@
        != longer[j].name@ by {
        if j == versions.len() {
            assert(versions[i].name@ != added.name@);
        } else {
            assert(versions[i].name@ != versions[j].name@);
        }
    }
    let target = map_of(versions).insert(added.name@, added.contents);
    assert forall|name: Seq<char>| #[trigger] map_of(longer).contains_key(name)
        == target.contains_key(name) by {
        if lists(longer, name) {
            let i = place(longer, name);
            if i < versions.len() {
                assert(versions[i].name@ == name);
            }
        }
        if lists(versions, name) {
            let i = place(versions, name);
            assert(longer[i].name@ == name);
        }
        if name == added.name@ {
            assert(longer[longer.len() - 1].name@ == name);
        }
    }
    assert forall|name: Seq<char>| map_of(longer).contains_key(name) implies #[trigger] map_of(
        longer,
    )[name] == target[name] by {
        let i = place(longer, name);
        lemma_map_at(longer, i);
        if i < versions.len() {
            lemma_map_at(versions, i);
        }
    }
    assert(map_of(longer) =~= target);
}

proof fn lemma_map_remove(versions: Seq<Version>, at: int)
    requires
        distinct(versions),
        0 <= at < versions.len(),
    ensures
        distinct(versions.remove(at)),
        map_of(versions.remove(at)) == map_of(versions).remove(versions[at].name@),
{
    let shorter = versions.remove(at);
    let gone = versions[at].name@;
    assert forall|i: int, j: int| 0 <= i < j < shorter.len() implies shorter[i].name@
        != shorter[j].name@ by {
        let ii = if i < at { i } else { i + 1 };
        let jj = if j < at { j } else { j + 1 };
        assert(versions[ii].name@ != versions[jj].name@);
    }
    let target = map_of(versions).remove(gone);
    assert forall|name: Seq<char>| #[trigger] map_of(shorter).contains_key(name)
        == target.contains_key(name) by {
        if lists(shorter, name) {
            let i = place(shorter, name);
            let ii = if i < at { i } else { i + 1 };
            assert(versions[ii].name@ == name);
            if ii < at {
                assert(versions[ii].name@ != versions[at].name@);
            } else {
                assert(versions[at].name@ != versions[ii].name@);
            }
        }
        if lists(versions, name) && name != gone {
            let i = place(versions, name);
            let ii = if i < at { i } else { i - 1 };
            assert(shorter[ii].name@ == name);
        }
    }
    assert forall|name: Seq<char>| map_of(shorter).contains_key(name) implies #[trigger] map_of(
        shorter,
    )[name] == target[name] by {
        let i = place(shorter, name);
        lemma_map_at(shorter, i);
        let ii = if i < at { i } else { i + 1 };
        lemma_map_at(versions, ii);
    }
    assert(map_of(shorter) =~= target);
}

proof fn lemma_map_update(versions: Seq<Version>, at: int, changed: Version)
    requires
        distinct(versions),
        0 <= at < versions.len(),
        changed.name@ == versions[at].name@,
    ensures
        distinct(versions.update(at, changed)),
        map_of(versions.update(at, changed)) == map_of(versions).insert(
            changed.name@,
            changed.contents,
        ),
{
    let after = versions.update(at, changed);
    assert forall|i: int, j: int| 0 <= i < j < after.len() implies after[i].name@
        != after[j].name@ by {
        assert(versions[i].name@ != versions[j].name@);
    }
    let target = map_of(versions).insert(changed.name@, changed.contents);
    assert forall|name: Seq<char>| #[trigger] map_of(after).contains_key(name)
        == target.contains_key(name) by {
        if lists(after, name) {
            let i = place(after, name);
            assert(versions[i].name@ == name);
        }
        if lists(versions, name) {
            let i = place(versions, name);
            assert(after[i].name@ == name);
        }
        if name == changed.name@ {
            assert(after[at].name@ == name);
        }
    }
    assert forall|name: Seq<char>| map_of(after).contains_key(name) implies #[trigger] map_of(
        after,
    )[name] == target[name] by {
        let i = place(after, name);
        lemma_map_at(after, i);
        if i != at {
            lemma_map_at(versions, i);
        }
    }
    assert(map_of(after) =~= target);
}


/// The directories among the rows of a listing that can be those of
/// versions, each with what the first row of its name says of it.
pub open spec fn listed_versions(rows: Seq<Listed>) -> Map<Seq<char>, Contents>
    decreases rows.len(),
{
    if rows.len() == 0 {
        Map::empty()
    } else {
        let before = listed_versions(rows.drop_last());
        let row = rows.last();
        if row.is_dir && valid_version(row.name@) && !before.contains_key(row.name@) {
            before.insert(
                row.name@,
                if row.is_empty {
                    Contents::Empty
                } else {
                    Contents::Filled
                },
            )
        } else {
            before
        }
    }
}

/// The link as the listing has it: whether a target inside the directory is a
/// directory is what the listing says.
pub open spec fn settled(link: LinkView, versions: Map<Seq<char>, Contents>) -> LinkView {
    match link {
        LinkView::To { name: Some(name), inside: true, kind } => LinkView::To {
            name: Some(name),
            inside: true,
            kind: if versions.contains_key(name) {
                PathKind::Directory
            } else if kind == PathKind::Directory {
                PathKind::Missing
            } else {
                kind
            },
        },
        LinkView::To { name: None, inside: true, kind } => LinkView::To {
            name: None,
            inside: false,
            kind,
        },
        _ => link,
    }
}

/// The place that a link's target names: itself where it begins at the root,
/// else a place below the directory that holds the link.
pub open spec fn resolved_target(dir: Seq<char>, target: Seq<char>) -> Seq<char> {
    if target.len() > 0 && target[0] == '/' {
        target
    } else {
        dir + seq!['/'] + target
    }
}

/// The link `current` in the directory `dir` of a candidate, from the target
/// that it holds and from what stands there.
pub open spec fn link_to(dir: Seq<char>, target: Seq<char>, kind: PathKind) -> LinkView {
    let name = file_name(target);
    LinkView::To {
        name,
        inside: name is Some && components(resolved_target(dir, target)) == components(dir).push(
            name->0,
        ),
        kind,
    }
}

/// Whether a name can be that of a version's directory.
pub fn is_valid_version(name: &str) -> (valid: bool)
    ensures
        valid == valid_version(name@),
{
    let chars = chars_of(name);
    if chars.len() == 0 {
        return false;
    }
    if chars.len() == 1 && chars[0] == '.' {
        return false;
    }
    if chars.len() == 2 && chars[0] == '.' && chars[1] == '.' {
        assert(chars@ =~= seq!['.', '.']);
        return false;
    }
    proof {
        reveal_strlit("current");
        assert("current"@ =~= current_name());
    }
    if same_text(name, "current") {
        return false;
    }
    let mut i: usize = 0;
    while i < chars.len()
        invariant
            i <= chars.len(),
            chars@ == name@,
            forall|j: int| 0 <= j < i ==> chars@[j] != '/',
        decreases chars.len() - i,
    {
        if chars[i] == '/' {
            assert(name@[i as int] == '/');
            return false;
        }
        i += 1;
    }
    true
}

impl ActiveLink {
    /// The link `current` in the directory `dir` of a candidate, from the
    /// target that it holds and from what stands there.
    pub fn from_target(dir: &str, target: &str, kind: PathKind) -> (link: ActiveLink)
        ensures
            link@ == link_to(dir@, target@, kind),
    {
        let name = file_name_of(target);
        let raw = chars_of(target);
        let place = if raw.len() > 0 && raw[0] == '/' {
            String::from_str(target)
        } else {
            let mut place = String::from_str(dir);
            proof {
                reveal_strlit("/");
                assert("/"@ =~= seq!['/']);
            }
            place.append("/");
            place.append(target);
            place
        };
        assert(place@ == resolved_target(dir@, target@));
        let inside = match &name {
            None => false,
            Some(last) => {
                let parts = components_of(place.as_str());
                let base = components_of(dir);
                let mut same = parts.len() > 0 && parts.len() - 1 == base.len();
                if same {
                    same = same_text(parts[base.len()].as_str(), last.as_str());
                    proof {
                        assert(views_of(parts@)[base.len() as int] == parts@[base.len() as int]@);
                        assert(views_of(base@).push(last@)[base.len() as int] == last@);
                    }
                    let mut i: usize = 0;
                    while same && i < base.len()
                        invariant
                            i <= base.len(),
                            parts.len() == base.len() + 1,
                            same ==> forall|j: int|
                                0 <= j < i ==> views_of(parts@)[j] == views_of(base@)[j],
                            !same ==> views_of(parts@) != views_of(base@).push(last@),
                            views_of(parts@)[base.len() as int] == last@ || !same,
                        decreases base.len() - i,
                    {
                        if !same_text(parts[i].as_str(), base[i].as_str()) {
                            same = false;
                            assert(views_of(parts@)[i as int] == parts@[i as int]@);
                            assert(views_of(base@).push(last@)[i as int] == base@[i as int]@);
                        } else {
                            assert(views_of(parts@)[i as int] == parts@[i as int]@);
                            assert(views_of(base@)[i as int] == base@[i as int]@);
                        }
                        i += 1;
                    }
                    proof {
                        if same {
                            assert(views_of(parts@) =~= views_of(base@).push(last@));
                        } else if views_of(parts@)[base.len() as int] != last@ {
                            assert(views_of(base@).push(last@)[base.len() as int] == last@);
                        }
                    }
                } else {
                    assert(views_of(parts@).len() != views_of(base@).push(last@).len());
                }
                same
            },
        };
        ActiveLink::To { name, inside, kind }
    }
}

impl View for CandidateDir {
    type V = DirView;

    closed spec fn view(&self) -> DirView {
        DirView {
            name: self.name@,
            state: self.state,
            versions: map_of(self.versions@),
            link: self.link@,
        }
    }
}

impl CandidateDir {
    /// No version stands twice, and the picture is consistent.
    pub closed spec fn wf(&self) -> bool {
        &&& distinct(self.versions@)
        &&& self@.wf()
    }

    /// A well-formed directory shows a consistent picture.
    pub proof fn lemma_wf(&self)
        requires
            self.wf(),
        ensures
            self@.wf(),
    {
    }

    /// The directory of a candidate that has none.
    pub fn missing(name: &str) -> (dir: CandidateDir)
        ensures
            dir.wf(),
            dir@ == (DirView {
                name: name@,
                state: DirState::Missing,
                versions: Map::empty(),
                link: LinkView::Absent,
            }),
    {
        let dir = CandidateDir {
            name: String::from_str(name),
            state: DirState::Missing,
            versions: Vec::new(),
            link: ActiveLink::Absent,
        };
        proof {
            lemma_map_finite(dir.versions@);
            assert(map_of(dir.versions@) =~= Map::empty());
        }
        dir
    }

    /// The directory of a candidate that is there but cannot be listed.
    pub fn unreadable(name: &str) -> (dir: CandidateDir)
        ensures
            dir.wf(),
            dir@ == (DirView {
                name: name@,
                state: DirState::Unreadable,
                versions: Map::empty(),
                link: LinkView::Absent,
            }),
    {
        let dir = CandidateDir {
            name: String::from_str(name),
            state: DirState::Unreadable,
            versions: Vec::new(),
            link: ActiveLink::Absent,
        };
        proof {
            lemma_map_finite(dir.versions@);
            assert(map_of(dir.versions@) =~= Map::empty());
        }
        dir
    }

    /// The directory of a candidate, from its listing and its link. Of the
    /// rows, the directories with a valid name count, each once; `current`
    /// is never one of them.
    pub fn from_listing(name: &str, rows: &Vec<Listed>, link: ActiveLink) -> (dir: CandidateDir)
        ensures
            dir.wf(),
            dir@ == (DirView {
                name: name@,
                state: DirState::Present,
                versions: listed_versions(rows@),
                link: settled(link@, listed_versions(rows@)),
            }),
    {
        let mut versions: Vec<Version> = Vec::new();
        let mut i: usize = 0;
        proof {
            assert(rows@.take(0) =~= Seq::empty());
            assert(map_of(versions@) =~= Map::empty());
        }
        while i < rows.len()
            invariant
                i <= rows.len(),
                distinct(versions@),
                map_of(versions@) == listed_versions(rows@.take(i as int)),
                forall|name: Seq<char>| #[trigger]
                    map_of(versions@).contains_key(name) ==> valid_version(name),
            decreases rows.len() - i,
        {
            let row = &rows[i];
            proof {
                assert(rows@.take(i + 1).drop_last() =~= rows@.take(i as int));
                assert(rows@.take(i + 1).last() == rows@[i as int]);
            }
            if row.is_dir && is_valid_version(row.name.as_str()) && find(
                &versions,
                row.name.as_str(),
            ).is_none() {
                let added = Version {
                    name: row.name.clone(),
                    contents: if row.is_empty {
                        Contents::Empty
                    } else {
                        Contents::Filled
                    },
                };
                proof {
                    lemma_map_push(versions@, added);
                }
                versions.push(added);
            }
            i += 1;
        }
        assert(rows@.take(rows@.len() as int) =~= rows@);
        let settled_link = match link {
            ActiveLink::To { name: Some(target), inside: true, kind } => {
                let there = find(&versions, target.as_str()).is_some();
                ActiveLink::To {
                    name: Some(target),
                    inside: true,
                    kind: if there {
                        PathKind::Directory
                    } else if kind == PathKind::Directory {
                        PathKind::Missing
                    } else {
                        kind
                    },
                }
            },
            ActiveLink::To { name: None, inside: true, kind } => ActiveLink::To {
                name: None,
                inside: false,
                kind,
            },
            other => other,
        };
        let dir = CandidateDir {
            name: String::from_str(name),
            state: DirState::Present,
            versions,
            link: settled_link,
        };
        proof {
            lemma_map_finite(dir.versions@);
        }
        dir
    }

    /// The candidate.
    pub fn name(&self) -> (name: String)
        ensures
            name@ == self@.name,
    {
        self.name.clone()
    }

    /// Whether the directory is there.
    pub fn state(&self) -> (state: DirState)
        ensures
            state == self@.state,
    {
        self.state
    }

    /// The link `current`.
    pub fn link(&self) -> (link: &ActiveLink)
        ensures
            link@ == self@.link,
    {
        &self.link
    }

    /// What the directory of `version` holds, if it is there.
    pub fn contents_of(&self, version: &str) -> (contents: Option<Contents>)
        requires
            self.wf(),
        ensures
            contents == if self@.versions.contains_key(version@) {
                Some(self@.versions[version@])
            } else {
                None
            },
    {
        match find(&self.versions, version) {
            Some(at) => {
                proof {
                    lemma_map_at(self.versions@, at as int);
                }
                Some(self.versions[at].contents)
            },
            None => None,
        }
    }

    /// The names of the versions whose directories are there, each once, in
    /// no particular order.
    pub fn version_names(&self) -> (names: Vec<String>)
        requires
            self.wf(),
        ensures
            views_of(names@).no_duplicates(),
            forall|name: Seq<char>|
                views_of(names@).contains(name) <==> self@.versions.contains_key(name),
    {
        let mut names: Vec<String> = Vec::new();
        let mut i: usize = 0;
        while i < self.versions.len()
            invariant
                i <= self.versions.len(),
                names@.len() == i,
                forall|j: int| 0 <= j < i ==> (#[trigger] names@[j])@ == self.versions@[j].name@,
            decreases self.versions.len() - i,
        {
            names.push(self.versions[i].name.clone());
            i += 1;
        }
        proof {
            let views = views_of(names@);
            assert forall|a: int, b: int| 0 <= a < views.len() && 0 <= b < views.len() && a
                != b implies views[a] != views[b] by {
                assert(views[a] == names@[a]@);
                assert(views[b] == names@[b]@);
                if a < b {
                    assert(self.versions@[a].name@ != self.versions@[b].name@);
                } else {
                    assert(self.versions@[b].name@ != self.versions@[a].name@);
                }
            }
            assert forall|name: Seq<char>| views.contains(name) <==> self@.versions.contains_key(
                name,
            ) by {
                if views.contains(name) {
                    let a = choose|a: int| 0 <= a < views.len() && views[a] == name;
                    assert(names@[a]@ == self.versions@[a].name@);
                    assert(lists(self.versions@, name));
                }
                if lists(self.versions@, name) {
                    let a = place(self.versions@, name);
                    assert(views[a] == names@[a]@);
                }
            }
        }
        names
    }

    /// Records that the directory of `version` is there with `contents`.
    pub(crate) fn put_version(&mut self, version: &str, contents: Contents)
        requires
            old(self).wf(),
            valid_version(version@),
        ensures
            final(self).wf(),
            final(self)@ == old(self)@.with_version(version@, contents),
    {
        let added = Version { name: String::from_str(version), contents };
        match find(&self.versions, version) {
            Some(at) => {
                proof {
                    lemma_map_update(self.versions@, at as int, added);
                }
                self.versions.set(at, added);
            },
            None => {
                proof {
                    lemma_map_push(self.versions@, added);
                }
                self.versions.push(added);
            },
        }
        self.state = DirState::Present;
        let points_here = match &self.link {
            ActiveLink::To { name: Some(target), inside: true, .. } => same_text(
                target.as_str(),
                version,
            ),
            _ => false,
        };
        if points_here {
            self.link = ActiveLink::To {
                name: Some(String::from_str(version)),
                inside: true,
                kind: PathKind::Directory,
            };
        }
        proof {
            lemma_map_finite(self.versions@);
            assert(self@ =~= old(self)@.with_version(version@, contents));
        }
    }

    /// Records that the directory of `version` is gone.
    pub(crate) fn remove_version(&mut self, version: &str)
        requires
            old(self).wf(),
        ensures
            final(self).wf(),
            final(self)@ == old(self)@.without_version(version@),
    {
        match find(&self.versions, version) {
            Some(at) => {
                proof {
                    lemma_map_remove(self.versions@, at as int);
                }
                self.versions.remove(at);
            },
            None => {
                assert(map_of(self.versions@).remove(version@) =~= map_of(self.versions@));
            },
        }
        let points_here = match &self.link {
            ActiveLink::To { name: Some(target), inside: true, .. } => same_text(
                target.as_str(),
                version,
            ),
            _ => false,
        };
        if points_here {
            self.link = ActiveLink::To {
                name: Some(String::from_str(version)),
                inside: true,
                kind: PathKind::Missing,
            };
        }
        proof {
            lemma_map_finite(self.versions@);
            assert(self@ =~= old(self)@.without_version(version@));
        }
    }

    /// Records that the link points at the directory of `version`.
    pub(crate) fn point_at(&mut self, version: &str)
        requires
            old(self).wf(),
            old(self)@.state == DirState::Present,
        ensures
            final(self).wf(),
            final(self)@ == old(self)@.pointing_at(version@),
    {
        let there = find(&self.versions, version).is_some();
        self.link = ActiveLink::To {
            name: Some(String::from_str(version)),
            inside: true,
            kind: if there {
                PathKind::Directory
            } else {
                PathKind::Missing
            },
        };
        proof {
            assert(self@ =~= old(self)@.pointing_at(version@));
        }
    }

    /// Records that the link is gone.
    pub(crate) fn clear_link(&mut self)
        requires
            old(self).wf(),
        ensures
            final(self).wf(),
            final(self)@ == old(self)@.unlinked(),
    {
        self.link = ActiveLink::Absent;
        proof {
            assert(self@ =~= old(self)@.unlinked());
        }
    }
}

/// Where `name` stands among the versions.
fn find(versions: &Vec<Version>, name: &str) -> (at: Option<usize>)
    ensures
        match at {
            Some(i) => i < versions.len() && versions@[i as int].name@ == name@,
            None => !lists(versions@, name@),
        },
{
    let mut i: usize = 0;
    while i < versions.len()
        invariant
            i <= versions.len(),
            forall|j: int| 0 <= j < i ==> (#[trigger] versions@[j]).name@ != name@,
        decreases versions.len() - i,
    {
        if same_text(versions[i].name.as_str(), name) {
            return Some(i);
        }
        i += 1;
    }
    None
}


/// A change to carry out on disk, for the candidate and the version that the
/// command is about.
#[derive(Clone, Copy, Debug, PartialEq, Eq, Structural)]
pub enum FsAction {
    /// Remove the directory of the version with all that it holds.
    RemoveVersionDir,
    /// Create the directory of the version, and those above it.
    CreateVersionDir,
    /// Remove `current`.
    RemoveLink,
    /// Make `current` a link to the directory of the version; a directory
    /// link where the platform tells the two kinds apart.
    CreateLink,
    /// Make every regular file directly inside the version's `bin` directory,
    /// if there is one, readable and executable by all and writable by its
    /// owner.
    MakeBinExecutable,
}

impl FsAction {
    /// The picture once the change is carried out for `version`.
    pub open spec fn effect(self, d: DirView, version: Seq<char>) -> DirView {
        match self {
            FsAction::RemoveVersionDir => d.without_version(version),
            FsAction::CreateVersionDir => if d.installed(version) {
                d
            } else {
                d.with_version(version, Contents::Empty)
            },
            FsAction::RemoveLink => d.unlinked(),
            FsAction::CreateLink => d.pointing_at(version),
            FsAction::MakeBinExecutable => d,
        }
    }
}

/// The picture once some changes are carried out for `version`, one after
/// the other.
pub open spec fn effects(actions: Seq<FsAction>, d: DirView, version: Seq<char>) -> DirView
    decreases actions.len(),
{
    if actions.len() == 0 {
        d
    } else {
        effects(actions.drop_first(), actions[0].effect(d, version), version)
    }
}

/// The permission bits of an executable: `rwxr-xr-x`.
pub const EXECUTABLE_MODE: u32 = 0o755;

/// Where the SDKs are kept, below the user's home directory.
pub open spec fn sdkman_dir_of(home: Seq<char>) -> Seq<char> {
    home + "/.sdkman"@
}

/// The directory of a candidate.
pub open spec fn candidate_dir_of(home: Seq<char>, candidate: Seq<char>) -> Seq<char> {
    sdkman_dir_of(home) + "/candidates/"@ + candidate
}

/// The directory of a version.
pub open spec fn version_dir_of(home: Seq<char>, candidate: Seq<char>, version: Seq<char>) -> Seq<
    char,
> {
    candidate_dir_of(home, candidate) + "/"@ + version
}

/// The link that selects a candidate's active version.
pub open spec fn current_link_of(home: Seq<char>, candidate: Seq<char>) -> Seq<char> {
    candidate_dir_of(home, candidate) + "/current"@
}

/// Where the SDKs are kept, below the user's home directory.
pub fn sdkman_dir(home: &str) -> (path: String)
    ensures
        path@ == sdkman_dir_of(home@),
{
    let mut path = String::from_str(home);
    path.append("/.sdkman");
    path
}

/// The directory of a candidate.
pub fn candidate_dir(home: &str, candidate: &str) -> (path: String)
    ensures
        path@ == candidate_dir_of(home@, candidate@),
{
    let mut path = sdkman_dir(home);
    path.append("/candidates/");
    path.append(candidate);
    path
}

/// The directory of a version.
pub fn version_dir(home: &str, candidate: &str, version: &str) -> (path: String)
    ensures
        path@ == version_dir_of(home@, candidate@, version@),
{
    let mut path = candidate_dir(home, candidate);
    path.append("/");
    path.append(version);
    path
}

/// The link that selects a candidate's active version.
pub fn current_link(home: &str, candidate: &str) -> (path: String)
    ensures
        path@ == current_link_of(home@, candidate@),
{
    let mut path = candidate_dir(home, candidate);
    path.append("/current");
    path
}

} // verus!

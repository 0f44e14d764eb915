//! What the desktop app knows from the core service: the Cursor versions
//! and their status, the workspaces, the authentication status of each
//! version and the saved authentication profiles. Each reply of the core
//! service updates this state.

use vstd::prelude::*;
use crate::text::same_text;

verus! {

/// Status of a Cursor version.
#[derive(Clone, Copy, Debug, PartialEq, Eq, Structural)]
pub enum VersionStatus {
    Available,
    Downloading,
    Installed,
    Running,
}

/// A Cursor version: its name, status and the rest of it.
#[derive(Debug)]
pub struct VersionEntry<V> {
    pub version: String,
    pub status: VersionStatus,
    pub installed: bool,
    pub data: V,
}

/// A workspace: its ID, whether it is pinned, its git statistics `G` and
/// the rest of it.
#[derive(Debug)]
pub struct WorkspaceEntry<W, G> {
    pub id: String,
    pub pinned: bool,
    pub git_stats: G,
    pub data: W,
}

/// A saved authentication profile: the version it was taken from, when
/// known, and the rest of it.
#[derive(Debug)]
pub struct ProfileEntry<P> {
    pub extracted_from: Option<String>,
    pub data: P,
}

/// The state kept from the core service's replies; `A` is the
/// authentication status of a version, `P` an authentication profile.
pub struct CoreState<V, W, G, A, P> {
    pub versions: Vec<VersionEntry<V>>,
    pub workspaces: Vec<WorkspaceEntry<W, G>>,
    /// Authentication status by version
    pub auth_statuses: Vec<(String, A)>,
    pub auth_profiles: Vec<ProfileEntry<P>>,
}

/// Replies of the core service that change the state or ask for more.
#[derive(Debug)]
pub enum CoreEvent<V, W, G, A, P> {
    Versions(Vec<VersionEntry<V>>),
    /// Names of the installed versions
    InstalledVersions(Vec<String>),
    VersionRunning(String),
    DownloadStarted(String),
    DownloadCompleted(String),
    DownloadFailed(String),
    Workspaces(Vec<WorkspaceEntry<W, G>>),
    WorkspaceRegistered(WorkspaceEntry<W, G>),
    WorkspacePinned { id: String, pinned: bool },
    WorkspaceGitStats { id: String, git_stats: G },
    /// Authentication status of a version
    AuthStatus(String, A),
    AuthStatuses(Vec<(String, A)>),
    AuthExtracted(ProfileEntry<P>),
    /// Authentication was copied to the target version
    AuthApplied { target: String },
    AuthProfiles(Vec<ProfileEntry<P>>),
}

/// What the core service is asked next.
#[derive(Debug)]
pub enum CoreFollowUp {
    Nothing,
    GetAuthStatuses,
    GetAuthStatus { version: String },
}

/// `i` is the first version named `name`.
pub open spec fn first_version<V>(s: Seq<VersionEntry<V>>, name: Seq<char>, i: int) -> bool {
    0 <= i < s.len() && s[i].version@ == name && forall|j: int| 0 <= j < i ==> s[j].version@ != name
}

/// `s` with the first version named `name` changed by `f` (unchanged when
/// there is none).
pub open spec fn change_version<V>(s: Seq<VersionEntry<V>>, name: Seq<char>, f: spec_fn(VersionEntry<V>) -> VersionEntry<V>) -> Seq<VersionEntry<V>> {
    if exists|i: int| first_version(s, name, i) {
        let i = choose|i: int| first_version(s, name, i);
        s.update(i, f(s[i]))
    } else {
        s
    }
}

/// `s` with the first version named `name` given status `st`.
pub open spec fn with_status<V>(s: Seq<VersionEntry<V>>, name: Seq<char>, st: VersionStatus) -> Seq<VersionEntry<V>> {
    change_version(s, name, |e: VersionEntry<V>| VersionEntry { status: st, ..e })
}

/// `s` with each named version, in turn, marked installed.
pub open spec fn mark_installed<V>(s: Seq<VersionEntry<V>>, names: Seq<String>) -> Seq<VersionEntry<V>>
    decreases names.len(),
{
    if names.len() == 0 {
        s
    } else {
        with_status(mark_installed(s, names.drop_last()), names.last()@, VersionStatus::Installed)
    }
}

/// `i` is the first workspace with ID `id`.
pub open spec fn first_workspace<W, G>(s: Seq<WorkspaceEntry<W, G>>, id: Seq<char>, i: int) -> bool {
    0 <= i < s.len() && s[i].id@ == id && forall|j: int| 0 <= j < i ==> s[j].id@ != id
}

/// `s` with the first workspace with ID `id` changed by `f` (unchanged
/// when there is none).
pub open spec fn change_workspace<W, G>(s: Seq<WorkspaceEntry<W, G>>, id: Seq<char>, f: spec_fn(WorkspaceEntry<W, G>) -> WorkspaceEntry<W, G>) -> Seq<WorkspaceEntry<W, G>> {
    if exists|i: int| first_workspace(s, id, i) {
        let i = choose|i: int| first_workspace(s, id, i);
        s.update(i, f(s[i]))
    } else {
        s
    }
}

/// `s` after workspace `w` was registered: it replaces the first one with
/// its ID, or comes first when it is new.
pub open spec fn register_workspace<W, G>(s: Seq<WorkspaceEntry<W, G>>, w: WorkspaceEntry<W, G>) -> Seq<WorkspaceEntry<W, G>> {
    if exists|i: int| first_workspace(s, w.id@, i) {
        change_workspace(s, w.id@, |e: WorkspaceEntry<W, G>| w)
    } else {
        seq![w] + s
    }
}

/// The authentication status of each version: a later entry for a version
/// replaces an earlier one.
pub open spec fn auth_map<A>(v: Seq<(String, A)>) -> Map<Seq<char>, A>
    decreases v.len(),
{
    if v.len() == 0 {
        Map::empty()
    } else {
        auth_map(v.drop_last()).insert(v.last().0@, v.last().1)
    }
}

/// `v` without the entries for `key`, in order.
pub open spec fn without_key<A>(v: Seq<(String, A)>, key: Seq<char>) -> Seq<(String, A)>
    decreases v.len(),
{
    if v.len() == 0 {
        v
    } else {
        let rest = without_key(v.drop_last(), key);
        if v.last().0@ == key { rest } else { rest.push(v.last()) }
    }
}

proof fn lemma_without_key<A>(v: Seq<(String, A)>, key: Seq<char>)
    ensures
        auth_map(without_key(v, key)) == auth_map(v).remove(key),
    decreases v.len(),
{
    if v.len() == 0 {
        assert(auth_map(v).remove(key) =~= Map::<Seq<char>, A>::empty());
    } else {
        lemma_without_key(v.drop_last(), key);
        let rest = without_key(v.drop_last(), key);
        if v.last().0@ == key {
            assert(auth_map(v).remove(key) =~= auth_map(v.drop_last()).remove(key));
        } else {
            assert(rest.push(v.last()).drop_last() =~= rest);
            assert(auth_map(rest.push(v.last())) =~= auth_map(v).remove(key));
        }
    }
}

/// Removes the entries for `key`.
fn remove_key<A>(v: &mut Vec<(String, A)>, key: &str)
    ensures
        final(v)@ == without_key(old(v)@, key@),
{
    let ghost v0 = v@;
    let n = v.len();
    let mut rest: Vec<(String, A)> = Vec::new();
    while v.len() > 0
        invariant
            rest@.len() + v@.len() == v0.len(),
            v@ == v0.take(v@.len() as int),
            forall|k: int| 0 <= k < rest@.len() ==> rest@[k] == v0[v0.len() - 1 - k],
        decreases v@.len(),
    {
        let x = v.pop().unwrap();
        rest.push(x);
    }
    let mut kept: Vec<(String, A)> = Vec::new();
    let mut taken: usize = 0;
    while rest.len() > 0
        invariant
            taken + rest@.len() == v0.len(),
            n == v0.len(),
            forall|k: int| 0 <= k < rest@.len() ==> rest@[k] == v0[v0.len() - 1 - k],
            kept@ == without_key(v0.take(taken as int), key@),
        decreases rest@.len(),
    {
        let x = rest.pop().unwrap();
        proof {
            assert(x == v0[taken as int]);
            assert(v0.take(taken + 1).drop_last() =~= v0.take(taken as int));
        }
        if !same_text(x.0.as_str(), key) {
            kept.push(x);
        }
        taken = taken + 1;
    }
    assert(v0.take(taken as int) =~= v0);
    *v = kept;
}

/// Records the authentication status of a version, replacing the one it
/// had.
fn put_auth<A>(v: &mut Vec<(String, A)>, version: String, status: A)
    ensures
        auth_map(final(v)@) == auth_map(old(v)@).insert(version@, status),
{
    remove_key(v, version.as_str());
    proof {
        lemma_without_key(old(v)@, version@);
    }
    let ghost mid = v@;
    let ghost k = version@;
    v.push((version, status));
    assert(v@.drop_last() =~= mid);
    assert(auth_map(v@) =~= auth_map(old(v)@).insert(k, status));
}

/// Position of the first version named `name`.
fn find_version<V>(s: &Vec<VersionEntry<V>>, name: &str) -> (r: Option<usize>)
    ensures
        r matches Some(i) ==> first_version(s@, name@, i as int),
        r is None ==> !exists|i: int| first_version(s@, name@, i),
{
    let mut i: usize = 0;
    while i < s.len()
        invariant
            i <= s@.len(),
            forall|j: int| 0 <= j < i ==> s@[j].version@ != name@,
        decreases s@.len() - i,
    {
        if same_text(s[i].version.as_str(), name) {
            return Some(i);
        }
        i = i + 1;
    }
    None
}

/// Position of the first workspace with ID `id`.
fn find_workspace<W, G>(s: &Vec<WorkspaceEntry<W, G>>, id: &str) -> (r: Option<usize>)
    ensures
        r matches Some(i) ==> first_workspace(s@, id@, i as int),
        r is None ==> !exists|i: int| first_workspace(s@, id@, i),
{
    let mut i: usize = 0;
    while i < s.len()
        invariant
            i <= s@.len(),
            forall|j: int| 0 <= j < i ==> s@[j].id@ != id@,
        decreases s@.len() - i,
    {
        if same_text(s[i].id.as_str(), id) {
            return Some(i);
        }
        i = i + 1;
    }
    None
}

proof fn lemma_first_version_unique<V>(s: Seq<VersionEntry<V>>, name: Seq<char>, i: int)
    requires
        first_version(s, name, i),
    ensures
        (choose|j: int| first_version(s, name, j)) == i,
{
    let j = choose|j: int| first_version(s, name, j);
    assert(first_version(s, name, j));
}

proof fn lemma_first_workspace_unique<W, G>(s: Seq<WorkspaceEntry<W, G>>, id: Seq<char>, i: int)
    requires
        first_workspace(s, id, i),
    ensures
        (choose|j: int| first_workspace(s, id, j)) == i,
{
    let j = choose|j: int| first_workspace(s, id, j);
    assert(first_workspace(s, id, j));
}

/// Gives the first version named `name` status `st`, and marks it
/// installed when `installed` is set.
fn set_version_status<V>(s: &mut Vec<VersionEntry<V>>, name: &str, st: VersionStatus, installed: bool)
    ensures
        final(s)@ == change_version(old(s)@, name@,
            |e: VersionEntry<V>| VersionEntry { status: st, installed: if installed { true } else { e.installed }, ..e }),
{
    match find_version(s, name) {
        Some(i) => {
            proof {
                lemma_first_version_unique(s@, name@, i as int);
            }
            let mut e = s.remove(i);
            e.status = st;
            if installed {
                e.installed = true;
            }
            s.insert(i, e);
            proof {
                assert(s@ =~= change_version(old(s)@, name@,
                    |e: VersionEntry<V>| VersionEntry { status: st, installed: if installed { true } else { e.installed }, ..e }));
            }
        },
        None => {},
    }
}

/// Names of the versions whose status satisfies `p`, in order.
pub open spec fn names_where<V>(s: Seq<VersionEntry<V>>, p: spec_fn(VersionStatus) -> bool) -> Seq<Seq<char>>
    decreases s.len(),
{
    if s.len() == 0 {
        Seq::empty()
    } else if p(s.last().status) {
        names_where(s.drop_last(), p).push(s.last().version@)
    } else {
        names_where(s.drop_last(), p)
    }
}

pub open spec fn on_disk(st: VersionStatus) -> bool {
    st == VersionStatus::Installed || st == VersionStatus::Running
}

pub open spec fn running(st: VersionStatus) -> bool {
    st == VersionStatus::Running
}

pub open spec fn views(v: Seq<String>) -> Seq<Seq<char>> {
    v.map_values(|s: String| s@)
}

/// Names of the running versions when `running_only`, else of those on
/// disk.
fn names_with<V>(versions: &[VersionEntry<V>], running_only: bool) -> (r: Vec<String>)
    ensures
        running_only ==> views(r@) == names_where(versions@, |st: VersionStatus| running(st)),
        !running_only ==> views(r@) == names_where(versions@, |st: VersionStatus| on_disk(st)),
{
    let mut r: Vec<String> = Vec::new();
    let mut i: usize = 0;
    while i < versions.len()
        invariant
            i <= versions@.len(),
            running_only ==> views(r@) == names_where(versions@.take(i as int), |st: VersionStatus| running(st)),
            !running_only ==> views(r@) == names_where(versions@.take(i as int), |st: VersionStatus| on_disk(st)),
        decreases versions@.len() - i,
    {
        let st = versions[i].status;
        let take = if running_only {
            st == VersionStatus::Running
        } else {
            st == VersionStatus::Installed || st == VersionStatus::Running
        };
        let ghost before = r@;
        if take {
            r.push(versions[i].version.clone());
            assert(views(r@) =~= views(before).push(versions@[i as int].version@));
        }
        assert(versions@.take(i + 1).drop_last() =~= versions@.take(i as int));
        i = i + 1;
    }
    assert(versions@.take(i as int) =~= versions@);
    r
}

/// The versions whose disk usage is measured (installed or running), and
/// those of them that are running.
pub fn disk_usage_targets<V>(versions: &[VersionEntry<V>]) -> (r: (Vec<String>, Vec<String>))
    ensures
        views(r.0@) == names_where(versions@, |st: VersionStatus| on_disk(st)),
        views(r.1@) == names_where(versions@, |st: VersionStatus| running(st)),
{
    (names_with(versions, false), names_with(versions, true))
}

impl<V, W, G, A, P> CoreState<V, W, G, A, P> {
    /// The authentication status of each version.
    pub open spec fn auth(&self) -> Map<Seq<char>, A> {
        auth_map(self.auth_statuses@)
    }

    /// Nothing known yet.
    pub fn new() -> (c: Self)
        ensures
            c.versions@.len() == 0,
            c.workspaces@.len() == 0,
            c.auth() == Map::<Seq<char>, A>::empty(),
            c.auth_profiles@.len() == 0,
    {
        let c = CoreState { versions: Vec::new(), workspaces: Vec::new(), auth_statuses: Vec::new(), auth_profiles: Vec::new() };
        assert(c.auth() =~= Map::<Seq<char>, A>::empty());
        c
    }

    /// The version whose authentication is copied to another: the one the
    /// most recent profile (the first listed) was taken from.
    pub fn auth_source(&self) -> (r: Option<String>)
        ensures
            self.auth_profiles@.len() == 0 ==> r is None,
            self.auth_profiles@.len() > 0 ==> r == self.auth_profiles@[0].extracted_from,
    {
        if self.auth_profiles.len() == 0 {
            None
        } else {
            match &self.auth_profiles[0].extracted_from {
                Some(v) => Some(v.clone()),
                None => None,
            }
        }
    }

    /// Handles one reply of the core service; gives what to ask next.
    pub fn handle(&mut self, ev: CoreEvent<V, W, G, A, P>) -> (next: CoreFollowUp)
        ensures
            ev matches CoreEvent::Versions(v) ==> next is GetAuthStatuses
                && *final(self) == (CoreState { versions: v, ..*old(self) }),
            ev matches CoreEvent::InstalledVersions(names) ==> next is Nothing
                && final(self).versions@ == mark_installed(old(self).versions@, names@)
                && *final(self) == (CoreState { versions: final(self).versions, ..*old(self) }),
            ev matches CoreEvent::VersionRunning(name) ==> next is Nothing
                && final(self).versions@ == with_status(old(self).versions@, name@, VersionStatus::Running)
                && *final(self) == (CoreState { versions: final(self).versions, ..*old(self) }),
            ev matches CoreEvent::DownloadStarted(name) ==> next is Nothing
                && final(self).versions@ == with_status(old(self).versions@, name@, VersionStatus::Downloading)
                && *final(self) == (CoreState { versions: final(self).versions, ..*old(self) }),
            ev matches CoreEvent::DownloadCompleted(name) ==> next is Nothing
                && final(self).versions@ == change_version(old(self).versions@, name@,
                    |e: VersionEntry<V>| VersionEntry { status: VersionStatus::Installed, installed: true, ..e })
                && *final(self) == (CoreState { versions: final(self).versions, ..*old(self) }),
            ev matches CoreEvent::DownloadFailed(name) ==> next is Nothing
                && final(self).versions@ == with_status(old(self).versions@, name@, VersionStatus::Available)
                && *final(self) == (CoreState { versions: final(self).versions, ..*old(self) }),
            ev matches CoreEvent::Workspaces(w) ==> next is Nothing
                && *final(self) == (CoreState { workspaces: w, ..*old(self) }),
            ev matches CoreEvent::WorkspaceRegistered(w) ==> next is Nothing
                && final(self).workspaces@ == register_workspace(old(self).workspaces@, w)
                && *final(self) == (CoreState { workspaces: final(self).workspaces, ..*old(self) }),
            ev matches CoreEvent::WorkspacePinned { id, pinned } ==> next is Nothing
                && final(self).workspaces@ == change_workspace(old(self).workspaces@, id@,
                    |e: WorkspaceEntry<W, G>| WorkspaceEntry { pinned, ..e })
                && *final(self) == (CoreState { workspaces: final(self).workspaces, ..*old(self) }),
            ev matches CoreEvent::WorkspaceGitStats { id, git_stats } ==> next is Nothing
                && final(self).workspaces@ == change_workspace(old(self).workspaces@, id@,
                    |e: WorkspaceEntry<W, G>| WorkspaceEntry { git_stats, ..e })
                && *final(self) == (CoreState { workspaces: final(self).workspaces, ..*old(self) }),
            ev matches CoreEvent::AuthStatus(version, a) ==> next is Nothing
                && final(self).auth() == old(self).auth().insert(version@, a)
                && *final(self) == (CoreState { auth_statuses: final(self).auth_statuses, ..*old(self) }),
            ev matches CoreEvent::AuthStatuses(list) ==> next is Nothing
                && final(self).auth() == old(self).auth().union_prefer_right(auth_map(list@))
                && *final(self) == (CoreState { auth_statuses: final(self).auth_statuses, ..*old(self) }),
            ev matches CoreEvent::AuthExtracted(p) ==> next is Nothing
                && final(self).auth_profiles@ == old(self).auth_profiles@.push(p)
                && *final(self) == (CoreState { auth_profiles: final(self).auth_profiles, ..*old(self) }),
            ev matches CoreEvent::AuthApplied { target } ==> *final(self) == *old(self)
                && next == (CoreFollowUp::GetAuthStatus { version: target }),
            ev matches CoreEvent::AuthProfiles(p) ==> next is Nothing
                && *final(self) == (CoreState { auth_profiles: p, ..*old(self) }),
    {
        match ev {
            CoreEvent::Versions(v) => {
                self.versions = v;
                CoreFollowUp::GetAuthStatuses
            },
            CoreEvent::InstalledVersions(names) => {
                let mut i: usize = 0;
                while i < names.len()
                    invariant
                        i <= names@.len(),
                        self.versions@ == mark_installed(old(self).versions@, names@.take(i as int)),
                        *self == (CoreState { versions: self.versions, ..*old(self) }),
                    decreases names@.len() - i,
                {
                    set_version_status(&mut self.versions, names[i].as_str(), VersionStatus::Installed, false);
                    proof {
                        assert(names@.take(i + 1).drop_last() =~= names@.take(i as int));
                        let f1 = |e: VersionEntry<V>| VersionEntry { status: VersionStatus::Installed, installed: if false { true } else { e.installed }, ..e };
                        let f2 = |e: VersionEntry<V>| VersionEntry { status: VersionStatus::Installed, ..e };
                        assert(f1 =~= f2);
                    }
                    i = i + 1;
                }
                assert(names@.take(i as int) =~= names@);
                CoreFollowUp::Nothing
            },
            CoreEvent::VersionRunning(name) => {
                set_version_status(&mut self.versions, name.as_str(), VersionStatus::Running, false);
                proof {
                    let f1 = |e: VersionEntry<V>| VersionEntry { status: VersionStatus::Running, installed: if false { true } else { e.installed }, ..e };
                    let f2 = |e: VersionEntry<V>| VersionEntry { status: VersionStatus::Running, ..e };
                    assert(f1 =~= f2);
                }
                CoreFollowUp::Nothing
            },
            CoreEvent::DownloadStarted(name) => {
                set_version_status(&mut self.versions, name.as_str(), VersionStatus::Downloading, false);
                proof {
                    let f1 = |e: VersionEntry<V>| VersionEntry { status: VersionStatus::Downloading, installed: if false { true } else { e.installed }, ..e };
                    let f2 = |e: VersionEntry<V>| VersionEntry { status: VersionStatus::Downloading, ..e };
                    assert(f1 =~= f2);
                }
                CoreFollowUp::Nothing
            },
            CoreEvent::DownloadCompleted(name) => {
                set_version_status(&mut self.versions, name.as_str(), VersionStatus::Installed, true);
                proof {
                    let f1 = |e: VersionEntry<V>| VersionEntry { status: VersionStatus::Installed, installed: if true { true } else { e.installed }, ..e };
                    let f2 = |e: VersionEntry<V>| VersionEntry { status: VersionStatus::Installed, installed: true, ..e };
                    assert(f1 =~= f2);
                }
                CoreFollowUp::Nothing
            },
            CoreEvent::DownloadFailed(name) => {
                set_version_status(&mut self.versions, name.as_str(), VersionStatus::Available, false);
                proof {
                    let f1 = |e: VersionEntry<V>| VersionEntry { status: VersionStatus::Available, installed: if false { true } else { e.installed }, ..e };
                    let f2 = |e: VersionEntry<V>| VersionEntry { status: VersionStatus::Available, ..e };
                    assert(f1 =~= f2);
                }
                CoreFollowUp::Nothing
            },
            CoreEvent::Workspaces(w) => {
                self.workspaces = w;
                CoreFollowUp::Nothing
            },
            CoreEvent::WorkspaceRegistered(w) => {
                match find_workspace(&self.workspaces, w.id.as_str()) {
                    Some(i) => {
                        proof {
                            lemma_first_workspace_unique(self.workspaces@, w.id@, i as int);
                        }
                        let ghost w0 = w;
                        self.workspaces.set(i, w);
                        proof {
                            assert(self.workspaces@ =~= change_workspace(old(self).workspaces@, w0.id@,
                                |e: WorkspaceEntry<W, G>| w0));
                        }
                    },
                    None => {
                        let ghost w0 = w;
                        self.workspaces.insert(0, w);
                        assert(self.workspaces@ =~= seq![w0] + old(self).workspaces@);
                    },
                }
                CoreFollowUp::Nothing
            },
            CoreEvent::WorkspacePinned { id, pinned } => {
                match find_workspace(&self.workspaces, id.as_str()) {
                    Some(i) => {
                        proof {
                            lemma_first_workspace_unique(self.workspaces@, id@, i as int);
                        }
                        let mut e = self.workspaces.remove(i);
                        e.pinned = pinned;
                        self.workspaces.insert(i, e);
                        proof {
                            assert(self.workspaces@ =~= change_workspace(old(self).workspaces@, id@,
                                |e: WorkspaceEntry<W, G>| WorkspaceEntry { pinned, ..e }));
                        }
                    },
                    None => {},
                }
                CoreFollowUp::Nothing
            },
            CoreEvent::WorkspaceGitStats { id, git_stats } => {
                match find_workspace(&self.workspaces, id.as_str()) {
                    Some(i) => {
                        proof {
                            lemma_first_workspace_unique(self.workspaces@, id@, i as int);
                        }
                        let ghost g = git_stats;
                        let mut e = self.workspaces.remove(i);
                        e.git_stats = git_stats;
                        self.workspaces.insert(i, e);
                        proof {
                            assert(self.workspaces@ =~= change_workspace(old(self).workspaces@, id@,
                                |e: WorkspaceEntry<W, G>| WorkspaceEntry { git_stats: g, ..e }));
                        }
                    },
                    None => {},
                }
                CoreFollowUp::Nothing
            },
            CoreEvent::AuthStatus(version, a) => {
                put_auth(&mut self.auth_statuses, version, a);
                CoreFollowUp::Nothing
            },
            CoreEvent::AuthStatuses(list) => {
                let mut items = list;
                let ghost all = items@;
                let n = items.len();
                let mut rest: Vec<(String, A)> = Vec::new();
                while items.len() > 0
                    invariant
                        rest@.len() + items@.len() == all.len(),
                        items@ == all.take(items@.len() as int),
                        forall|k: int| 0 <= k < rest@.len() ==> rest@[k] == all[all.len() - 1 - k],
                        n == all.len(),
                        *self == *old(self),
                    decreases items@.len(),
                {
                    let x = items.pop().unwrap();
                    rest.push(x);
                }
                let mut taken: usize = 0;
                while rest.len() > 0
                    invariant
                        taken + rest@.len() == all.len(),
                        n == all.len(),
                        forall|k: int| 0 <= k < rest@.len() ==> rest@[k] == all[all.len() - 1 - k],
                        self.auth() == old(self).auth().union_prefer_right(auth_map(all.take(taken as int))),
                        *self == (CoreState { auth_statuses: self.auth_statuses, ..*old(self) }),
                    decreases rest@.len(),
                {
                    let x = rest.pop().unwrap();
                    proof {
                        assert(x == all[taken as int]);
                        assert(all.take(taken + 1).drop_last() =~= all.take(taken as int));
                        assert(old(self).auth().union_prefer_right(auth_map(all.take(taken + 1)))
                            =~= old(self).auth().union_prefer_right(auth_map(all.take(taken as int))).insert(x.0@, x.1));
                    }
                    put_auth(&mut self.auth_statuses, x.0, x.1);
                    taken = taken + 1;
                }
                assert(all.take(taken as int) =~= all);
                CoreFollowUp::Nothing
            },
            CoreEvent::AuthExtracted(p) => {
                self.auth_profiles.push(p);
                CoreFollowUp::Nothing
            },
            CoreEvent::AuthApplied { target } => CoreFollowUp::GetAuthStatus { version: target },
            CoreEvent::AuthProfiles(p) => {
                self.auth_profiles = p;
                CoreFollowUp::Nothing
            },
        }
    }
}

/// Whether the connection to the core service just came up, so that
/// everything is to be asked for again.
pub fn needs_full_refresh(was_connected: bool, is_connected: bool) -> (r: bool)
    ensures
        r == (is_connected && !was_connected),
{
    is_connected && !was_connected
}

} // verus!

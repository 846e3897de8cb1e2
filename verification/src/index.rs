//! The registry index: backends and the façade over them.
//!
//! Both backends keep the same record store; they differ in how a
//! mutation becomes durable. The git-backed index queues one commit
//! request per mutation for an external commit-and-push cycle; the
//! sparse (flat-file) index has no external synchronization point.
//! Every mutation goes through `&mut self`, so commits on one index
//! value are serialized and can never interleave.

use crate::errors::{IndexError, VcsError};
use crate::record::{copy_string, CrateVersion};
use crate::requirement::Requirement;
use crate::resolver;
use crate::store::{
    append_model, has_record, records_of, rewrite_model, PackageView, Tree,
};
use crate::version::{Version, VersionView};
use vstd::prelude::*;

verus! {

/// What a queued commit records.
#[derive(Clone, Copy, Debug, PartialEq, Eq, Structural)]
pub enum CommitAction {
    /// A record was appended.
    Publish,
    /// A record's yank flag was set.
    Yank,
    /// A record's yank flag was cleared.
    Unyank,
}

/// The mathematical value of a queued commit.
pub ghost struct CommitView {
    pub action: CommitAction,
    pub name: Seq<char>,
    pub version: VersionView,
}

/// One queued commit of the git-backed index: a mutation that still
/// has to go through the external stage–commit–push cycle. Its message
/// embeds the package name and version.
#[derive(Debug)]
pub struct CommitRequest {
    pub action: CommitAction,
    pub name: String,
    pub version: Version,
}

impl View for CommitRequest {
    type V = CommitView;

    open spec fn view(&self) -> CommitView {
        CommitView { action: self.action, name: self.name@, version: self.version@ }
    }
}

impl DeepView for CommitRequest {
    type V = CommitView;

    open spec fn deep_view(&self) -> CommitView {
        self.view()
    }
}

/// The words that open a commit message for each action.
pub open spec fn action_words(a: CommitAction) -> Seq<char> {
    match a {
        CommitAction::Publish => "added crate "@,
        CommitAction::Yank => "yanked crate "@,
        CommitAction::Unyank => "unyanked crate "@,
    }
}

impl CommitRequest {
    /// The commit message: what happened, to which crate, and — for a
    /// well-formed version — the version's canonical text in
    /// parentheses.
    pub fn message(&self) -> (r: String)
        ensures
            self.version@.wf() ==> r@ == action_words(self.action) + self.name@ + " ("@
                + crate::version::ascii_str(crate::version::version_bytes(self.version@)) + ")"@,
    {
        let head: &str = match self.action {
            CommitAction::Publish => "added crate ",
            CommitAction::Yank => "yanked crate ",
            CommitAction::Unyank => "unyanked crate ",
        };
        let mut msg = head.to_owned();
        msg.append(self.name.as_str());
        msg.append(" (");
        let vt = self.version.to_text();
        msg.append(vt.as_str());
        msg.append(")");
        msg
    }
}

/// The handle to the working copy's repository; the commands that act
/// on it run outside the core.
#[derive(Debug)]
pub struct Repository {
    pub path: String,
}

/// The git-backed index: the record store plus the queue of commits
/// not yet confirmed pushed.
#[derive(Debug)]
pub struct GitIndex {
    pub repo: Repository,
    pub tree: Tree,
    pub pending: Vec<CommitRequest>,
}

impl GitIndex {
    /// An empty git-backed index over the working copy at `repo_path`.
    pub fn new(repo_path: String) -> (idx: GitIndex)
        ensures
            idx.tree@ =~= Seq::<PackageView>::empty(),
            idx.pending.deep_view() =~= Seq::<CommitView>::empty(),
            idx.repo.path@ == repo_path@,
    {
        let path_copy = copy_string(&repo_path);
        GitIndex { repo: Repository { path: path_copy }, tree: Tree::new(), pending: Vec::new() }
    }

    /// The commits that still await a successful push.
    pub fn pending_commits(&self) -> (r: &Vec<CommitRequest>)
        ensures
            r.deep_view() == self.pending.deep_view(),
    {
        &self.pending
    }

    /// Records the outcome of one external commit-and-push cycle over
    /// the queued commits. On success the queue empties; on a rejected
    /// push the local commits are kept for a later retry and the error
    /// says so.
    pub fn apply_push_outcome(&mut self, pushed: bool) -> (r: Result<(), VcsError>)
        ensures
            final(self).tree@ == old(self).tree@,
            pushed ==> (r matches Ok(()) && final(self).pending.deep_view() =~= Seq::<
                CommitView,
            >::empty()),
            !pushed ==> (r matches Err(e) && e == VcsError::PushRejected && final(self).pending.deep_view() == old(self).pending.deep_view()),
    {
        if pushed {
            self.pending.clear();
            Ok(())
        } else {
            Err(VcsError::PushRejected)
        }
    }
}

/// The sparse (flat-file) index: the same record store with no
/// external history to push.
#[derive(Debug)]
pub struct SparseIndex {
    pub tree: Tree,
}

impl SparseIndex {
    /// An empty sparse index.
    pub fn new() -> (idx: SparseIndex)
        ensures
            idx.tree@ =~= Seq::<PackageView>::empty(),
    {
        SparseIndex { tree: Tree::new() }
    }
}

/// The registry index, as one of its backend variants.
#[derive(Debug)]
pub enum Index {
    Git(GitIndex),
    Sparse(SparseIndex),
}

impl Index {
    /// The record store of the backend.
    pub open spec fn packages(&self) -> Seq<PackageView> {
        match self {
            Index::Git(g) => g.tree@,
            Index::Sparse(s) => s.tree@,
        }
    }

    /// Whether this is the git-backed variant.
    pub open spec fn is_git(&self) -> bool {
        self matches Index::Git(_)
    }

    /// The queued commits; always empty for the sparse backend.
    pub open spec fn pending_view(&self) -> Seq<CommitView> {
        match self {
            Index::Git(g) => g.pending.deep_view(),
            Index::Sparse(_) => Seq::empty(),
        }
    }

    /// Adds a new crate record into the index; fails with
    /// `DuplicateVersion` — changing nothing — when the record's
    /// `(name, version)` pair already exists. On the git backend a
    /// publish commit is queued.
    pub fn add_record(&mut self, record: CrateVersion) -> (r: Result<(), IndexError>)
        ensures
            final(self).is_git() == old(self).is_git(),
            if has_record(old(self).packages(), record@.name, record@.version) {
                &&& r matches Err(e) && e == IndexError::DuplicateVersion
                &&& final(self).packages() == old(self).packages()
                &&& final(self).pending_view() == old(self).pending_view()
            } else {
                &&& r matches Ok(())
                &&& final(self).packages() == append_model(old(self).packages(), record@)
                &&& final(self).pending_view() == if old(self).is_git() {
                    old(self).pending_view().push(
                        CommitView {
                            action: CommitAction::Publish,
                            name: record@.name,
                            version: record@.version,
                        },
                    )
                } else {
                    old(self).pending_view()
                }
            },
    {
        match self {
            Index::Git(g) => {
                let name = copy_string(&record.name);
                let version = record.version.duplicate();
                let r = g.tree.add_record(record);
                match r {
                    Ok(()) => {
                        let ghost prev = g.pending.deep_view();
                        g.pending.push(
                            CommitRequest { action: CommitAction::Publish, name, version },
                        );
                        proof {
                            assert(g.pending.deep_view() =~= prev.push(
                                CommitView {
                                    action: CommitAction::Publish,
                                    name: name@,
                                    version: version@,
                                },
                            ));
                        }
                        Ok(())
                    },
                    Err(e) => Err(e),
                }
            },
            Index::Sparse(s) => s.tree.add_record(record),
        }
    }

    /// Retrieves all the version records of a crate, in storage order;
    /// fails with `PackageNotFound` when the index has no collection
    /// for the name.
    pub fn all_records(&self, name: &String) -> (r: Result<Vec<CrateVersion>, IndexError>)
        ensures
            match records_of(self.packages(), name@) {
                Some(rs) => r matches Ok(out) && out.deep_view() == rs,
                None => r matches Err(e) && e == IndexError::PackageNotFound,
            },
    {
        match self {
            Index::Git(g) => g.tree.read_all(name),
            Index::Sparse(s) => s.tree.read_all(name),
        }
    }

    /// Retrieves the latest version record of a crate — the maximum by
    /// semantic-version precedence, yanked or not.
    pub fn latest_record(&self, name: &String) -> (r: Result<CrateVersion, IndexError>)
        ensures
            match records_of(self.packages(), name@) {
                Some(rs) => {
                    &&& rs.len() == 0 <==> (r matches Err(e) && e == IndexError::NotFound)
                    &&& rs.len() > 0 ==> r is Ok
                    &&& r matches Ok(rec) ==> resolver::is_latest(rs, rec@)
                },
                None => r matches Err(e) && e == IndexError::PackageNotFound,
            },
    {
        let records = self.all_records(name)?;
        resolver::latest(&records)
    }

    /// Retrieves the crate version record with the highest version
    /// that satisfies the requirement, never a yanked one unless the
    /// requirement pins that exact version.
    pub fn match_record(&self, name: &String, req: &Requirement) -> (r: Result<
        CrateVersion,
        IndexError,
    >)
        ensures
            match records_of(self.packages(), name@) {
                Some(rs) => {
                    &&& r matches Ok(rec) ==> resolver::is_best_match(rs, req@, rec@)
                    &&& r matches Err(e) ==> e == IndexError::NotFound && !resolver::has_candidate(
                        rs,
                        req@,
                    )
                },
                None => r matches Err(e) && e == IndexError::PackageNotFound,
            },
    {
        let records = self.all_records(name)?;
        resolver::match_req(&records, req)
    }

    /// Sets the yank flag of `(name, version)` to `yanked`, leaving
    /// all other records and fields untouched; fails — changing
    /// nothing — when the package or version is absent. On the git
    /// backend a commit is queued.
    pub fn alter_record(&mut self, name: &String, version: &Version, yanked: bool) -> (r: Result<
        (),
        IndexError,
    >)
        ensures
            final(self).is_git() == old(self).is_git(),
            match records_of(old(self).packages(), name@) {
                None => {
                    &&& r matches Err(e) && e == IndexError::PackageNotFound
                    &&& final(self).packages() == old(self).packages()
                    &&& final(self).pending_view() == old(self).pending_view()
                },
                Some(rs) => {
                    if crate::store::has_version(rs, version@) {
                        &&& r matches Ok(())
                        &&& final(self).packages() == rewrite_model(
                            old(self).packages(),
                            name@,
                            version@,
                            yanked,
                        )
                        &&& final(self).pending_view() == if old(self).is_git() {
                            old(self).pending_view().push(
                                CommitView {
                                    action: if yanked {
                                        CommitAction::Yank
                                    } else {
                                        CommitAction::Unyank
                                    },
                                    name: name@,
                                    version: version@,
                                },
                            )
                        } else {
                            old(self).pending_view()
                        }
                    } else {
                        &&& r matches Err(e) && e == IndexError::VersionNotFound
                        &&& final(self).packages() == old(self).packages()
                        &&& final(self).pending_view() == old(self).pending_view()
                    }
                },
            },
    {
        match self {
            Index::Git(g) => {
                let r = g.tree.alter_record(name, version, yanked);
                match r {
                    Ok(()) => {
                        let ghost prev = g.pending.deep_view();
                        let action = if yanked {
                            CommitAction::Yank
                        } else {
                            CommitAction::Unyank
                        };
                        g.pending.push(
                            CommitRequest {
                                action,
                                name: copy_string(name),
                                version: version.duplicate(),
                            },
                        );
                        proof {
                            assert(g.pending.deep_view() =~= prev.push(
                                CommitView { action, name: name@, version: version@ },
                            ));
                        }
                        Ok(())
                    },
                    Err(e) => Err(e),
                }
            },
            Index::Sparse(s) => s.tree.alter_record(name, version, yanked),
        }
    }

    /// Yanks a crate version: marks it as not to be newly depended
    /// upon, without deleting it. Yanking an already-yanked version
    /// succeeds and is a no-op on the record.
    pub fn yank_record(&mut self, name: &String, version: &Version) -> (r: Result<(), IndexError>)
        ensures
            final(self).is_git() == old(self).is_git(),
            match records_of(old(self).packages(), name@) {
                None => r matches Err(e) && e == IndexError::PackageNotFound && final(self).packages() == old(self).packages(),
                Some(rs) => {
                    if crate::store::has_version(rs, version@) {
                        r matches Ok(()) && final(self).packages() == rewrite_model(
                            old(self).packages(),
                            name@,
                            version@,
                            true,
                        )
                    } else {
                        r matches Err(e) && e == IndexError::VersionNotFound && final(self).packages() == old(self).packages()
                    }
                },
            },
    {
        self.alter_record(name, version, true)
    }

    /// Un-yanks a crate version. Un-yanking a version that is not
    /// yanked succeeds and is a no-op on the record.
    pub fn unyank_record(&mut self, name: &String, version: &Version) -> (r: Result<
        (),
        IndexError,
    >)
        ensures
            final(self).is_git() == old(self).is_git(),
            match records_of(old(self).packages(), name@) {
                None => r matches Err(e) && e == IndexError::PackageNotFound && final(self).packages() == old(self).packages(),
                Some(rs) => {
                    if crate::store::has_version(rs, version@) {
                        r matches Ok(()) && final(self).packages() == rewrite_model(
                            old(self).packages(),
                            name@,
                            version@,
                            false,
                        )
                    } else {
                        r matches Err(e) && e == IndexError::VersionNotFound && final(self).packages() == old(self).packages()
                    }
                },
            },
    {
        self.alter_record(name, version, false)
    }
}

} // verus!

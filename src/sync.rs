//! Reconciliation of the local store with the remote store.
//!
//! A pass first walks the local records in listing order and pushes each
//! pending change (create, update, delete), then pulls every remote record
//! whose identifier no local record carries. The storage calls themselves
//! are made by the caller; this module decides what each record needs and
//! what it becomes.
use vstd::prelude::*;
use vstd::string::StringExecFns;
use crate::models::{clone_opt_string, opt_str_view, views, Project, ProjectView, SyncStatus};

verus! {

/// What a pass does with one local record.
#[derive(Debug)]
pub enum UploadAction {
    /// Create it remotely, then mark it synced under the new remote id.
    Create,
    /// Update the remote copy with this id, then mark it synced.
    Update(String),
    /// Delete the remote copy, if any (a failure there is ignored), then
    /// remove the local row in every case.
    Remove(Option<String>),
    /// Nothing to do.
    Skip,
}

/// `p` with status synced under remote id `server_id`.
pub open spec fn synced_view(p: ProjectView, server_id: Seq<char>) -> ProjectView {
    ProjectView { server_id: Some(server_id), sync_status: SyncStatus::Synced, ..p }
}

/// Whether the record goes up by a remote create.
pub open spec fn needs_create(p: ProjectView) -> bool {
    p.sync_status == SyncStatus::Local || (p.sync_status == SyncStatus::Modified && p.server_id is None)
}

/// Whether the record counts as uploaded by a pass.
pub open spec fn needs_upload(p: ProjectView) -> bool {
    p.sync_status == SyncStatus::Local || p.sync_status == SyncStatus::Modified
}

/// The local row that a successful pass leaves for `p`, given the remote id
/// that a create would return; nothing for a deleted record.
pub open spec fn after_upload(p: ProjectView, fresh: Seq<char>) -> Option<ProjectView> {
    match p.sync_status {
        SyncStatus::Local => Some(synced_view(p, fresh)),
        SyncStatus::Modified => match p.server_id {
            Some(s) => Some(synced_view(p, s)),
            None => Some(synced_view(p, fresh)),
        },
        SyncStatus::Synced => Some(p),
        SyncStatus::Deleted => None,
    }
}

/// The action that a pass takes for one local record.
pub fn upload_action(p: &Project) -> (r: UploadAction)
    ensures
        match p@.sync_status {
            SyncStatus::Local => r is Create,
            SyncStatus::Modified => match p@.server_id {
                Some(s) => r matches UploadAction::Update(t) && t@ == s,
                None => r is Create,
            },
            SyncStatus::Synced => r is Skip,
            SyncStatus::Deleted => r matches UploadAction::Remove(o) && opt_str_view(o) == p@.server_id,
        },
{
    match p.sync_status {
        SyncStatus::Local => UploadAction::Create,
        SyncStatus::Modified => match &p.server_id {
            Some(s) => UploadAction::Update(s.clone()),
            None => UploadAction::Create,
        },
        SyncStatus::Synced => UploadAction::Skip,
        SyncStatus::Deleted => UploadAction::Remove(clone_opt_string(&p.server_id)),
    }
}

/// The record after a successful upload: status synced, remote id set.
pub fn mark_synced(p: &Project, server_id: String) -> (r: Project)
    ensures
        r@ == synced_view(p@, server_id@),
{
    let mut r = p.duplicate();
    r.server_id = Some(server_id);
    r.sync_status = SyncStatus::Synced;
    r
}

/// The identifier by which a remote record is matched: its remote id, else
/// its id.
pub open spec fn remote_key(p: ProjectView) -> Seq<char> {
    match p.server_id {
        Some(s) => s,
        None => p.id,
    }
}

/// Whether some local record carries remote id `s`.
pub open spec fn has_server_id(local: Seq<ProjectView>, s: Seq<char>) -> bool {
    exists|i: int| 0 <= i < local.len() && #[trigger] local[i].server_id == Some(s)
}

/// The remote records that a pass materializes locally, in remote order.
pub open spec fn to_download(local: Seq<ProjectView>, remote: Seq<ProjectView>) -> Seq<ProjectView>
    decreases remote.len(),
{
    if remote.len() == 0 {
        Seq::empty()
    } else {
        let rest = to_download(local, remote.drop_last());
        if has_server_id(local, remote_key(remote.last())) {
            rest
        } else {
            rest.push(remote.last())
        }
    }
}

fn key_of(p: &Project) -> (r: &String)
    ensures
        r@ == remote_key(p@),
{
    match &p.server_id {
        Some(s) => s,
        None => &p.id,
    }
}

fn carries_server_id(local: &Vec<Project>, key: &String) -> (r: bool)
    ensures
        r == has_server_id(views(local@), key@),
{
    let mut j: usize = 0;
    while j < local.len()
        invariant
            j <= local@.len(),
            views(local@).len() == local@.len(),
            forall|k: int| 0 <= k < j ==> views(local@)[k].server_id != Some(key@),
        decreases local@.len() - j,
    {
        assert(views(local@)[j as int] == local@[j as int]@);
        match &local[j].server_id {
            Some(s) => {
                assert(views(local@)[j as int].server_id == Some(s@));
                if s.eq(key) {
                    assert(0 <= j < views(local@).len());
                    return true;
                }
            },
            None => {},
        }
        j = j + 1;
    }
    false
}

/// The remote records whose identifier no local record carries, copied in
/// remote order.
pub fn download_candidates(local: &Vec<Project>, remote: &Vec<Project>) -> (r: Vec<Project>)
    ensures
        views(r@) == to_download(views(local@), views(remote@)),
{
    let mut out: Vec<Project> = Vec::new();
    let mut i: usize = 0;
    while i < remote.len()
        invariant
            i <= remote@.len(),
            views(out@) == to_download(views(local@), views(remote@.subrange(0, i as int))),
        decreases remote@.len() - i,
    {
        let rp = &remote[i];
        let known = carries_server_id(local, key_of(rp));
        proof {
            assert(views(remote@.subrange(0, i as int + 1)).drop_last() =~= views(remote@.subrange(0, i as int)));
            assert(views(remote@.subrange(0, i as int + 1)).last() == rp@);
        }
        if !known {
            let copy = rp.duplicate();
            let ghost before = out@;
            out.push(copy);
            proof {
                assert(views(out@) =~= views(before).push(rp@));
            }
        }
        i = i + 1;
    }
    assert(remote@.subrange(0, i as int) =~= remote@);
    out
}

/// A storage call that a pass asks its caller to make.
#[derive(Debug)]
pub enum SyncAction {
    /// Create this record remotely; answer `Created` with the new remote id.
    CreateRemote(Project),
    /// Update the remote copy of this record.
    UpdateRemote(Project),
    /// Delete the remote record with this id; a failure is ignored.
    DeleteRemote(String),
    /// Write this record over the local row with the same id.
    SaveLocal(Project),
    /// Remove the local row with this id.
    DeleteLocal(String),
    /// Insert this remote record as a new local row.
    InsertLocal(Project),
    /// The pass is complete: records uploaded, records downloaded.
    Finished(usize, usize),
    /// The pass stopped on this error; what was done so far stays.
    Aborted(String),
}

/// How the caller's last storage call went.
#[derive(Debug)]
pub enum SyncEvent {
    Done,
    Created(String),
    Failed(String),
}

/// What a pass waits for.
#[derive(Debug)]
pub enum SyncStage {
    Ready,
    CreatePending,
    UpdatePending(String),
    RemoteDeletePending,
    SavePending,
    LocalDeletePending,
    InsertPending,
    Completed,
    Stopped,
}

/// The first local position at or after `k` whose record needs work.
pub open spec fn next_pending(local: Seq<ProjectView>, k: int) -> int
    decreases local.len() - k,
{
    if k < 0 || k >= local.len() {
        k
    } else if local[k].sync_status == SyncStatus::Synced {
        next_pending(local, k + 1)
    } else {
        k
    }
}

/// One reconciliation pass, run as a step machine: each call of `advance`
/// takes the outcome of the previous storage call and names the next one.
/// Uploads come first, in local listing order, then downloads.
///
/// The pass keeps a ghost record of the remote ids that creates returned and
/// of the local rows it has settled, so that a finished pass can be compared
/// with `local_after_pass`.
pub struct SyncPass {
    local: Vec<Project>,
    downloads: Vec<Project>,
    local_len: usize,
    download_len: usize,
    index: usize,
    dl_index: usize,
    stage: SyncStage,
    uploaded: usize,
    downloaded: usize,
    remote: Ghost<Seq<ProjectView>>,
    fresh: Ghost<Seq<Seq<char>>>,
    kept: Ghost<Seq<ProjectView>>,
    pending_fresh: Ghost<Seq<char>>,
}

impl SyncPass {
    pub closed spec fn local_records(&self) -> Seq<ProjectView> {
        views(self.local@)
    }

    pub closed spec fn download_records(&self) -> Seq<ProjectView> {
        views(self.downloads@)
    }

    /// The remote listing the pass started from.
    pub closed spec fn remote_records(&self) -> Seq<ProjectView> {
        self.remote@
    }

    /// For each settled local record, the remote id a create returned (empty
    /// for records that were not created remotely).
    pub closed spec fn fresh_ids(&self) -> Seq<Seq<char>> {
        self.fresh@
    }

    /// The local rows that the settled records left, in order.
    pub closed spec fn kept_rows(&self) -> Seq<ProjectView> {
        self.kept@
    }

    /// Local position of the record in hand.
    pub closed spec fn position(&self) -> int {
        self.index as int
    }

    /// Position in the download list.
    pub closed spec fn download_position(&self) -> int {
        self.dl_index as int
    }

    pub closed spec fn stage(&self) -> SyncStage {
        self.stage
    }

    pub closed spec fn uploaded_count(&self) -> int {
        self.uploaded as int
    }

    pub closed spec fn downloaded_count(&self) -> int {
        self.downloaded as int
    }

    /// The ghost record matches the records settled so far.
    pub closed spec fn settled(&self) -> bool {
        let l = self.local_records();
        &&& self.fresh@.len() == self.index
        &&& self.kept@ == uploaded(l.subrange(0, self.index as int), self.fresh@)
    }

    pub closed spec fn wf(&self) -> bool {
        let l = self.local_records();
        let d = self.download_records();
        &&& l.len() == self.local@.len()
        &&& d.len() == self.downloads@.len()
        &&& self.local_len == self.local@.len()
        &&& self.download_len == self.downloads@.len()
        &&& d == to_download(l, self.remote@)
        &&& self.index <= l.len()
        &&& self.dl_index <= d.len()
        &&& self.uploaded <= self.index
        &&& self.downloaded <= self.dl_index
        &&& (self.dl_index > 0 ==> self.index == l.len())
        &&& (!(self.stage is Stopped) ==> self.settled())
        &&& match self.stage {
            SyncStage::Ready => self.index == 0 && self.dl_index == 0 && self.uploaded == 0 && self.downloaded == 0,
            SyncStage::CreatePending => self.index < l.len() && needs_create(l[self.index as int]),
            SyncStage::UpdatePending(s) => self.index < l.len() && l[self.index as int].sync_status == SyncStatus::Modified
                && l[self.index as int].server_id == Some(s@),
            SyncStage::RemoteDeletePending => self.index < l.len() && l[self.index as int].sync_status == SyncStatus::Deleted,
            SyncStage::SavePending => self.index < l.len() && (needs_create(l[self.index as int])
                || (l[self.index as int].sync_status == SyncStatus::Modified && l[self.index as int].server_id is Some)),
            SyncStage::LocalDeletePending => self.index < l.len() && l[self.index as int].sync_status == SyncStatus::Deleted,
            SyncStage::InsertPending => self.index == l.len() && self.dl_index < d.len(),
            SyncStage::Completed => self.index == l.len() && self.dl_index == d.len(),
            SyncStage::Stopped => true,
        }
    }

    /// What a finished pass leaves locally, when every call it asked for was
    /// carried out: the settled rows, then the downloads.
    pub open spec fn rows_after(&self) -> Seq<ProjectView> {
        self.kept_rows() + self.download_records()
    }

    /// The action and state that starting work at local position `k` and
    /// download position `dl` gives: the next record needing work, else the
    /// next download, else the end.
    pub open spec fn begun_at(&self, a: SyncAction, k: int, dl: int, uploaded: int, downloaded: int) -> bool {
        let l = self.local_records();
        let d = self.download_records();
        let n = next_pending(l, k);
        &&& self.uploaded_count() == uploaded
        &&& self.downloaded_count() == downloaded
        &&& self.download_position() == dl
        &&& if n < l.len() {
            &&& self.position() == n
            &&& match l[n].sync_status {
                SyncStatus::Deleted => match l[n].server_id {
                    Some(s) => self.stage() is RemoteDeletePending && (a matches SyncAction::DeleteRemote(t) && t@ == s),
                    None => self.stage() is LocalDeletePending && (a matches SyncAction::DeleteLocal(t) && t@ == l[n].id),
                },
                _ => match (l[n].sync_status, l[n].server_id) {
                    (SyncStatus::Modified, Some(s)) => (self.stage() matches SyncStage::UpdatePending(t) && t@ == s)
                        && (a matches SyncAction::UpdateRemote(p) && p@ == l[n]),
                    _ => self.stage() is CreatePending && (a matches SyncAction::CreateRemote(p) && p@ == l[n]),
                },
            }
        } else {
            &&& self.position() == l.len()
            &&& if dl < d.len() {
                self.stage() is InsertPending && (a matches SyncAction::InsertLocal(p) && p@ == d[dl])
            } else {
                &&& self.stage() is Completed
                &&& a matches SyncAction::Finished(u, v) && u == uploaded && v == downloaded
                &&& self.rows_after() == local_after_pass(l, self.remote_records(), self.fresh_ids())
            }
        }
    }

    /// The state after a stop on error `m`, and the action that reports it.
    pub open spec fn stopped_with(&self, a: SyncAction, before: &SyncPass, m: Seq<char>) -> bool {
        &&& self.stage() is Stopped
        &&& a matches SyncAction::Aborted(x) && x@ == m
        &&& self.uploaded_count() == before.uploaded_count()
        &&& self.downloaded_count() == before.downloaded_count()
    }

    /// A pass over the local records as listed and the remote records as
    /// listed, both read before the pass.
    pub fn new(local: Vec<Project>, remote: &Vec<Project>) -> (r: SyncPass)
        ensures
            r.wf(),
            r.stage() is Ready,
            r.local_records() == views(local@),
            r.remote_records() == views(remote@),
            r.download_records() == to_download(views(local@), views(remote@)),
    {
        let downloads = download_candidates(&local, remote);
        let local_len = local.len();
        let download_len = downloads.len();
        let r = SyncPass {
            local,
            downloads,
            local_len,
            download_len,
            index: 0,
            dl_index: 0,
            stage: SyncStage::Ready,
            uploaded: 0,
            downloaded: 0,
            remote: Ghost(views(remote@)),
            fresh: Ghost(Seq::empty()),
            kept: Ghost(Seq::empty()),
            pending_fresh: Ghost(Seq::empty()),
        };
        assert(r.local_records().len() == r.local@.len());
        assert(r.download_records().len() == r.downloads@.len());
        r
    }

    fn begin(&mut self) -> (a: SyncAction)
        requires
            old(self).local_records().len() == old(self).local@.len(),
            old(self).download_records().len() == old(self).downloads@.len(),
            old(self).local_len == old(self).local@.len(),
            old(self).download_len == old(self).downloads@.len(),
            old(self).download_records() == to_download(old(self).local_records(), old(self).remote@),
            old(self).index <= old(self).local@.len(),
            old(self).dl_index <= old(self).downloads@.len(),
            old(self).uploaded <= old(self).index,
            old(self).downloaded <= old(self).dl_index,
            old(self).dl_index > 0 ==> old(self).index == old(self).local@.len(),
            old(self).settled(),
        ensures
            final(self).wf(),
            final(self).local_records() == old(self).local_records(),
            final(self).download_records() == old(self).download_records(),
            final(self).remote_records() == old(self).remote_records(),
            final(self).begun_at(a, old(self).index as int, old(self).dl_index as int, old(self).uploaded as int, old(self).downloaded as int),
    {
        let ghost l = self.local_records();
        let ghost start = self.index as int;
        while self.index < self.local_len && self.local[self.index].sync_status == SyncStatus::Synced
            invariant
                self.local == old(self).local,
                self.downloads == old(self).downloads,
                self.local_len == old(self).local_len,
                self.download_len == old(self).download_len,
                self.remote == old(self).remote,
                self.dl_index == old(self).dl_index,
                self.uploaded == old(self).uploaded,
                self.downloaded == old(self).downloaded,
                l == views(self.local@),
                l.len() == self.local@.len(),
                self.local_len == l.len(),
                start <= self.index <= l.len(),
                old(self).uploaded <= start,
                next_pending(l, start) == next_pending(l, self.index as int),
                self.settled(),
            decreases l.len() - self.index,
        {
            assert(l[self.index as int] == self.local@[self.index as int]@);
            proof {
                lemma_uploaded_step(l, self.fresh@, self.index as int, Seq::empty());
            }
            self.fresh = Ghost(self.fresh@.push(Seq::empty()));
            self.kept = Ghost(self.kept@.push(l[self.index as int]));
            self.index = self.index + 1;
        }
        if self.index < self.local_len {
            assert(l[self.index as int] == self.local@[self.index as int]@);
            let (stage, action) = match self.local[self.index].sync_status {
                SyncStatus::Deleted => match &self.local[self.index].server_id {
                    Some(s) => (SyncStage::RemoteDeletePending, SyncAction::DeleteRemote(s.clone())),
                    None => (SyncStage::LocalDeletePending, SyncAction::DeleteLocal(self.local[self.index].id.clone())),
                },
                _ => match upload_action(&self.local[self.index]) {
                    UploadAction::Update(s) => (SyncStage::UpdatePending(s), SyncAction::UpdateRemote(self.local[self.index].duplicate())),
                    _ => (SyncStage::CreatePending, SyncAction::CreateRemote(self.local[self.index].duplicate())),
                },
            };
            self.stage = stage;
            action
        } else if self.dl_index < self.download_len {
            assert(views(self.downloads@)[self.dl_index as int] == self.downloads@[self.dl_index as int]@);
            self.stage = SyncStage::InsertPending;
            SyncAction::InsertLocal(self.downloads[self.dl_index].duplicate())
        } else {
            assert(l.subrange(0, self.index as int) =~= l);
            self.stage = SyncStage::Completed;
            SyncAction::Finished(self.uploaded, self.downloaded)
        }
    }

    /// Takes the outcome of the last storage call and names the next one.
    /// A failure stops the pass, except that of a remote delete, after which
    /// the local row is removed all the same. A record counts as uploaded
    /// once its synced row is saved, a download once its row is inserted.
    /// When the pass finishes, the rows it settled and downloaded are those
    /// of `local_after_pass` for the remote ids its creates returned.
    pub fn advance(&mut self, event: SyncEvent) -> (a: SyncAction)
        requires
            old(self).wf(),
        ensures
            final(self).wf(),
            final(self).local_records() == old(self).local_records(),
            final(self).download_records() == old(self).download_records(),
            final(self).remote_records() == old(self).remote_records(),
            match old(self).stage() {
                SyncStage::Ready => final(self).begun_at(a, 0, 0, 0, 0),
                SyncStage::CreatePending => match event {
                    SyncEvent::Created(sid) => {
                        &&& final(self).stage() is SavePending
                        &&& final(self).position() == old(self).position()
                        &&& a matches SyncAction::SaveLocal(p) && p@ == synced_view(old(self).local_records()[old(self).position()], sid@)
                    },
                    SyncEvent::Failed(m) => final(self).stopped_with(a, old(self), m@),
                    SyncEvent::Done => final(self).stopped_with(a, old(self), "remote create returned no id"@),
                },
                SyncStage::UpdatePending(s) => match event {
                    SyncEvent::Failed(m) => final(self).stopped_with(a, old(self), m@),
                    _ => {
                        &&& final(self).stage() is SavePending
                        &&& final(self).position() == old(self).position()
                        &&& a matches SyncAction::SaveLocal(p) && p@ == synced_view(old(self).local_records()[old(self).position()], s@)
                    },
                },
                SyncStage::RemoteDeletePending => {
                    &&& final(self).stage() is LocalDeletePending
                    &&& final(self).position() == old(self).position()
                    &&& a matches SyncAction::DeleteLocal(t) && t@ == old(self).local_records()[old(self).position()].id
                },
                SyncStage::SavePending => match event {
                    SyncEvent::Failed(m) => final(self).stopped_with(a, old(self), m@),
                    _ => final(self).begun_at(a, old(self).position() + 1, 0, old(self).uploaded_count() + 1, old(self).downloaded_count()),
                },
                SyncStage::LocalDeletePending => match event {
                    SyncEvent::Failed(m) => final(self).stopped_with(a, old(self), m@),
                    _ => final(self).begun_at(a, old(self).position() + 1, 0, old(self).uploaded_count(), old(self).downloaded_count()),
                },
                SyncStage::InsertPending => match event {
                    SyncEvent::Failed(m) => final(self).stopped_with(a, old(self), m@),
                    _ => final(self).begun_at(a, old(self).position(), old(self).download_position() + 1, old(self).uploaded_count(), old(self).downloaded_count() + 1),
                },
                SyncStage::Completed => *final(self) == *old(self)
                    && (a matches SyncAction::Finished(u, v) && u == old(self).uploaded_count() && v == old(self).downloaded_count()),
                SyncStage::Stopped => final(self).stopped_with(a, old(self), "sync pass already stopped"@),
            },
    {
        let ghost l = self.local_records();
        match self.stage {
            SyncStage::Ready => self.begin(),
            SyncStage::CreatePending => match event {
                SyncEvent::Created(sid) => {
                    assert(l[self.index as int] == self.local@[self.index as int]@);
                    self.pending_fresh = Ghost(sid@);
                    let p = mark_synced(&self.local[self.index], sid);
                    self.stage = SyncStage::SavePending;
                    SyncAction::SaveLocal(p)
                },
                SyncEvent::Failed(m) => self.stop(m),
                SyncEvent::Done => self.stop(String::from_str("remote create returned no id")),
            },
            SyncStage::UpdatePending(ref s) => match event {
                SyncEvent::Failed(m) => self.stop(m),
                _ => {
                    assert(l[self.index as int] == self.local@[self.index as int]@);
                    let p = mark_synced(&self.local[self.index], s.clone());
                    self.stage = SyncStage::SavePending;
                    SyncAction::SaveLocal(p)
                },
            },
            SyncStage::RemoteDeletePending => {
                assert(l[self.index as int] == self.local@[self.index as int]@);
                let id = self.local[self.index].id.clone();
                self.stage = SyncStage::LocalDeletePending;
                SyncAction::DeleteLocal(id)
            },
            SyncStage::SavePending => match event {
                SyncEvent::Failed(m) => self.stop(m),
                _ => {
                    let ghost f = self.pending_fresh@;
                    proof {
                        lemma_uploaded_step(l, self.fresh@, self.index as int, f);
                    }
                    self.fresh = Ghost(self.fresh@.push(f));
                    self.kept = Ghost(self.kept@.push(after_upload(l[self.index as int], f)->Some_0));
                    self.uploaded = self.uploaded + 1;
                    self.index = self.index + 1;
                    self.begin()
                },
            },
            SyncStage::LocalDeletePending => match event {
                SyncEvent::Failed(m) => self.stop(m),
                _ => {
                    proof {
                        lemma_uploaded_step(l, self.fresh@, self.index as int, Seq::empty());
                    }
                    self.fresh = Ghost(self.fresh@.push(Seq::empty()));
                    self.index = self.index + 1;
                    self.begin()
                },
            },
            SyncStage::InsertPending => match event {
                SyncEvent::Failed(m) => self.stop(m),
                _ => {
                    self.downloaded = self.downloaded + 1;
                    self.dl_index = self.dl_index + 1;
                    self.begin()
                },
            },
            SyncStage::Completed => SyncAction::Finished(self.uploaded, self.downloaded),
            SyncStage::Stopped => self.stop(String::from_str("sync pass already stopped")),
        }
    }

    fn stop(&mut self, m: String) -> (a: SyncAction)
        requires
            old(self).wf(),
        ensures
            final(self).wf(),
            final(self).local_records() == old(self).local_records(),
            final(self).download_records() == old(self).download_records(),
            final(self).remote_records() == old(self).remote_records(),
            final(self).stopped_with(a, old(self), m@),
    {
        self.stage = SyncStage::Stopped;
        SyncAction::Aborted(m)
    }
}

proof fn lemma_uploaded_step(l: Seq<ProjectView>, fresh: Seq<Seq<char>>, i: int, f: Seq<char>)
    requires
        0 <= i < l.len(),
        fresh.len() == i,
    ensures
        uploaded(l.subrange(0, i + 1), fresh.push(f)) == match after_upload(l[i], f) {
            Some(q) => uploaded(l.subrange(0, i), fresh).push(q),
            None => uploaded(l.subrange(0, i), fresh),
        },
{
    assert(l.subrange(0, i + 1).drop_last() =~= l.subrange(0, i));
    assert(fresh.push(f).drop_last() =~= fresh);
    assert(l.subrange(0, i + 1).last() == l[i]);
}

/// The local rows left by the upload walk of a successful pass; `fresh[i]`
/// is the remote id that a create of `local[i]` returned.
pub open spec fn uploaded(local: Seq<ProjectView>, fresh: Seq<Seq<char>>) -> Seq<ProjectView>
    decreases local.len(),
{
    if local.len() == 0 || fresh.len() == 0 {
        Seq::empty()
    } else {
        let rest = uploaded(local.drop_last(), fresh.drop_last());
        match after_upload(local.last(), fresh.last()) {
            Some(q) => rest.push(q),
            None => rest,
        }
    }
}

/// The remote record that a create of `p` produces under remote id `id`.
pub open spec fn remote_copy(p: ProjectView, id: Seq<char>) -> ProjectView {
    ProjectView { id: id, server_id: Some(id), sync_status: SyncStatus::Synced, ..p }
}

/// The remote records that the creates of a successful pass add.
pub open spec fn created(local: Seq<ProjectView>, fresh: Seq<Seq<char>>) -> Seq<ProjectView>
    decreases local.len(),
{
    if local.len() == 0 || fresh.len() == 0 {
        Seq::empty()
    } else {
        let rest = created(local.drop_last(), fresh.drop_last());
        if needs_create(local.last()) {
            rest.push(remote_copy(local.last(), fresh.last()))
        } else {
            rest
        }
    }
}

/// Whether a deleted local record asks for the removal of remote id `s`.
pub open spec fn deleted_remotely(local: Seq<ProjectView>, s: Seq<char>) -> bool {
    exists|i: int|
        0 <= i < local.len() && local[i].sync_status == SyncStatus::Deleted && #[trigger] local[i].server_id == Some(s)
}

/// The remote records that survive the deletes of a successful pass.
pub open spec fn kept_remote(local: Seq<ProjectView>, remote: Seq<ProjectView>) -> Seq<ProjectView>
    decreases remote.len(),
{
    if remote.len() == 0 {
        Seq::empty()
    } else {
        let rest = kept_remote(local, remote.drop_last());
        if deleted_remotely(local, remote_key(remote.last())) {
            rest
        } else {
            rest.push(remote.last())
        }
    }
}

/// The local store after a pass in which every storage call succeeded.
pub open spec fn local_after_pass(local: Seq<ProjectView>, remote: Seq<ProjectView>, fresh: Seq<Seq<char>>) -> Seq<ProjectView> {
    uploaded(local, fresh) + to_download(local, remote)
}

/// The remote records, by identity, after a pass in which every storage call
/// succeeded.
pub open spec fn remote_after_pass(local: Seq<ProjectView>, remote: Seq<ProjectView>, fresh: Seq<Seq<char>>) -> Seq<ProjectView> {
    kept_remote(local, remote) + created(local, fresh)
}

/// State transitions of one record in a pass: a deleted record leaves, every
/// other one ends synced, and an uploaded one carries a remote id.
pub proof fn lemma_pass_transitions(p: ProjectView, fresh: Seq<char>)
    ensures
        after_upload(p, fresh) is None <==> p.sync_status == SyncStatus::Deleted,
        after_upload(p, fresh) matches Some(q) ==> q.sync_status == SyncStatus::Synced,
        needs_upload(p) ==> (after_upload(p, fresh) matches Some(q) && q.server_id is Some),
{
}

proof fn lemma_uploaded_synced(local: Seq<ProjectView>, fresh: Seq<Seq<char>>)
    ensures
        forall|k: int| 0 <= k < uploaded(local, fresh).len() ==> #[trigger] uploaded(local, fresh)[k].sync_status == SyncStatus::Synced,
    decreases local.len(),
{
    if local.len() != 0 && fresh.len() != 0 {
        lemma_uploaded_synced(local.drop_last(), fresh.drop_last());
    }
}

proof fn lemma_uploaded_contains(local: Seq<ProjectView>, fresh: Seq<Seq<char>>, i: int)
    requires
        fresh.len() == local.len(),
        0 <= i < local.len(),
        after_upload(local[i], fresh[i]) is Some,
    ensures
        uploaded(local, fresh).contains(after_upload(local[i], fresh[i])->Some_0),
    decreases local.len(),
{
    let q = after_upload(local[i], fresh[i])->Some_0;
    let rest = uploaded(local.drop_last(), fresh.drop_last());
    if i == local.len() - 1 {
        assert(uploaded(local, fresh) == rest.push(q));
        assert(uploaded(local, fresh)[rest.len() as int] == q);
    } else {
        lemma_uploaded_contains(local.drop_last(), fresh.drop_last(), i);
        let k = choose|k: int| 0 <= k < rest.len() && rest[k] == q;
        match after_upload(local.last(), fresh.last()) {
            Some(x) => assert(uploaded(local, fresh)[k] == q),
            None => assert(uploaded(local, fresh)[k] == q),
        }
    }
}

proof fn lemma_created_member(local: Seq<ProjectView>, fresh: Seq<Seq<char>>, k: int)
    requires
        fresh.len() == local.len(),
        0 <= k < created(local, fresh).len(),
    ensures
        exists|i: int|
            0 <= i < local.len() && needs_create(local[i]) && created(local, fresh)[k] == #[trigger] remote_copy(local[i], fresh[i]),
    decreases local.len(),
{
    let rest = created(local.drop_last(), fresh.drop_last());
    if k < rest.len() {
        lemma_created_member(local.drop_last(), fresh.drop_last(), k);
        let i = choose|i: int|
            0 <= i < local.drop_last().len() && needs_create(local.drop_last()[i]) && rest[k] == #[trigger] remote_copy(local.drop_last()[i], fresh.drop_last()[i]);
        assert(local[i] == local.drop_last()[i]);
        assert(fresh[i] == fresh.drop_last()[i]);
        if needs_create(local.last()) {
            assert(created(local, fresh)[k] == rest[k]);
        }
    } else {
        let i = local.len() - 1;
        assert(created(local, fresh)[k] == remote_copy(local[i], fresh[i]));
    }
}

proof fn lemma_kept_member(local: Seq<ProjectView>, remote: Seq<ProjectView>, k: int)
    requires
        0 <= k < kept_remote(local, remote).len(),
    ensures
        remote.contains(kept_remote(local, remote)[k]),
        !deleted_remotely(local, remote_key(kept_remote(local, remote)[k])),
    decreases remote.len(),
{
    let rest = kept_remote(local, remote.drop_last());
    if k < rest.len() {
        lemma_kept_member(local, remote.drop_last(), k);
        assert(kept_remote(local, remote)[k] == rest[k]);
        let j = choose|j: int| 0 <= j < remote.drop_last().len() && remote.drop_last()[j] == rest[k];
        assert(remote[j] == rest[k]);
    } else {
        assert(kept_remote(local, remote)[k] == remote.last());
        assert(remote[remote.len() - 1] == remote.last());
    }
}

proof fn lemma_download_member(local: Seq<ProjectView>, remote: Seq<ProjectView>, j: int)
    requires
        0 <= j < remote.len(),
        !has_server_id(local, remote_key(remote[j])),
    ensures
        to_download(local, remote).contains(remote[j]),
    decreases remote.len(),
{
    let rest = to_download(local, remote.drop_last());
    if j == remote.len() - 1 {
        assert(to_download(local, remote)[rest.len() as int] == remote[j]);
    } else {
        lemma_download_member(local, remote.drop_last(), j);
        let k = choose|k: int| 0 <= k < rest.len() && rest[k] == remote.drop_last()[j];
        assert(to_download(local, remote)[k] == remote[j]);
    }
}

proof fn lemma_download_within(local: Seq<ProjectView>, remote: Seq<ProjectView>, k: int)
    requires
        0 <= k < to_download(local, remote).len(),
    ensures
        remote.contains(to_download(local, remote)[k]),
    decreases remote.len(),
{
    let rest = to_download(local, remote.drop_last());
    if k < rest.len() {
        lemma_download_within(local, remote.drop_last(), k);
        assert(to_download(local, remote)[k] == rest[k]);
        let j = choose|j: int| 0 <= j < remote.drop_last().len() && remote.drop_last()[j] == rest[k];
        assert(remote[j] == rest[k]);
    } else {
        assert(to_download(local, remote)[k] == remote.last());
        assert(remote[remote.len() - 1] == remote.last());
    }
}

proof fn lemma_download_empty(local: Seq<ProjectView>, remote: Seq<ProjectView>)
    requires
        forall|k: int| 0 <= k < remote.len() ==> has_server_id(local, remote_key(#[trigger] remote[k])),
    ensures
        to_download(local, remote) == Seq::<ProjectView>::empty(),
    decreases remote.len(),
{
    if remote.len() != 0 {
        assert(has_server_id(local, remote_key(remote[remote.len() - 1])));
        lemma_download_empty(local, remote.drop_last());
    }
}

/// Bounded idempotence: after a pass in which every storage call succeeded,
/// a second pass over the resulting stores uploads nothing (every local
/// record is synced) and downloads nothing. It holds when records never
/// uploaded carry no remote id and the remote listing gives each record its
/// remote id and status synced.
pub proof fn lemma_second_pass_is_quiet(local: Seq<ProjectView>, remote: Seq<ProjectView>, fresh: Seq<Seq<char>>)
    requires
        fresh.len() == local.len(),
        forall|i: int| 0 <= i < local.len() && #[trigger] local[i].sync_status == SyncStatus::Local ==> local[i].server_id is None,
        forall|j: int| 0 <= j < remote.len() ==> (#[trigger] remote[j]).server_id is Some && remote[j].sync_status == SyncStatus::Synced,
    ensures
        forall|k: int| 0 <= k < local_after_pass(local, remote, fresh).len() ==> !needs_upload(#[trigger] local_after_pass(local, remote, fresh)[k]),
        to_download(local_after_pass(local, remote, fresh), remote_after_pass(local, remote, fresh)) == Seq::<ProjectView>::empty(),
{
    let up = uploaded(local, fresh);
    let down = to_download(local, remote);
    let l1 = local_after_pass(local, remote, fresh);
    let kept = kept_remote(local, remote);
    let made = created(local, fresh);
    let r1 = remote_after_pass(local, remote, fresh);
    lemma_uploaded_synced(local, fresh);
    assert forall|k: int| 0 <= k < l1.len() implies !needs_upload(#[trigger] l1[k]) by {
        if k < up.len() {
            assert(l1[k] == up[k]);
        } else {
            assert(l1[k] == down[k - up.len()]);
            lemma_download_within(local, remote, k - up.len());
        }
    }
    // Anything the upload walk leaves is in the new local store.
    assert forall|q: ProjectView| up.contains(q) implies l1.contains(q) by {
        let k = choose|k: int| 0 <= k < up.len() && up[k] == q;
        assert(l1[k] == q);
    }
    assert forall|q: ProjectView| down.contains(q) implies l1.contains(q) by {
        let k = choose|k: int| 0 <= k < down.len() && down[k] == q;
        assert(l1[up.len() + k] == q);
    }
    assert forall|k: int| 0 <= k < r1.len() implies has_server_id(l1, remote_key(#[trigger] r1[k])) by {
        let r = r1[k];
        if k < kept.len() {
            assert(r == kept[k]);
            lemma_kept_member(local, remote, k);
            let j = choose|j: int| 0 <= j < remote.len() && remote[j] == r;
            if has_server_id(local, remote_key(r)) {
                let i = choose|i: int| 0 <= i < local.len() && #[trigger] local[i].server_id == Some(remote_key(r));
                if local[i].sync_status == SyncStatus::Deleted {
                    assert(deleted_remotely(local, remote_key(r)));
                }
                lemma_uploaded_contains(local, fresh, i);
                let q = after_upload(local[i], fresh[i])->Some_0;
                assert(q.server_id == Some(remote_key(r)));
                let m = choose|m: int| 0 <= m < l1.len() && l1[m] == q;
                assert(l1[m].server_id == Some(remote_key(r)));
            } else {
                lemma_download_member(local, remote, j);
                let m = choose|m: int| 0 <= m < l1.len() && l1[m] == r;
                assert(l1[m].server_id == Some(remote_key(r)));
            }
        } else {
            assert(r == made[k - kept.len()]);
            lemma_created_member(local, fresh, k - kept.len());
            let i = choose|i: int| 0 <= i < local.len() && needs_create(local[i]) && made[k - kept.len()] == #[trigger] remote_copy(local[i], fresh[i]);
            lemma_uploaded_contains(local, fresh, i);
            let q = after_upload(local[i], fresh[i])->Some_0;
            assert(q.server_id == Some(fresh[i]));
            let m = choose|m: int| 0 <= m < l1.len() && l1[m] == q;
            assert(l1[m].server_id == Some(remote_key(r)));
        }
    }
    lemma_download_empty(l1, r1);
}

/// A finished pass is followed by a quiet one: once `advance` has reported
/// `Finished`, a second pass over the rows the first one left and over the
/// remote listing it produced (old records less the deleted ones, plus one
/// record per create under the id the create returned) uploads and
/// downloads nothing. The conditions are those of
/// `lemma_second_pass_is_quiet`.
pub proof fn lemma_finished_pass_is_followed_by_quiet_one(pass: SyncPass)
    requires
        pass.wf(),
        pass.stage() is Completed,
        forall|i: int| 0 <= i < pass.local_records().len() && #[trigger] pass.local_records()[i].sync_status == SyncStatus::Local
            ==> pass.local_records()[i].server_id is None,
        forall|j: int| 0 <= j < pass.remote_records().len()
            ==> (#[trigger] pass.remote_records()[j]).server_id is Some && pass.remote_records()[j].sync_status == SyncStatus::Synced,
    ensures
        pass.rows_after() == local_after_pass(pass.local_records(), pass.remote_records(), pass.fresh_ids()),
        forall|k: int| 0 <= k < pass.rows_after().len() ==> !needs_upload(#[trigger] pass.rows_after()[k]),
        to_download(pass.rows_after(), remote_after_pass(pass.local_records(), pass.remote_records(), pass.fresh_ids()))
            == Seq::<ProjectView>::empty(),
{
    let l = pass.local_records();
    assert(l.subrange(0, pass.index as int) =~= l);
    lemma_second_pass_is_quiet(l, pass.remote_records(), pass.fresh_ids());
}

} // verus!

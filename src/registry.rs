//! The session registry: every known session, and for each workspace the
//! ordered list of sessions it shows.

use vstd::prelude::*;
use crate::table::{OrderedMap, lemma_entry_in_map, keys_unique, entries_map, has_key};
use crate::text::{str_eq, push_str};
use crate::paths::{project_paths_in, project_path_for, transcript_path_for};

verus! {

/// Whether a session's transcript could still be found.
#[derive(Clone, Copy, Debug, PartialEq, Eq, Structural)]
pub enum SessionStatus {
    Active,
    Missing,
}

impl Default for SessionStatus {
    /// A session starts out active.
    fn default() -> (r: SessionStatus)
        ensures
            r == SessionStatus::Active,
    {
        SessionStatus::Active
    }
}

/// The persisted record of one work session.
#[derive(Clone, Debug)]
pub struct SessionEntry {
    pub session_id: String,
    pub cwd: String,
    pub preview: Option<String>,
    pub created_at: u64,
    pub last_activity: u64,
    pub transcript_path: Option<String>,
    pub project_path: Option<String>,
    pub status: SessionStatus,
}

pub fn clone_opt_string(s: &Option<String>) -> (r: Option<String>)
    ensures
        r == *s,
{
    match s {
        Some(t) => Some(t.clone()),
        None => None,
    }
}

impl SessionEntry {
    /// A field-by-field copy.
    pub fn duplicate(&self) -> (r: SessionEntry)
        ensures
            r == *self,
    {
        SessionEntry {
            session_id: self.session_id.clone(),
            cwd: self.cwd.clone(),
            preview: clone_opt_string(&self.preview),
            created_at: self.created_at,
            last_activity: self.last_activity,
            transcript_path: clone_opt_string(&self.transcript_path),
            project_path: clone_opt_string(&self.project_path),
            status: self.status,
        }
    }
}

/// The character sequences of a list of strings.
pub open spec fn ids_view(v: Seq<String>) -> Seq<Seq<char>> {
    v.map_values(|s: String| s@)
}

pub open spec fn opt_view(o: Option<String>) -> Option<Seq<char>> {
    match o {
        Some(s) => Some(s@),
        None => None,
    }
}

/// Holds of every id but `id`.
pub open spec fn other_than(id: Seq<char>) -> spec_fn(Seq<char>) -> bool {
    |x: Seq<char>| x != id
}

/// What the registry keeps for one workspace, as a mathematical value.
pub struct WorkspaceView {
    pub project_path: Option<Seq<char>>,
    pub visible: Seq<Seq<char>>,
}

impl WorkspaceView {
    pub open spec fn empty() -> WorkspaceView {
        WorkspaceView { project_path: None, visible: Seq::empty() }
    }

    /// The list with `id` appended, unless it is already there.
    pub open spec fn with_visible(self, id: Seq<char>) -> WorkspaceView {
        if self.visible.contains(id) {
            self
        } else {
            WorkspaceView { project_path: self.project_path, visible: self.visible.push(id) }
        }
    }

    /// The list without `id`.
    pub open spec fn without_visible(self, id: Seq<char>) -> WorkspaceView {
        WorkspaceView {
            project_path: self.project_path,
            visible: self.visible.filter(other_than(id)),
        }
    }
}

/// Per-workspace record: the sessions it shows, in the order they arrived.
#[derive(Clone, Debug)]
pub struct WorkspaceRegistry {
    pub project_path: Option<String>,
    pub visible_session_ids: Vec<String>,
}

impl View for WorkspaceRegistry {
    type V = WorkspaceView;

    open spec fn view(&self) -> WorkspaceView {
        WorkspaceView {
            project_path: opt_view(self.project_path),
            visible: ids_view(self.visible_session_ids@),
        }
    }
}

impl Default for WorkspaceRegistry {
    fn default() -> (r: WorkspaceRegistry)
        ensures
            r@ == WorkspaceView::empty(),
    {
        WorkspaceRegistry::empty()
    }
}

/// Whether `id` is one of the strings of `v`.
pub fn contains_id(v: &Vec<String>, id: &str) -> (r: bool)
    ensures
        r == ids_view(v@).contains(id@),
{
    let mut i: usize = 0;
    while i < v.len()
        invariant
            i <= v@.len(),
            forall|j: int| 0 <= j < i ==> #[trigger] v@[j]@ != id@,
        decreases v@.len() - i,
    {
        if str_eq(v[i].as_str(), id) {
            assert(ids_view(v@)[i as int] == id@);
            return true;
        }
        i = i + 1;
    }
    assert(!ids_view(v@).contains(id@)) by {
        if ids_view(v@).contains(id@) {
            let j = choose|j: int| 0 <= j < ids_view(v@).len() && ids_view(v@)[j] == id@;
            assert(v@[j]@ == id@);
        }
    }
    false
}

impl WorkspaceRegistry {
    pub fn empty() -> (r: WorkspaceRegistry)
        ensures
            r@ == WorkspaceView::empty(),
    {
        let r = WorkspaceRegistry { project_path: None, visible_session_ids: Vec::new() };
        assert(r@.visible =~= Seq::<Seq<char>>::empty());
        r
    }

    /// Appends `id` to the visible list unless it is already there.
    pub fn show(&mut self, id: String)
        ensures
            final(self)@ == old(self)@.with_visible(id@),
    {
        if !contains_id(&self.visible_session_ids, id.as_str()) {
            self.visible_session_ids.push(id);
            assert(final(self)@.visible =~= old(self)@.visible.push(id@));
        }
    }

    /// Removes `id` from the visible list.
    pub fn conceal(&mut self, id: &str)
        ensures
            final(self)@ == old(self)@.without_visible(id@),
    {
        let ghost pred = other_than(id@);
        let mut kept: Vec<String> = Vec::new();
        let mut i: usize = 0;
        while i < self.visible_session_ids.len()
            invariant
                i <= self.visible_session_ids@.len(),
                pred == other_than(id@),
                ids_view(kept@) == ids_view(self.visible_session_ids@.subrange(0, i as int)).filter(pred),
            decreases self.visible_session_ids@.len() - i,
        {
            let ghost before = ids_view(self.visible_session_ids@.subrange(0, i as int));
            let keep = !str_eq(self.visible_session_ids[i].as_str(), id);
            if keep {
                let s = self.visible_session_ids[i].clone();
                kept.push(s);
            }
            proof {
                let x = self.visible_session_ids@[i as int]@;
                assert(ids_view(self.visible_session_ids@.subrange(0, i + 1)) =~= before.push(x));
                before.lemma_filter_push(x, pred);
                assert(pred(x) == keep);
                assert(ids_view(kept@) =~= if keep { before.filter(pred).push(x) } else { before.filter(pred) });
                assert(ids_view(kept@) == before.push(x).filter(pred));
            }
            i = i + 1;
        }
        assert(self.visible_session_ids@.subrange(0, i as int) =~= self.visible_session_ids@);
        self.visible_session_ids = kept;
        assert(final(self)@.visible =~= old(self)@.without_visible(id@).visible);
    }
}

/// The registry as a mathematical value: its version, what each workspace
/// keeps, and every session by id.
pub struct RegistryView {
    pub version: u32,
    pub workspaces: Map<Seq<char>, WorkspaceView>,
    pub sessions: Map<Seq<char>, SessionEntry>,
}

/// The session may be flagged: it is known, active, and names a transcript.
pub open spec fn checkable(s: SessionEntry) -> bool {
    s.status == SessionStatus::Active && s.transcript_path is Some
}

impl RegistryView {
    pub open spec fn empty() -> RegistryView {
        RegistryView { version: 1, workspaces: Map::empty(), sessions: Map::empty() }
    }

    /// What the registry keeps for `w`; an unknown workspace keeps nothing.
    pub open spec fn workspace(self, w: Seq<char>) -> WorkspaceView {
        if self.workspaces.contains_key(w) {
            self.workspaces[w]
        } else {
            WorkspaceView::empty()
        }
    }

    /// `id` is shown by `w`, which exists afterwards.
    pub open spec fn show(self, w: Seq<char>, id: Seq<char>) -> RegistryView {
        RegistryView {
            workspaces: self.workspaces.insert(w, self.workspace(w).with_visible(id)),
            ..self
        }
    }

    /// The session stored under its own id.
    pub open spec fn put_session(self, s: SessionEntry) -> RegistryView {
        RegistryView { sessions: self.sessions.insert(s.session_id@, s), ..self }
    }

    /// Effect of registering `s` for `w`: stored, and shown once.
    pub open spec fn register(self, w: Seq<char>, s: SessionEntry) -> RegistryView {
        self.put_session(s).show(w, s.session_id@)
    }

    /// Effect of archiving: `id` leaves the list of `w`; the session stays.
    pub open spec fn archive(self, w: Seq<char>, id: Seq<char>) -> RegistryView {
        if self.workspaces.contains_key(w) {
            RegistryView {
                workspaces: self.workspaces.insert(w, self.workspaces[w].without_visible(id)),
                ..self
            }
        } else {
            self
        }
    }

    /// Effect of recording activity at time `now`, with an optional new preview.
    pub open spec fn touch(self, id: Seq<char>, now: u64, preview: Option<String>) -> RegistryView {
        if self.sessions.contains_key(id) {
            let s = self.sessions[id];
            RegistryView {
                sessions: self.sessions.insert(
                    id,
                    SessionEntry {
                        last_activity: now,
                        preview: if preview is Some {
                            preview
                        } else {
                            s.preview
                        },
                        ..s
                    },
                ),
                ..self
            }
        } else {
            self
        }
    }

    /// Effect of flagging a session whose transcript is gone.
    pub open spec fn mark_missing(self, id: Seq<char>) -> RegistryView {
        if self.sessions.contains_key(id) {
            RegistryView {
                sessions: self.sessions.insert(
                    id,
                    SessionEntry { status: SessionStatus::Missing, ..self.sessions[id] },
                ),
                ..self
            }
        } else {
            self
        }
    }

    /// Effect of flagging the sessions whose transcript was found absent:
    /// each session shown by `w` that is active, names a transcript and is
    /// among `absent` becomes missing; nothing else changes.
    pub open spec fn flag_absent(self, w: Seq<char>, absent: Seq<Seq<char>>) -> RegistryView {
        RegistryView {
            sessions: Map::new(
                |k: Seq<char>| self.sessions.contains_key(k),
                |k: Seq<char>|
                    if self.workspace(w).visible.contains(k) && checkable(self.sessions[k])
                        && absent.contains(k) {
                        SessionEntry { status: SessionStatus::Missing, ..self.sessions[k] }
                    } else {
                        self.sessions[k]
                    },
            ),
            ..self
        }
    }

    /// The sessions that `w` shows, in its order; ids with no record are skipped.
    pub open spec fn visible_sessions(self, w: Seq<char>) -> Seq<SessionEntry> {
        self.workspace(w).visible.filter(known_in(self.sessions)).map_values(
            record_in(self.sessions),
        )
    }

    /// `w` exists afterwards, keeping what it had.
    pub open spec fn ensure_workspace(self, w: Seq<char>) -> RegistryView {
        RegistryView { workspaces: self.workspaces.insert(w, self.workspace(w)), ..self }
    }

    /// Each session stored in turn.
    pub open spec fn put_all(self, s: Seq<SessionEntry>) -> RegistryView
        decreases s.len(),
    {
        if s.len() == 0 {
            self
        } else {
            self.put_all(s.drop_last()).put_session(s.last())
        }
    }

    /// Each id shown in turn by `w`.
    pub open spec fn show_all(self, w: Seq<char>, ids: Seq<Seq<char>>) -> RegistryView
        decreases ids.len(),
    {
        if ids.len() == 0 {
            self
        } else {
            self.show_all(w, ids.drop_last()).show(w, ids.last())
        }
    }

    /// Each workspace record stored in turn, as loading does: repeated ids
    /// in a visible list are kept once.
    pub open spec fn restore_all(self, ws: Seq<(Seq<char>, WorkspaceView)>) -> RegistryView
        decreases ws.len(),
    {
        if ws.len() == 0 {
            self
        } else {
            let r = self.restore_all(ws.drop_last());
            RegistryView {
                workspaces: r.workspaces.insert(
                    ws.last().0,
                    WorkspaceView { project_path: ws.last().1.project_path, visible: deduped(ws.last().1.visible) },
                ),
                ..r
            }
        }
    }

    /// Effect of importing: the records stored, then `w` created and the ids
    /// shown in order.
    pub open spec fn import(self, w: Seq<char>, ids: Seq<Seq<char>>, s: Seq<SessionEntry>) -> RegistryView {
        self.put_all(s).ensure_workspace(w).show_all(w, ids)
    }

    /// Each visible list is free of repeats, and each session is stored under
    /// its own id.
    pub open spec fn consistent(self) -> bool {
        &&& forall|w: Seq<char>| #[trigger]
            self.workspaces.contains_key(w) ==> self.workspaces[w].visible.no_duplicates()
        &&& forall|id: Seq<char>| #[trigger]
            self.sessions.contains_key(id) ==> self.sessions[id].session_id@ == id
    }
}

/// The sessions among `entries` that belong to `cwd` and are not in `visible`,
/// in the registry's order.
pub open spec fn archived_sessions(
    entries: Seq<(String, SessionEntry)>,
    visible: Seq<Seq<char>>,
    cwd: Seq<char>,
) -> Seq<SessionEntry> {
    entries.filter(hidden_in(visible, cwd)).map_values(entry_session())
}

/// Holds of the ids that have a record in `m`.
pub open spec fn known_in(m: Map<Seq<char>, SessionEntry>) -> spec_fn(Seq<char>) -> bool {
    |id: Seq<char>| m.contains_key(id)
}

/// The record of an id in `m`.
pub open spec fn record_in(m: Map<Seq<char>, SessionEntry>) -> spec_fn(Seq<char>) -> SessionEntry {
    |id: Seq<char>| m[id]
}

/// Holds of the entries of sessions in `cwd` that are not in `visible`.
pub open spec fn hidden_in(visible: Seq<Seq<char>>, cwd: Seq<char>) -> spec_fn(
    (String, SessionEntry),
) -> bool {
    |p: (String, SessionEntry)| p.1.cwd@ == cwd && !visible.contains(p.1.session_id@)
}

/// The session of an entry.
pub open spec fn entry_session() -> spec_fn((String, SessionEntry)) -> SessionEntry {
    |p: (String, SessionEntry)| p.1
}

/// The message of the error for an unknown session.
pub open spec fn session_not_found(id: Seq<char>) -> Seq<char> {
    "Session "@ + id + " not found"@
}

/// The message of the error for a session with no transcript path.
pub open spec fn no_transcript_path(id: Seq<char>) -> Seq<char> {
    "Session "@ + id + " has no transcript path"@
}

/// The message of the error for a transcript that is not on disk.
pub open spec fn transcript_not_found(path: Seq<char>) -> Seq<char> {
    "Transcript file not found: "@ + path
}

/// The persisted aggregate: a version tag, the workspaces and the sessions.
pub struct ThreadRegistry {
    pub version: u32,
    pub workspaces: OrderedMap<WorkspaceRegistry>,
    pub sessions: OrderedMap<SessionEntry>,
}

impl View for ThreadRegistry {
    type V = RegistryView;

    open spec fn view(&self) -> RegistryView {
        RegistryView {
            version: self.version,
            workspaces: self.workspaces@.map_values(|w: WorkspaceRegistry| w@),
            sessions: self.sessions@,
        }
    }
}

/// The version written into a new registry file.
pub fn default_registry_version() -> (r: u32)
    ensures
        r == 1,
{
    1
}

impl Default for ThreadRegistry {
    fn default() -> (r: ThreadRegistry)
        ensures
            r.wf(),
            r@ == RegistryView::empty(),
    {
        ThreadRegistry::new()
    }
}

/// Relies on `Path::exists`: whether a file was found at the path at the
/// time of the call; an error while looking counts as absent.
#[verifier::external_body]
fn transcript_exists(path: &str) -> (r: bool) {
    std::path::Path::new(path).exists()
}

impl ThreadRegistry {
    pub open spec fn wf(&self) -> bool {
        &&& self.workspaces.wf()
        &&& self.sessions.wf()
        &&& self@.consistent()
    }

    /// An empty registry at the current version.
    pub fn new() -> (r: ThreadRegistry)
        ensures
            r.wf(),
            r@ == RegistryView::empty(),
    {
        let r = ThreadRegistry {
            version: default_registry_version(),
            workspaces: OrderedMap::new(),
            sessions: OrderedMap::new(),
        };
        assert(r@.workspaces =~= Map::<Seq<char>, WorkspaceView>::empty());
        r
    }

    /// Looks a session up by id.
    pub fn session(&self, id: &str) -> (r: Option<&SessionEntry>)
        requires
            self.wf(),
        ensures
            match r {
                Some(s) => self@.sessions.contains_key(id@) && self@.sessions[id@] == *s,
                None => !self@.sessions.contains_key(id@),
            },
    {
        self.sessions.get(id)
    }

    /// Looks a workspace up by id.
    pub fn workspace(&self, id: &str) -> (r: Option<&WorkspaceRegistry>)
        requires
            self.wf(),
        ensures
            match r {
                Some(w) => self@.workspaces.contains_key(id@) && self@.workspaces[id@] == w@,
                None => !self@.workspaces.contains_key(id@),
            },
    {
        self.workspaces.get(id)
    }

    /// Shows `id` in workspace `w`, creating the workspace if needed.
    fn show(&mut self, w: &str, id: String)
        requires
            old(self).wf(),
        ensures
            final(self).workspaces.wf(),
            final(self).sessions == old(self).sessions,
            final(self).version == old(self).version,
            final(self)@ == old(self)@.show(w@, id@),
    {
        let ghost before = self@;
        match self.workspaces.find(w) {
            Some(i) => {
                proof {
                    lemma_entry_in_map(self.workspaces.entries@, i as int);
                }
                let mut ws = self.workspaces.replace(i, WorkspaceRegistry::empty());
                ws.show(id);
                self.workspaces.replace(i, ws);
            },
            None => {
                let mut ws = WorkspaceRegistry::empty();
                ws.show(id);
                self.workspaces.insert(w.to_string(), ws);
            },
        }
        assert(self@.workspaces =~= before.show(w@, id@).workspaces);
    }

    /// Stores `session` under its id and shows it in workspace `workspace_id`,
    /// appending it to the visible list only if it is not there yet.
    pub fn register(&mut self, workspace_id: &str, session: SessionEntry)
        requires
            old(self).wf(),
        ensures
            final(self).wf(),
            final(self)@ == old(self)@.register(workspace_id@, session),
    {
        let id = session.session_id.clone();
        let ghost s = session;
        self.sessions.insert(session.session_id.clone(), session);
        assert(self@ == old(self)@.put_session(s));
        self.show(workspace_id, id);
        proof {
            lemma_register_consistent(old(self)@, workspace_id@, s);
        }
    }
}

impl ThreadRegistry {
    /// Removes `session_id` from the visible list of `workspace_id`; the
    /// session record stays.
    pub fn archive(&mut self, workspace_id: &str, session_id: &str)
        requires
            old(self).wf(),
        ensures
            final(self).wf(),
            final(self)@ == old(self)@.archive(workspace_id@, session_id@),
            final(self).sessions == old(self).sessions,
    {
        match self.workspaces.find(workspace_id) {
            Some(i) => {
                proof {
                    lemma_entry_in_map(self.workspaces.entries@, i as int);
                }
                let mut ws = self.workspaces.replace(i, WorkspaceRegistry::empty());
                ws.conceal(session_id);
                self.workspaces.replace(i, ws);
                assert(self@.workspaces =~= old(self)@.archive(workspace_id@, session_id@).workspaces);
            },
            None => {},
        }
        proof {
            lemma_archive_consistent(old(self)@, workspace_id@, session_id@);
        }
    }

    /// Shows a known session in `workspace_id` again; an unknown session is
    /// an error and changes nothing.
    pub fn unarchive(&mut self, workspace_id: &str, session_id: &str) -> (r: Result<(), String>)
        requires
            old(self).wf(),
        ensures
            final(self).wf(),
            r is Ok <==> old(self)@.sessions.contains_key(session_id@),
            r is Ok ==> final(self)@ == old(self)@.show(workspace_id@, session_id@),
            r matches Err(e) ==> final(self)@ == old(self)@ && e@ == session_not_found(session_id@),
    {
        if !self.sessions.contains_key(session_id) {
            let mut e = String::new();
            push_str(&mut e, "Session ");
            push_str(&mut e, session_id);
            push_str(&mut e, " not found");
            return Err(e);
        }
        self.show(workspace_id, session_id.to_string());
        proof {
            lemma_show_consistent(old(self)@, workspace_id@, session_id@);
        }
        Ok(())
    }

    /// Records activity at time `now`; a new preview, if given, replaces the
    /// old one. An unknown session is left alone.
    pub fn update_activity_at(&mut self, session_id: &str, now: u64, preview: Option<String>)
        requires
            old(self).wf(),
        ensures
            final(self).wf(),
            final(self)@ == old(self)@.touch(session_id@, now, preview),
    {
        match self.sessions.find(session_id) {
            Some(i) => {
                proof {
                    lemma_entry_in_map(self.sessions.entries@, i as int);
                }
                let mut s = self.sessions.entries[i].1.duplicate();
                s.last_activity = now;
                match preview {
                    Some(p) => {
                        s.preview = Some(p);
                    },
                    None => {},
                }
                self.sessions.replace(i, s);
                assert(self@.workspaces =~= old(self)@.workspaces);
            },
            None => {},
        }
    }

    /// Records activity now; a new preview, if given, replaces the old one.
    pub fn update_activity(&mut self, session_id: &str, preview: Option<String>)
        requires
            old(self).wf(),
        ensures
            final(self).wf(),
            exists|t: u64| final(self)@ == old(self)@.touch(session_id@, t, preview),
    {
        let now = now_millis();
        self.update_activity_at(session_id, now, preview);
    }

    /// Flags a session whose transcript is gone.
    pub fn mark_session_missing(&mut self, session_id: &str)
        requires
            old(self).wf(),
        ensures
            final(self).wf(),
            final(self)@ == old(self)@.mark_missing(session_id@),
    {
        match self.sessions.find(session_id) {
            Some(i) => {
                proof {
                    lemma_entry_in_map(self.sessions.entries@, i as int);
                }
                let mut s = self.sessions.entries[i].1.duplicate();
                s.status = SessionStatus::Missing;
                self.sessions.replace(i, s);
                assert(self@.workspaces =~= old(self)@.workspaces);
            },
            None => {},
        }
    }

    /// Takes into account whether the transcript of `session_id` is present:
    /// an active session with a transcript path whose file is absent becomes
    /// missing; anything else is left as it is. Returns whether it changed.
    pub fn refresh_transcript_status(&mut self, session_id: &str, present: bool) -> (changed: bool)
        requires
            old(self).wf(),
        ensures
            final(self).wf(),
            changed == (!present && old(self)@.sessions.contains_key(session_id@) && checkable(
                old(self)@.sessions[session_id@],
            )),
            final(self)@ == if changed {
                old(self)@.mark_missing(session_id@)
            } else {
                old(self)@
            },
    {
        let flag = match self.sessions.get(session_id) {
            Some(s) => !present && s.status == SessionStatus::Active && s.transcript_path.is_some(),
            None => false,
        };
        if flag {
            self.mark_session_missing(session_id);
        }
        flag
    }

    /// The sessions that `workspace_id` shows, in its order.
    pub fn visible_sessions(&self, workspace_id: &str) -> (r: Vec<SessionEntry>)
        requires
            self.wf(),
        ensures
            r@ == self@.visible_sessions(workspace_id@),
    {
        let mut out: Vec<SessionEntry> = Vec::new();
        match self.workspaces.get(workspace_id) {
            Some(ws) => {
                let ids = &ws.visible_session_ids;
                let ghost known = known_in(self@.sessions);
                let ghost record = record_in(self@.sessions);
                let mut i: usize = 0;
                while i < ids.len()
                    invariant
                        self.wf(),
                        i <= ids@.len(),
                        known == known_in(self@.sessions),
                        record == record_in(self@.sessions),
                        out@ == ids_view(ids@.subrange(0, i as int)).filter(known).map_values(record),
                    decreases ids@.len() - i,
                {
                    let ghost before = ids_view(ids@.subrange(0, i as int));
                    let ghost x = ids@[i as int]@;
                    proof {
                        assert(ids_view(ids@.subrange(0, i + 1)) =~= before.push(x));
                        before.lemma_filter_push(x, known);
                    }
                    match self.sessions.get(ids[i].as_str()) {
                        Some(s) => {
                            out.push(s.duplicate());
                            assert(before.filter(known).push(x).map_values(record) =~= before.filter(
                                known,
                            ).map_values(record).push(record(x)));
                        },
                        None => {},
                    }
                    i = i + 1;
                }
                assert(ids@.subrange(0, i as int) =~= ids@);
            },
            None => {
                assert(self@.visible_sessions(workspace_id@) =~= Seq::<SessionEntry>::empty()) by {
                    reveal(Seq::filter);
                }
            },
        }
        out
    }

    /// Flags as missing each session shown by `workspace_id` that is active,
    /// names a transcript, and is among `absent` (the sessions whose
    /// transcript file was found absent); nothing else changes. Returns
    /// whether anything was flagged.
    pub fn flag_absent_transcripts(&mut self, workspace_id: &str, absent: &Vec<String>) -> (changed: bool)
        requires
            old(self).wf(),
        ensures
            final(self).wf(),
            final(self)@ == old(self)@.flag_absent(workspace_id@, ids_view(absent@)),
            changed == (final(self)@ != old(self)@),
    {
        let ids: Vec<String> = match self.workspaces.get(workspace_id) {
            Some(ws) => copy_ids(&ws.visible_session_ids),
            None => Vec::new(),
        };
        let ghost vis = old(self)@.workspace(workspace_id@).visible;
        let ghost ab = ids_view(absent@);
        assert(ids_view(ids@) == vis);
        let mut dirty = false;
        let ghost mut witness: Seq<char> = Seq::empty();
        let mut i: usize = 0;
        while i < ids.len()
            invariant
                self.wf(),
                i <= ids@.len(),
                ids_view(ids@) == vis,
                vis == old(self)@.workspace(workspace_id@).visible,
                ab == ids_view(absent@),
                self@.version == old(self)@.version,
                self@.workspaces == old(self)@.workspaces,
                self@.sessions.dom() == old(self)@.sessions.dom(),
                forall|k: Seq<char>| #[trigger]
                    self@.sessions.contains_key(k) ==> self@.sessions[k] == if vis.take(i as int).contains(k)
                        && checkable(old(self)@.sessions[k]) && ab.contains(k) {
                        SessionEntry { status: SessionStatus::Missing, ..old(self)@.sessions[k] }
                    } else {
                        old(self)@.sessions[k]
                    },
                dirty ==> old(self)@.sessions.contains_key(witness) && self@.sessions[witness].status
                    == SessionStatus::Missing && old(self)@.sessions[witness].status
                    == SessionStatus::Active,
                !dirty ==> self@ == old(self)@,
            decreases ids@.len() - i,
        {
            let ghost k = ids@[i as int]@;
            proof {
                assert(vis[i as int] == k);
                assert(vis.take(i + 1) =~= vis.take(i as int).push(k));
            }
            if contains_id(absent, ids[i].as_str()) {
                let ghost mid = self@;
                let changed = self.refresh_transcript_status(ids[i].as_str(), false);
                proof {
                    assert(self@.sessions.dom() =~= mid.sessions.dom());
                    if changed {
                        witness = k;
                    }
                }
                if changed {
                    dirty = true;
                }
            }
            assert forall|x: Seq<char>| #[trigger] self@.sessions.contains_key(x) implies self@.sessions[x]
                == if vis.take(i + 1).contains(x) && checkable(old(self)@.sessions[x]) && ab.contains(x) {
                SessionEntry { status: SessionStatus::Missing, ..old(self)@.sessions[x] }
            } else {
                old(self)@.sessions[x]
            } by {
                if x != k {
                    assert(vis.take(i + 1).contains(x) == vis.take(i as int).contains(x)) by {
                        if vis.take(i + 1).contains(x) {
                            let j = choose|j: int| 0 <= j < i + 1 && #[trigger] vis.take(i + 1)[j] == x;
                            assert(vis.take(i as int)[j] == x);
                        }
                        if vis.take(i as int).contains(x) {
                            let j = choose|j: int| 0 <= j < i && #[trigger] vis.take(i as int)[j] == x;
                            assert(vis.take(i + 1)[j] == x);
                        }
                    }
                } else {
                    assert(vis.take(i + 1)[i as int] == k);
                }
            }
            i = i + 1;
        }
        assert(vis.take(i as int) =~= vis);
        assert(self@.sessions =~= old(self)@.flag_absent(workspace_id@, ab).sessions);
        dirty
    }

    /// The sessions that `workspace_id` shows, after checking on disk the
    /// transcript of each shown active session that names one and flagging
    /// those whose file is absent (see `flag_absent_transcripts`); also says
    /// whether anything was flagged, so that the caller knows to persist.
    pub fn list_visible(&mut self, workspace_id: &str) -> (r: (Vec<SessionEntry>, bool))
        requires
            old(self).wf(),
        ensures
            final(self).wf(),
            exists|absent: Seq<Seq<char>>| final(self)@ == old(self)@.flag_absent(workspace_id@, absent),
            r.0@ == final(self)@.visible_sessions(workspace_id@),
            r.1 == (final(self)@ != old(self)@),
    {
        let ids: Vec<String> = match self.workspaces.get(workspace_id) {
            Some(ws) => copy_ids(&ws.visible_session_ids),
            None => Vec::new(),
        };
        let mut absent: Vec<String> = Vec::new();
        let mut i: usize = 0;
        while i < ids.len()
            invariant
                i <= ids@.len(),
                self.wf(),
                self@ == old(self)@,
            decreases ids@.len() - i,
        {
            let path: Option<String> = match self.sessions.get(ids[i].as_str()) {
                Some(s) => if s.status == SessionStatus::Active {
                    clone_opt_string(&s.transcript_path)
                } else {
                    None
                },
                None => None,
            };
            match path {
                Some(p) => {
                    if !transcript_exists(p.as_str()) {
                        absent.push(ids[i].clone());
                    }
                },
                None => {},
            }
            i = i + 1;
        }
        let changed = self.flag_absent_transcripts(workspace_id, &absent);
        let list = self.visible_sessions(workspace_id);
        (list, changed)
    }

    /// The sessions of working directory `workspace_cwd` that `workspace_id`
    /// does not show, in the registry's order; none without a directory.
    pub fn list_archived(&self, workspace_id: &str, workspace_cwd: Option<&str>) -> (r: Vec<SessionEntry>)
        requires
            self.wf(),
        ensures
            r@ == match workspace_cwd {
                Some(c) => archived_sessions(
                    self.sessions.entries@,
                    self@.workspace(workspace_id@).visible,
                    c@,
                ),
                None => Seq::<SessionEntry>::empty(),
            },
    {
        let mut out: Vec<SessionEntry> = Vec::new();
        let cwd = match workspace_cwd {
            Some(c) => c,
            None => {
                return out;
            },
        };
        let empty: Vec<String> = Vec::new();
        let visible = match self.workspaces.get(workspace_id) {
            Some(ws) => &ws.visible_session_ids,
            None => &empty,
        };
        assert(ids_view(visible@) == self@.workspace(workspace_id@).visible) by {
            if !self@.workspaces.contains_key(workspace_id@) {
                assert(ids_view(visible@) =~= Seq::<Seq<char>>::empty());
            }
        }
        let ghost pred = hidden_in(ids_view(visible@), cwd@);
        let ghost f = entry_session();
        let entries = &self.sessions.entries;
        let mut i: usize = 0;
        while i < entries.len()
            invariant
                i <= entries@.len(),
                pred == hidden_in(ids_view(visible@), cwd@),
                f == entry_session(),
                out@ == entries@.subrange(0, i as int).filter(pred).map_values(f),
            decreases entries@.len() - i,
        {
            let ghost before = entries@.subrange(0, i as int);
            proof {
                assert(entries@.subrange(0, i + 1) =~= before.push(entries@[i as int]));
                before.lemma_filter_push(entries@[i as int], pred);
            }
            let s = &entries[i].1;
            if str_eq(s.cwd.as_str(), cwd) && !contains_id(visible, s.session_id.as_str()) {
                out.push(s.duplicate());
                assert(before.filter(pred).push(entries@[i as int]).map_values(f) =~= before.filter(
                    pred,
                ).map_values(f).push(f(entries@[i as int])));
            }
            i = i + 1;
        }
        assert(entries@.subrange(0, i as int) =~= entries@);
        out
    }

    /// Creates workspace `w` if it does not exist.
    fn ensure_workspace(&mut self, w: &str)
        requires
            old(self).wf(),
        ensures
            final(self).wf(),
            final(self)@ == old(self)@.ensure_workspace(w@),
    {
        if !self.workspaces.contains_key(w) {
            self.workspaces.insert(w.to_string(), WorkspaceRegistry::empty());
        }
        assert(self@.workspaces =~= old(self)@.ensure_workspace(w@).workspaces);
    }

    /// Stores every record of `sessions_data`, then shows each of
    /// `session_ids` in `workspace_id`, in order and without repeats.
    pub fn import(&mut self, workspace_id: &str, session_ids: Vec<String>, sessions_data: Vec<SessionEntry>)
        requires
            old(self).wf(),
        ensures
            final(self).wf(),
            final(self)@ == old(self)@.import(workspace_id@, ids_view(session_ids@), sessions_data@),
    {
        let mut i: usize = 0;
        while i < sessions_data.len()
            invariant
                self.wf(),
                i <= sessions_data@.len(),
                self@ == old(self)@.put_all(sessions_data@.subrange(0, i as int)),
            decreases sessions_data@.len() - i,
        {
            let s = sessions_data[i].duplicate();
            proof {
                let next = sessions_data@.subrange(0, i + 1);
                assert(next.drop_last() =~= sessions_data@.subrange(0, i as int));
                lemma_put_consistent(self@, s);
            }
            self.sessions.insert(s.session_id.clone(), s);
            assert(self@.workspaces =~= old(self)@.put_all(sessions_data@.subrange(0, i + 1)).workspaces);
            i = i + 1;
        }
        assert(sessions_data@.subrange(0, i as int) =~= sessions_data@);
        self.ensure_workspace(workspace_id);
        let ghost base = self@;
        let mut j: usize = 0;
        while j < session_ids.len()
            invariant
                self.wf(),
                j <= session_ids@.len(),
                self@ == base.show_all(workspace_id@, ids_view(session_ids@.subrange(0, j as int))),
            decreases session_ids@.len() - j,
        {
            proof {
                let next = ids_view(session_ids@.subrange(0, j + 1));
                assert(next.drop_last() =~= ids_view(session_ids@.subrange(0, j as int)));
                lemma_show_consistent(self@, workspace_id@, session_ids@[j as int]@);
            }
            self.show(workspace_id, session_ids[j].clone());
            j = j + 1;
        }
        assert(session_ids@.subrange(0, j as int) =~= session_ids@);
    }
}

/// A copy of a list of strings.
pub fn copy_ids(v: &Vec<String>) -> (r: Vec<String>)
    ensures
        r@ == v@,
{
    let mut out: Vec<String> = Vec::new();
    let mut i: usize = 0;
    while i < v.len()
        invariant
            i <= v@.len(),
            out@ == v@.subrange(0, i as int),
        decreases v@.len() - i,
    {
        out.push(v[i].clone());
        assert(out@ =~= v@.subrange(0, i + 1));
        i = i + 1;
    }
    assert(v@.subrange(0, i as int) =~= v@);
    out
}

/// Storing a record under its own id keeps the registry consistent.
proof fn lemma_put_consistent(r: RegistryView, s: SessionEntry)
    requires
        r.consistent(),
    ensures
        r.put_session(s).consistent(),
{
}

/// Relies on `SystemTime::now`: the current time in milliseconds since the
/// Unix epoch, or 0 when the clock reads earlier than the epoch.
#[verifier::external_body]
pub fn now_millis() -> u64 {
    std::time::SystemTime::now()
        .duration_since(std::time::UNIX_EPOCH)
        .map(|d| d.as_millis() as u64)
        .unwrap_or(0)
}

impl ThreadRegistry {
    /// The transcript to read for the history of `session_id`. A session
    /// without a transcript path gets the paths derived under home
    /// directory `home`, and the second value says the registry changed.
    pub fn history_path(&mut self, session_id: &str, home: Option<&str>) -> (r: Result<(String, bool), String>)
        requires
            old(self).wf(),
        ensures
            final(self).wf(),
            !old(self)@.sessions.contains_key(session_id@) ==> (r matches Err(e) && e@
                == session_not_found(session_id@) && final(self)@ == old(self)@),
            old(self)@.sessions.contains_key(session_id@) ==> {
                let s = old(self)@.sessions[session_id@];
                match s.transcript_path {
                    Some(t) => r == Ok::<(String, bool), String>((t, false)) && final(self)@ == old(self)@,
                    None => match home {
                        Some(h) => (r matches Ok((t, true)) && {
                            let n = final(self)@.sessions[session_id@];
                            &&& t@ == transcript_path_for(h@, s.cwd@, session_id@)
                            &&& n.transcript_path == Some(t)
                            &&& n.project_path matches Some(p) && p@ == project_path_for(h@, s.cwd@)
                            &&& n == SessionEntry { transcript_path: n.transcript_path, project_path: n.project_path, ..s }
                            &&& final(self)@ == RegistryView {
                                sessions: old(self)@.sessions.insert(session_id@, n),
                                ..old(self)@
                            }
                        }),
                        None => (r matches Err(e) && e@ == no_transcript_path(session_id@) && final(self)@
                            == old(self)@),
                    },
                }
            },
    {
        let i = match self.sessions.find(session_id) {
            Some(i) => i,
            None => {
                let mut e = String::new();
                push_str(&mut e, "Session ");
                push_str(&mut e, session_id);
                push_str(&mut e, " not found");
                return Err(e);
            },
        };
        proof {
            lemma_entry_in_map(self.sessions.entries@, i as int);
        }
        match &self.sessions.entries[i].1.transcript_path {
            Some(t) => {
                return Ok((t.clone(), false));
            },
            None => {},
        }
        match home {
            Some(h) => {
                let mut s = self.sessions.entries[i].1.duplicate();
                let (project, transcript) = project_paths_in(h, s.cwd.as_str(), session_id);
                s.transcript_path = Some(transcript.clone());
                s.project_path = Some(project);
                self.sessions.replace(i, s);
                assert(self@.workspaces =~= old(self)@.workspaces);
                Ok((transcript, true))
            },
            None => {
                let mut e = String::new();
                push_str(&mut e, "Session ");
                push_str(&mut e, session_id);
                push_str(&mut e, " has no transcript path");
                Err(e)
            },
        }
    }

    /// Takes into account whether the transcript at `path` is present. When
    /// it is not, the session is flagged as missing (unless it already is)
    /// and an error names the path; the second value says the registry
    /// changed.
    pub fn confirm_transcript_given(&mut self, session_id: &str, path: &str, present: bool) -> (r: (
        Result<(), String>,
        bool,
    ))
        requires
            old(self).wf(),
        ensures
            final(self).wf(),
            r.0 is Ok <==> present,
            present ==> !r.1 && final(self)@ == old(self)@,
            !present ==> confirmed_absent(old(self)@, final(self)@, session_id@, path@, r),
    {
        if present {
            return (Ok(()), false);
        }
        let flag = match self.sessions.get(session_id) {
            Some(s) => s.status != SessionStatus::Missing,
            None => false,
        };
        if flag {
            self.mark_session_missing(session_id);
        }
        let mut e = String::new();
        push_str(&mut e, "Transcript file not found: ");
        push_str(&mut e, path);
        (Err(e), flag)
    }

    /// Checks on disk that the transcript at `path` is there; see
    /// `confirm_transcript_given`, which this is for whatever the disk said.
    pub fn confirm_transcript(&mut self, session_id: &str, path: &str) -> (r: (Result<(), String>, bool))
        requires
            old(self).wf(),
        ensures
            final(self).wf(),
            r.0 is Ok ==> !r.1 && final(self)@ == old(self)@,
            r.0 is Err ==> confirmed_absent(old(self)@, final(self)@, session_id@, path@, r),
    {
        let present = transcript_exists(path);
        self.confirm_transcript_given(session_id, path, present)
    }
}

/// What a missing transcript does: the session is flagged unless it already
/// is, and an error names the path.
pub open spec fn confirmed_absent(
    before: RegistryView,
    after: RegistryView,
    session_id: Seq<char>,
    path: Seq<char>,
    r: (Result<(), String>, bool),
) -> bool {
    let flag = before.sessions.contains_key(session_id) && before.sessions[session_id].status
        != SessionStatus::Missing;
    &&& r.0 matches Err(e) && e@ == transcript_not_found(path)
    &&& r.1 == flag
    &&& after == if flag {
        before.mark_missing(session_id)
    } else {
        before
    }
}

/// The ids in order, each kept at its first occurrence only.
pub open spec fn deduped(ids: Seq<Seq<char>>) -> Seq<Seq<char>>
    decreases ids.len(),
{
    if ids.len() == 0 {
        Seq::empty()
    } else {
        let d = deduped(ids.drop_last());
        if d.contains(ids.last()) {
            d
        } else {
            d.push(ids.last())
        }
    }
}

impl ThreadRegistry {
    /// Stores a loaded session record under its own id.
    pub fn restore_session(&mut self, session: SessionEntry)
        requires
            old(self).wf(),
        ensures
            final(self).wf(),
            final(self)@ == old(self)@.put_session(session),
    {
        proof {
            lemma_put_consistent(self@, session);
        }
        self.sessions.insert(session.session_id.clone(), session);
        assert(self@.workspaces =~= old(self)@.workspaces);
    }

    /// Stores a loaded workspace record; repeated ids in its visible list
    /// are kept once, at their first place.
    pub fn restore_workspace(&mut self, workspace_id: String, project_path: Option<String>, visible: Vec<String>)
        requires
            old(self).wf(),
        ensures
            final(self).wf(),
            final(self)@ == (RegistryView {
                workspaces: old(self)@.workspaces.insert(
                    workspace_id@,
                    WorkspaceView { project_path: opt_view(project_path), visible: deduped(ids_view(visible@)) },
                ),
                ..old(self)@
            }),
    {
        let mut ws = WorkspaceRegistry::empty();
        ws.project_path = project_path;
        let mut i: usize = 0;
        assert(ids_view(visible@.take(0)) =~= Seq::<Seq<char>>::empty());
        while i < visible.len()
            invariant
                i <= visible@.len(),
                ws@.project_path == opt_view(project_path),
                ws@.visible == deduped(ids_view(visible@.take(i as int))),
                ws@.visible.no_duplicates(),
            decreases visible@.len() - i,
        {
            assert(ids_view(visible@.take(i + 1)).drop_last() =~= ids_view(visible@.take(i as int)));
            assert(ids_view(visible@.take(i + 1)).last() == visible@[i as int]@);
            proof {
                lemma_with_visible_no_dup(ws@, visible@[i as int]@);
            }
            ws.show(visible[i].clone());
            i = i + 1;
        }
        assert(visible@.take(i as int) =~= visible@);
        let ghost wv = ws@;
        self.workspaces.insert(workspace_id, ws);
        assert(self@.workspaces =~= old(self)@.workspaces.insert(workspace_id@, wv));
    }
}

/// Loading a registry's own records gives it back: starting from an empty
/// registry at the same version, storing each of its sessions (in any order,
/// any number of times) and then each of its workspace records yields the
/// same version, the same sessions and the same workspaces.
pub proof fn law_restore_round_trip(
    r: RegistryView,
    sessions: Seq<SessionEntry>,
    workspaces: Seq<(Seq<char>, WorkspaceView)>,
)
    requires
        r.consistent(),
        forall|i: int|
            0 <= i < sessions.len() ==> r.sessions.contains_key(#[trigger] sessions[i].session_id@)
                && r.sessions[sessions[i].session_id@] == sessions[i],
        forall|k: Seq<char>| #[trigger]
            r.sessions.contains_key(k) ==> exists|i: int|
                0 <= i < sessions.len() && #[trigger] sessions[i].session_id@ == k,
        forall|i: int|
            0 <= i < workspaces.len() ==> r.workspaces.contains_key(#[trigger] workspaces[i].0)
                && r.workspaces[workspaces[i].0] == workspaces[i].1,
        forall|k: Seq<char>| #[trigger]
            r.workspaces.contains_key(k) ==> exists|i: int|
                0 <= i < workspaces.len() && #[trigger] workspaces[i].0 == k,
    ensures
        (RegistryView { version: r.version, ..RegistryView::empty() }).put_all(sessions).restore_all(
            workspaces,
        ) == r,
{
    let base = RegistryView { version: r.version, ..RegistryView::empty() };
    lemma_put_all_records(base, sessions, r);
    let mid = base.put_all(sessions);
    assert(mid.sessions =~= r.sessions) by {
        assert forall|k: Seq<char>| mid.sessions.contains_key(k) == r.sessions.contains_key(k) by {
            if r.sessions.contains_key(k) {
                let i = choose|i: int| 0 <= i < sessions.len() && #[trigger] sessions[i].session_id@ == k;
                assert(mid.sessions.contains_key(sessions[i].session_id@));
            }
        }
    }
    lemma_restore_all_records(mid, workspaces, r);
    let fin = mid.restore_all(workspaces);
    assert(fin.workspaces =~= r.workspaces) by {
        assert forall|k: Seq<char>| fin.workspaces.contains_key(k) == r.workspaces.contains_key(k) by {
            if r.workspaces.contains_key(k) {
                let i = choose|i: int| 0 <= i < workspaces.len() && #[trigger] workspaces[i].0 == k;
                assert(fin.workspaces.contains_key(workspaces[i].0));
            }
        }
    }
}

/// Storing records of `r` into an empty registry gives exactly those
/// records, under their ids.
proof fn lemma_put_all_records(base: RegistryView, sessions: Seq<SessionEntry>, r: RegistryView)
    requires
        base.sessions == Map::<Seq<char>, SessionEntry>::empty(),
        forall|i: int|
            0 <= i < sessions.len() ==> r.sessions.contains_key(#[trigger] sessions[i].session_id@)
                && r.sessions[sessions[i].session_id@] == sessions[i],
    ensures
        base.put_all(sessions).version == base.version,
        base.put_all(sessions).workspaces == base.workspaces,
        forall|k: Seq<char>| #[trigger]
            base.put_all(sessions).sessions.contains_key(k) <==> exists|i: int|
                0 <= i < sessions.len() && #[trigger] sessions[i].session_id@ == k,
        forall|k: Seq<char>| #[trigger]
            base.put_all(sessions).sessions.contains_key(k) ==> base.put_all(sessions).sessions[k]
                == r.sessions[k],
    decreases sessions.len(),
{
    if sessions.len() > 0 {
        let rest = sessions.drop_last();
        assert forall|i: int| 0 <= i < rest.len() implies r.sessions.contains_key(
            #[trigger] rest[i].session_id@,
        ) && r.sessions[rest[i].session_id@] == rest[i] by {
            assert(rest[i] == sessions[i]);
        }
        lemma_put_all_records(base, rest, r);
        let last = sessions[sessions.len() - 1];
        assert(r.sessions[last.session_id@] == last);
        let m = base.put_all(sessions).sessions;
        assert forall|k: Seq<char>| #[trigger]
            m.contains_key(k) <==> exists|i: int| 0 <= i < sessions.len() && #[trigger] sessions[i].session_id@ == k by {
            if m.contains_key(k) && k != last.session_id@ {
                let i = choose|i: int| 0 <= i < rest.len() && #[trigger] rest[i].session_id@ == k;
                assert(sessions[i] == rest[i]);
            }
            if exists|i: int| 0 <= i < sessions.len() && #[trigger] sessions[i].session_id@ == k {
                let i = choose|i: int| 0 <= i < sessions.len() && #[trigger] sessions[i].session_id@ == k;
                if i < sessions.len() - 1 {
                    assert(rest[i] == sessions[i]);
                    assert(base.put_all(rest).sessions.contains_key(rest[i].session_id@));
                }
            }
        }
    }
}

/// Storing workspace records of a consistent `r` gives exactly those records.
proof fn lemma_restore_all_records(base: RegistryView, ws: Seq<(Seq<char>, WorkspaceView)>, r: RegistryView)
    requires
        r.consistent(),
        base.workspaces == Map::<Seq<char>, WorkspaceView>::empty(),
        forall|i: int|
            0 <= i < ws.len() ==> r.workspaces.contains_key(#[trigger] ws[i].0) && r.workspaces[ws[i].0]
                == ws[i].1,
    ensures
        base.restore_all(ws).version == base.version,
        base.restore_all(ws).sessions == base.sessions,
        forall|k: Seq<char>| #[trigger]
            base.restore_all(ws).workspaces.contains_key(k) <==> exists|i: int|
                0 <= i < ws.len() && #[trigger] ws[i].0 == k,
        forall|k: Seq<char>| #[trigger]
            base.restore_all(ws).workspaces.contains_key(k) ==> base.restore_all(ws).workspaces[k]
                == r.workspaces[k],
    decreases ws.len(),
{
    if ws.len() > 0 {
        let rest = ws.drop_last();
        assert forall|i: int| 0 <= i < rest.len() implies r.workspaces.contains_key(#[trigger] rest[i].0)
            && r.workspaces[rest[i].0] == rest[i].1 by {
            assert(rest[i] == ws[i]);
        }
        lemma_restore_all_records(base, rest, r);
        let last = ws[ws.len() - 1];
        assert(r.workspaces.contains_key(last.0));
        lemma_deduped_unique(last.1.visible);
        let m = base.restore_all(ws).workspaces;
        assert forall|k: Seq<char>| #[trigger]
            m.contains_key(k) <==> exists|i: int| 0 <= i < ws.len() && #[trigger] ws[i].0 == k by {
            if m.contains_key(k) && k != last.0 {
                let i = choose|i: int| 0 <= i < rest.len() && #[trigger] rest[i].0 == k;
                assert(ws[i] == rest[i]);
            }
            if exists|i: int| 0 <= i < ws.len() && #[trigger] ws[i].0 == k {
                let i = choose|i: int| 0 <= i < ws.len() && #[trigger] ws[i].0 == k;
                if i < ws.len() - 1 {
                    assert(rest[i] == ws[i]);
                    assert(base.restore_all(rest).workspaces.contains_key(rest[i].0));
                }
            }
        }
    }
}

/// A list without repeats is its own deduplication.
pub proof fn lemma_deduped_unique(s: Seq<Seq<char>>)
    requires
        s.no_duplicates(),
    ensures
        deduped(s) == s,
    decreases s.len(),
{
    if s.len() > 0 {
        let rest = s.drop_last();
        assert(rest.no_duplicates()) by {
            assert forall|i: int, j: int| 0 <= i < rest.len() && 0 <= j < rest.len() && i != j implies rest[i]
                != rest[j] by {
                assert(rest[i] == s[i] && rest[j] == s[j]);
            }
        }
        lemma_deduped_unique(rest);
        assert(!rest.contains(s.last())) by {
            if rest.contains(s.last()) {
                let j = choose|j: int| 0 <= j < rest.len() && rest[j] == s.last();
                assert(s[j] == s[s.len() - 1]);
            }
        }
        assert(rest.push(s.last()) =~= s);
    }
}

/// Registering a session for a workspace shows it there exactly once; a
/// second registration under the same id adds no second entry, and the list
/// of visible sessions then holds the newer record.
pub proof fn law_register_shows_once(r: RegistryView, w: Seq<char>, s: SessionEntry, again: SessionEntry)
    requires
        r.consistent(),
        again.session_id@ == s.session_id@,
    ensures
        r.register(w, s).workspace(w).visible.contains(s.session_id@),
        r.register(w, s).workspace(w).visible.no_duplicates(),
        r.register(w, s).register(w, again).workspace(w).visible == r.register(w, s).workspace(
            w,
        ).visible,
        r.register(w, s).visible_sessions(w).contains(s),
        r.register(w, s).register(w, again).visible_sessions(w).contains(again),
        listed_once(r.register(w, s).register(w, again).visible_sessions(w), again),
{
    let id = s.session_id@;
    let r1 = r.register(w, s);
    lemma_register_consistent(r, w, s);
    lemma_with_visible_no_dup(r.put_session(s).workspace(w), id);
    lemma_visible_contains(r1, w, id);
    let r2 = r1.register(w, again);
    lemma_register_consistent(r1, w, again);
    assert(r1.put_session(again).workspace(w) == r1.workspace(w));
    lemma_visible_contains(r2, w, id);
    lemma_visible_once(r2, w, id);
}

/// `e` is in the list, and no other entry of the list has its id.
pub open spec fn listed_once(l: Seq<SessionEntry>, e: SessionEntry) -> bool {
    exists|i: int|
        0 <= i < l.len() && l[i] == e && forall|j: int|
            0 <= j < l.len() && #[trigger] l[j].session_id@ == e.session_id@ ==> j == i
}

/// In a consistent registry, a shown id with a record is listed once among
/// the visible sessions.
proof fn lemma_visible_once(r: RegistryView, w: Seq<char>, id: Seq<char>)
    requires
        r.consistent(),
        r.workspace(w).visible.contains(id),
        r.sessions.contains_key(id),
    ensures
        listed_once(r.visible_sessions(w), r.sessions[id]),
{
    let v = r.workspace(w).visible;
    assert(r.workspaces.contains_key(w)) by {
        if !r.workspaces.contains_key(w) {
            assert(v.len() == 0);
        }
    }
    assert(v.no_duplicates());
    let f = v.filter(known_in(r.sessions));
    lemma_filter_no_dup(v, known_in(r.sessions));
    let k = choose|k: int| 0 <= k < v.len() && v[k] == id;
    v.lemma_filter_contains(known_in(r.sessions), k);
    let i = choose|i: int| 0 <= i < f.len() && f[i] == id;
    let l = r.visible_sessions(w);
    assert(l[i] == r.sessions[id]);
    assert forall|j: int| 0 <= j < l.len() && #[trigger] l[j].session_id@ == r.sessions[id].session_id@ implies j == i by {
        v.lemma_filter_pred(known_in(r.sessions), j);
        assert(l[j] == r.sessions[f[j]]);
        assert(r.sessions[f[j]].session_id@ == f[j]);
    }
}

/// A shown id with a record puts that record among the visible sessions.
proof fn lemma_visible_contains(r: RegistryView, w: Seq<char>, id: Seq<char>)
    requires
        r.workspace(w).visible.contains(id),
        r.sessions.contains_key(id),
    ensures
        r.visible_sessions(w).contains(r.sessions[id]),
{
    let v = r.workspace(w).visible;
    let i = choose|i: int| 0 <= i < v.len() && v[i] == id;
    v.lemma_filter_contains(known_in(r.sessions), i);
    let f = v.filter(known_in(r.sessions));
    let j = choose|j: int| 0 <= j < f.len() && f[j] == id;
    assert(f.map_values(record_in(r.sessions))[j] == r.sessions[id]);
}

/// Archiving a shown session takes it off the workspace's visible sessions,
/// keeps its record, and lists it among the archived sessions of the
/// workspace's directory when that is the session's directory.
pub proof fn law_archive_moves_to_archived(
    r: RegistryView,
    entries: Seq<(String, SessionEntry)>,
    w: Seq<char>,
    id: Seq<char>,
)
    requires
        r.consistent(),
        keys_unique(entries),
        entries_map(entries) == r.sessions,
        r.workspace(w).visible.contains(id),
        r.sessions.contains_key(id),
    ensures
        r.visible_sessions(w).contains(r.sessions[id]),
        !r.archive(w, id).visible_sessions(w).contains(r.sessions[id]),
        r.archive(w, id).sessions == r.sessions,
        archived_sessions(entries, r.archive(w, id).workspace(w).visible, r.sessions[id].cwd@).contains(
            r.sessions[id],
        ),
        forall|j: int|
            0 <= j < r.archive(w, id).visible_sessions(w).len() ==> (#[trigger] r.archive(
                w,
                id,
            ).visible_sessions(w)[j]).session_id@ != id,
        listed_once(
            archived_sessions(entries, r.archive(w, id).workspace(w).visible, r.sessions[id].cwd@),
            r.sessions[id],
        ),
{
    let s = r.sessions[id];
    lemma_visible_contains(r, w, id);
    let a = r.archive(w, id);
    let v2 = a.workspace(w).visible;
    assert(v2 == r.workspace(w).visible.filter(other_than(id)));
    assert(!v2.contains(id)) by {
        if v2.contains(id) {
            let j = choose|j: int| 0 <= j < v2.len() && v2[j] == id;
            r.workspace(w).visible.lemma_filter_pred(other_than(id), j);
        }
    }
    assert(!a.visible_sessions(w).contains(s)) by {
        if a.visible_sessions(w).contains(s) {
            let f = v2.filter(known_in(a.sessions));
            let j = choose|j: int| 0 <= j < f.len() && f.map_values(record_in(a.sessions))[j] == s;
            let x = f[j];
            v2.lemma_filter_pred(known_in(a.sessions), j);
            assert(f.contains(x));
            v2.lemma_filter_contains_rev(known_in(a.sessions), x);
            assert(a.sessions[x].session_id@ == x);
        }
    }
    assert(has_key(entries, id));
    let i = choose|i: int| 0 <= i < entries.len() && #[trigger] entries[i].0@ == id;
    lemma_entry_in_map(entries, i);
    entries.lemma_filter_contains(hidden_in(v2, s.cwd@), i);
    let f = entries.filter(hidden_in(v2, s.cwd@));
    let j = choose|j: int| 0 <= j < f.len() && f[j] == entries[i];
    let l = f.map_values(entry_session());
    assert(l[j] == s);
    let av = a.visible_sessions(w);
    assert forall|q: int| 0 <= q < av.len() implies (#[trigger] av[q]).session_id@ != id by {
        let g = v2.filter(known_in(a.sessions));
        v2.lemma_filter_pred(known_in(a.sessions), q);
        assert(g.contains(g[q]));
        v2.lemma_filter_contains_rev(known_in(a.sessions), g[q]);
        assert(av[q] == a.sessions[g[q]]);
        assert(a.sessions[g[q]].session_id@ == g[q]);
    }
    lemma_unique_keys_no_dup(entries);
    lemma_filter_no_dup(entries, hidden_in(v2, s.cwd@));
    assert forall|q: int| 0 <= q < l.len() && #[trigger] l[q].session_id@ == s.session_id@ implies q == j by {
        assert(f.contains(f[q]));
        entries.lemma_filter_contains_rev(hidden_in(v2, s.cwd@), f[q]);
        let k = choose|k: int| 0 <= k < entries.len() && entries[k] == f[q];
        lemma_entry_in_map(entries, k);
        assert(r.sessions[entries[k].0@].session_id@ == entries[k].0@);
        assert(entries[k].0@ == id);
        assert(k == i);
    }
}

/// Entries with unique keys are pairwise distinct.
proof fn lemma_unique_keys_no_dup(e: Seq<(String, SessionEntry)>)
    requires
        keys_unique(e),
    ensures
        e.no_duplicates(),
{
    assert forall|a: int, b: int| 0 <= a < e.len() && 0 <= b < e.len() && a != b implies e[a] != e[b] by {
        assert(e[a].0@ != e[b].0@);
    }
}

/// Registering keeps the registry consistent.
proof fn lemma_register_consistent(r: RegistryView, w: Seq<char>, s: SessionEntry)
    requires
        r.consistent(),
    ensures
        r.register(w, s).consistent(),
{
    lemma_show_consistent(r.put_session(s), w, s.session_id@);
}

/// Showing an id keeps the registry consistent.
proof fn lemma_show_consistent(r: RegistryView, w: Seq<char>, id: Seq<char>)
    requires
        r.consistent(),
    ensures
        r.show(w, id).consistent(),
{
    let r2 = r.show(w, id);
    assert forall|x: Seq<char>| #[trigger] r2.workspaces.contains_key(x) implies r2.workspaces[
        x
    ].visible.no_duplicates() by {
        if x == w {
            lemma_with_visible_no_dup(r.workspace(w), id);
        }
    }
}

/// Archiving keeps the registry consistent.
proof fn lemma_archive_consistent(r: RegistryView, w: Seq<char>, id: Seq<char>)
    requires
        r.consistent(),
    ensures
        r.archive(w, id).consistent(),
{
    let r2 = r.archive(w, id);
    assert forall|x: Seq<char>| #[trigger] r2.workspaces.contains_key(x) implies r2.workspaces[
        x
    ].visible.no_duplicates() by {
        if x == w && r.workspaces.contains_key(w) {
            lemma_filter_no_dup(r.workspaces[w].visible, other_than(id));
        }
    }
}

/// Filtering a list free of repeats leaves it free of repeats.
pub proof fn lemma_filter_no_dup<A>(s: Seq<A>, p: spec_fn(A) -> bool)
    requires
        s.no_duplicates(),
    ensures
        s.filter(p).no_duplicates(),
    decreases s.len(),
{
    reveal(Seq::filter);
    if s.len() > 0 {
        let s0 = s.drop_last();
        assert(s0.no_duplicates()) by {
            assert forall|i: int, j: int| 0 <= i < s0.len() && 0 <= j < s0.len() && i != j implies s0[i]
                != s0[j] by {
                assert(s0[i] == s[i] && s0[j] == s[j]);
            }
        }
        lemma_filter_no_dup(s0, p);
        if p(s.last()) {
            let f0 = s0.filter(p);
            let f = f0.push(s.last());
            assert(!f0.contains(s.last())) by {
                if f0.contains(s.last()) {
                    s0.lemma_filter_contains_rev(p, s.last());
                    let j = choose|j: int| 0 <= j < s0.len() && s0[j] == s.last();
                    assert(s[j] == s[s.len() - 1]);
                }
            }
            assert forall|i: int, j: int| 0 <= i < f.len() && 0 <= j < f.len() && i != j implies f[i]
                != f[j] by {
                if i < f0.len() && j < f0.len() {
                } else if i < f0.len() {
                    assert(f0.contains(f0[i]));
                } else {
                    assert(f0.contains(f0[j]));
                }
            }
        }
    }
}

/// Appending an id only when absent keeps a list free of repeats.
pub proof fn lemma_with_visible_no_dup(v: WorkspaceView, id: Seq<char>)
    requires
        v.visible.no_duplicates(),
    ensures
        v.with_visible(id).visible.no_duplicates(),
        v.with_visible(id).visible.contains(id),
{
    if !v.visible.contains(id) {
        let n = v.visible.push(id);
        assert(n[v.visible.len() as int] == id);
        assert forall|i: int, j: int| 0 <= i < n.len() && 0 <= j < n.len() && i != j implies n[i]
            != n[j] by {
            if i < v.visible.len() && j < v.visible.len() {
            } else if i < v.visible.len() {
                assert(v.visible[i] == n[i]);
            } else {
                assert(v.visible[j] == n[j]);
            }
        }
    }
}

} // verus!

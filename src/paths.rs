//! Where the agent keeps its transcripts: project directory names and the
//! paths derived from a working directory and a session id.

use vstd::prelude::*;
use crate::text::{push_char, push_str};
use crate::registry::{SessionEntry, SessionStatus, opt_view};

verus! {

/// A path separator on either platform.
pub open spec fn is_separator(c: char) -> bool {
    c == '/' || c == '\\'
}

/// Every separator replaced by a dash.
pub open spec fn dashed(s: Seq<char>) -> Seq<char> {
    s.map_values(|c: char| if is_separator(c) { '-' } else { c })
}

/// The directory name under which the agent stores the transcripts of a
/// working directory: separators become dashes, and a leading dash is added
/// unless the result already starts with one.
pub open spec fn project_dir_name(cwd: Seq<char>) -> Seq<char> {
    let d = dashed(cwd);
    if d.len() > 0 && d[0] == '-' {
        d
    } else {
        seq!['-'] + d
    }
}

/// Converts a working directory into the agent's project directory name,
/// for example `/Users/foo/bar` into `-Users-foo-bar`.
pub fn cwd_to_project_dir_name(cwd: &str) -> (r: String)
    ensures
        r@ == project_dir_name(cwd@),
{
    let n = cwd.unicode_len();
    let mut d = String::new();
    let mut i: usize = 0;
    while i < n
        invariant
            n == cwd@.len(),
            i <= n,
            d@ == dashed(cwd@.subrange(0, i as int)),
        decreases n - i,
    {
        let c = cwd.get_char(i);
        let out = if c == '/' || c == '\\' { '-' } else { c };
        push_char(&mut d, out);
        i = i + 1;
        assert(dashed(cwd@.subrange(0, i as int)) =~= dashed(cwd@.subrange(0, i - 1)).push(out));
    }
    assert(cwd@.subrange(0, n as int) =~= cwd@);
    if n > 0 && cwd.get_char(0) == '/' || n > 0 && cwd.get_char(0) == '\\' || n > 0 && cwd.get_char(0) == '-' {
        d
    } else {
        let mut r = String::new();
        push_char(&mut r, '-');
        r.append(d.as_str());
        assert(r@ =~= seq!['-'] + d@);
        r
    }
}

/// The agent's data directory, under the home directory.
pub const AGENT_DIR: &'static str = "\x2eclaude";

/// `part` appended to `base` as `PathBuf::push` does on Unix: an absolute
/// part replaces the base, and a separator is added between the two unless
/// the base is empty or already ends with one.
pub open spec fn join_path(base: Seq<char>, part: Seq<char>) -> Seq<char> {
    if part.len() > 0 && part[0] == '/' {
        part
    } else if base.len() == 0 || base.last() == '/' {
        base + part
    } else {
        base + seq!['/'] + part
    }
}

/// The agent's project directory for `cwd` under home directory `home`.
pub open spec fn project_path_for(home: Seq<char>, cwd: Seq<char>) -> Seq<char> {
    join_path(join_path(join_path(home, AGENT_DIR@), "projects"@), project_dir_name(cwd))
}

/// The transcript file of session `id` of `cwd` under home directory `home`.
pub open spec fn transcript_path_for(home: Seq<char>, cwd: Seq<char>, id: Seq<char>) -> Seq<char> {
    join_path(project_path_for(home, cwd), id + ".jsonl"@)
}

/// Joins two path pieces; see `join_path`.
pub fn join(base: &str, part: &str) -> (r: String)
    ensures
        r@ == join_path(base@, part@),
{
    let pn = part.unicode_len();
    let bn = base.unicode_len();
    let mut r = String::new();
    if pn > 0 && part.get_char(0) == '/' {
        push_str(&mut r, part);
    } else if bn == 0 || base.get_char(bn - 1) == '/' {
        push_str(&mut r, base);
        push_str(&mut r, part);
    } else {
        push_str(&mut r, base);
        push_char(&mut r, '/');
        push_str(&mut r, part);
    }
    r
}

/// Relies on `dirs::home_dir`: the user's home directory when one can be
/// determined from the environment, converted lossily to text.
#[verifier::external_body]
pub(crate) fn home_dir() -> (r: Option<String>) {
    dirs::home_dir().map(|p| p.to_string_lossy().to_string())
}

/// The agent's project directory for `cwd`, under home directory `home`.
pub fn project_dir_in(home: &str, cwd: &str) -> (r: String)
    ensures
        r@ == project_path_for(home@, cwd@),
{
    let agent = join(home, AGENT_DIR);
    let projects = join(agent.as_str(), "projects");
    let name = cwd_to_project_dir_name(cwd);
    join(projects.as_str(), name.as_str())
}

/// The project directory and the transcript file of session `session_id`
/// of working directory `cwd`, under home directory `home`.
pub fn project_paths_in(home: &str, cwd: &str, session_id: &str) -> (r: (String, String))
    ensures
        r.0@ == project_path_for(home@, cwd@),
        r.1@ == transcript_path_for(home@, cwd@, session_id@),
{
    let agent = join(home, AGENT_DIR);
    let projects = join(agent.as_str(), "projects");
    let name = cwd_to_project_dir_name(cwd);
    let project = join(projects.as_str(), name.as_str());
    let mut file = String::new();
    push_str(&mut file, session_id);
    push_str(&mut file, ".jsonl");
    let transcript = join(project.as_str(), file.as_str());
    (project, transcript)
}

/// The project directory and transcript file of a session under the user's
/// home directory; nothing when the home directory is unknown.
pub fn derive_project_paths(cwd: &str, session_id: &str) -> (r: Option<(String, String)>)
    ensures
        r matches Some(p) ==> exists|home: Seq<char>|
            p.0@ == project_path_for(home, cwd@) && p.1@ == transcript_path_for(
                home,
                cwd@,
                session_id@,
            ),
{
    match home_dir() {
        Some(home) => Some(project_paths_in(home.as_str(), cwd, session_id)),
        None => None,
    }
}

/// `s` is a fresh active session created at `now`, with the paths that the
/// home directory `home` gives (none without one). Its transcript path is
/// written with a plain `/` after the project directory.
pub open spec fn fresh_session(
    s: SessionEntry,
    session_id: Seq<char>,
    cwd: Seq<char>,
    preview: Option<String>,
    now: u64,
    home: Option<Seq<char>>,
) -> bool {
    &&& s.session_id@ == session_id
    &&& s.cwd@ == cwd
    &&& s.preview == preview
    &&& s.created_at == now
    &&& s.last_activity == now
    &&& s.status == SessionStatus::Active
    &&& opt_view(s.project_path) == match home {
        Some(h) => Some(project_path_for(h, cwd)),
        None => None::<Seq<char>>,
    }
    &&& opt_view(s.transcript_path) == match home {
        Some(h) => Some(project_path_for(h, cwd) + "/"@ + session_id + ".jsonl"@),
        None => None::<Seq<char>>,
    }
}

/// A new session record created at `now` under home directory `home`.
pub fn session_entry_at(
    session_id: String,
    cwd: String,
    preview: Option<String>,
    now: u64,
    home: Option<&str>,
) -> (r: SessionEntry)
    ensures
        fresh_session(
            r,
            session_id@,
            cwd@,
            preview,
            now,
            match home {
                Some(h) => Some(h@),
                None => None,
            },
        ),
{
    let (project_path, transcript_path) = match home {
        Some(h) => {
            let agent = join(h, AGENT_DIR);
            let projects = join(agent.as_str(), "projects");
            let name = cwd_to_project_dir_name(cwd.as_str());
            let project = join(projects.as_str(), name.as_str());
            let mut t = String::new();
            push_str(&mut t, project.as_str());
            push_str(&mut t, "/");
            push_str(&mut t, session_id.as_str());
            push_str(&mut t, ".jsonl");
            (Some(project), Some(t))
        },
        None => (None, None),
    };
    SessionEntry {
        session_id,
        cwd,
        preview,
        created_at: now,
        last_activity: now,
        transcript_path,
        project_path,
        status: SessionStatus::Active,
    }
}

/// A new session record stamped with the current time, with the paths under
/// the user's home directory when it is known.
pub fn create_session_entry(session_id: String, cwd: String, preview: Option<String>) -> (r: SessionEntry)
    ensures
        exists|now: u64, home: Option<Seq<char>>|
            fresh_session(r, session_id@, cwd@, preview, now, home),
{
    let now = crate::registry::now_millis();
    let home = home_dir();
    match home {
        Some(h) => session_entry_at(session_id, cwd, preview, now, Some(h.as_str())),
        None => session_entry_at(session_id, cwd, preview, now, None),
    }
}

/// The directory name always starts with exactly the dash that the path
/// gives it: one is added only when the dashed path does not start with one,
/// so a leading separator is never doubled.
pub proof fn law_single_leading_dash(cwd: Seq<char>)
    ensures
        project_dir_name(cwd).len() > 0,
        project_dir_name(cwd)[0] == '-',
        cwd.len() > 0 && (is_separator(cwd[0]) || cwd[0] == '-') ==> project_dir_name(cwd) == dashed(cwd),
        !(cwd.len() > 0 && (is_separator(cwd[0]) || cwd[0] == '-')) ==> project_dir_name(cwd) == seq!['-'] + dashed(cwd),
{
}

/// The directory that holds the bridge script: the agent's name (its data
/// directory's name without the dot) followed by `-bridge`.
pub open spec fn bridge_dir_name() -> Seq<char> {
    AGENT_DIR@.drop_first() + "-bridge"@
}

/// The bridge script inside `dir`.
pub open spec fn script_in(dir: Seq<char>) -> Seq<char> {
    join_path(join_path(dir, bridge_dir_name()), "index.ts"@)
}

/// The bridge script of a source tree rooted at `root`.
pub open spec fn source_script(root: Seq<char>) -> Seq<char> {
    script_in(join_path(root, "src"@))
}

/// Where the bridge script is looked for, in order: among the resources;
/// in a source tree rooted at the resource directory or one of its
/// ancestors; at the working directory or one of its ancestors; and last,
/// relative to the working directory.
pub open spec fn bridge_candidates(
    resource_dir: Seq<char>,
    resource_ancestors: Seq<Seq<char>>,
    cwd_ancestors: Seq<Seq<char>>,
) -> Seq<Seq<char>> {
    seq![script_in(resource_dir)] + resource_ancestors.map_values(|a: Seq<char>| source_script(a))
        + cwd_ancestors.map_values(|a: Seq<char>| source_script(a)) + seq![script_in("src"@)]
}

fn bridge_dir() -> (r: String)
    ensures
        r@ == bridge_dir_name(),
{
    proof {
        reveal_strlit("\x2eclaude");
    }
    let n = AGENT_DIR.unicode_len();
    let mut r = String::new();
    push_str(&mut r, AGENT_DIR.substring_char(1, n));
    push_str(&mut r, "-bridge");
    r
}

fn script_path(dir: &str) -> (r: String)
    ensures
        r@ == script_in(dir@),
{
    let b = bridge_dir();
    let d = join(dir, b.as_str());
    join(d.as_str(), "index.ts")
}

/// Appends the source-tree script of each root, in order.
fn push_source_scripts(out: &mut Vec<String>, roots: &Vec<String>)
    ensures
        crate::registry::ids_view(final(out)@) == crate::registry::ids_view(old(out)@)
            + crate::registry::ids_view(roots@).map_values(|a: Seq<char>| source_script(a)),
{
    let mut i: usize = 0;
    while i < roots.len()
        invariant
            i <= roots@.len(),
            crate::registry::ids_view(out@) == crate::registry::ids_view(old(out)@)
                + crate::registry::ids_view(roots@.take(i as int)).map_values(|a: Seq<char>| source_script(a)),
        decreases roots@.len() - i,
    {
        let src = join(roots[i].as_str(), "src");
        let p = script_path(src.as_str());
        let ghost before = crate::registry::ids_view(out@);
        out.push(p);
        assert(crate::registry::ids_view(roots@.take(i + 1)) =~= crate::registry::ids_view(roots@.take(i as int)).push(roots@[i as int]@));
        assert(crate::registry::ids_view(out@) =~= before.push(source_script(roots@[i as int]@)));
        i = i + 1;
    }
    assert(roots@.take(i as int) =~= roots@);
}

/// The paths at which the bridge script is looked for, in the order they
/// are tried; see `bridge_candidates`.
pub fn get_bridge_candidates(resource_dir: &str, resource_ancestors: &Vec<String>, cwd_ancestors: &Vec<String>) -> (r: Vec<String>)
    ensures
        crate::registry::ids_view(r@) == bridge_candidates(
            resource_dir@,
            crate::registry::ids_view(resource_ancestors@),
            crate::registry::ids_view(cwd_ancestors@),
        ),
{
    let mut out: Vec<String> = Vec::new();
    out.push(script_path(resource_dir));
    assert(crate::registry::ids_view(out@) =~= seq![script_in(resource_dir@)]);
    push_source_scripts(&mut out, resource_ancestors);
    push_source_scripts(&mut out, cwd_ancestors);
    let ghost before = crate::registry::ids_view(out@);
    out.push(script_path("src"));
    assert(crate::registry::ids_view(out@) =~= before.push(script_in("src"@)));
    assert(crate::registry::ids_view(out@) =~= bridge_candidates(
        resource_dir@,
        crate::registry::ids_view(resource_ancestors@),
        crate::registry::ids_view(cwd_ancestors@),
    ));
    out
}

} // verus!

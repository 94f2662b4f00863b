//! Discovery of sessions from the agent's transcript files: what the first
//! lines of a transcript say about its session, and the order in which the
//! sessions found are listed.

use vstd::prelude::*;
use vstd::seq_lib::to_multiset_insert;
use crate::json::{Json, text_of, items_of};
use crate::registry::{SessionEntry, SessionStatus};
use crate::text::{str_eq, push_str};

verus! {

/// How many lines of a transcript are read for its session's details.
pub const SCAN_LINE_LIMIT: usize = 50;

/// How many characters of the first user message make a preview.
pub const PREVIEW_CHARS: usize = 100;

/// One transcript file found in a project directory: where it is, its times,
/// and its first lines, each parsed (`None` for an empty or unreadable line).
pub struct TranscriptFile {
    pub session_id: String,
    pub path: String,
    pub created_at: u64,
    pub modified_at: u64,
    pub lines: Vec<Option<Json>>,
}

/// The working directory that a transcript line records.
pub open spec fn line_cwd(l: Option<Json>) -> Option<Seq<char>> {
    match l {
        Some(j) => text_of(j.field("cwd"@)),
        None => None,
    }
}

/// The text of the first content item of type `text` that carries one.
pub open spec fn first_text(items: Seq<Json>) -> Option<Seq<char>>
    decreases items.len(),
{
    if items.len() == 0 {
        None
    } else if text_of(items[0].field("type"@)) == Some("text"@) && text_of(
        items[0].field("text"@),
    ) is Some {
        text_of(items[0].field("text"@))
    } else {
        first_text(items.drop_first())
    }
}

/// The text that a user line offers as a preview.
pub open spec fn line_preview(l: Option<Json>) -> Option<Seq<char>> {
    match l {
        Some(j) => if text_of(j.field("type"@)) == Some("user"@) {
            match j.field("message"@) {
                Some(m) => match items_of(m.field("content"@)) {
                    Some(items) => first_text(items),
                    None => None,
                },
                None => None,
            }
        } else {
            None
        },
        None => None,
    }
}

/// The first value that `f` finds among the lines.
pub open spec fn first_found(lines: Seq<Option<Json>>, f: spec_fn(Option<Json>) -> Option<Seq<char>>) -> Option<Seq<char>>
    decreases lines.len(),
{
    if lines.len() == 0 {
        None
    } else if f(lines[0]) is Some {
        f(lines[0])
    } else {
        first_found(lines.drop_first(), f)
    }
}

/// A preview: the text cut to its first hundred characters, with `...`
/// after a cut.
pub open spec fn preview_of(t: Seq<char>) -> Seq<char> {
    if t.len() > PREVIEW_CHARS {
        t.take(PREVIEW_CHARS as int) + "..."@
    } else {
        t
    }
}

/// A path without its trailing slashes.
pub open spec fn without_trailing_slashes(s: Seq<char>) -> Seq<char>
    decreases s.len(),
{
    if s.len() > 0 && s.last() == '/' {
        without_trailing_slashes(s.drop_last())
    } else {
        s
    }
}

/// The lines that are read.
pub open spec fn scanned(lines: Seq<Option<Json>>) -> Seq<Option<Json>> {
    if lines.len() > SCAN_LINE_LIMIT {
        lines.take(SCAN_LINE_LIMIT as int)
    } else {
        lines
    }
}

/// The message of the error for a transcript of another directory.
pub open spec fn cwd_mismatch(expected: Seq<char>, actual: Seq<char>) -> Seq<char> {
    "Session cwd mismatch: expected "@ + expected + ", got "@ + actual
}

/// The directory a transcript records differs from `expected_cwd` once
/// trailing slashes are dropped.
pub open spec fn rejected(f: TranscriptFile, expected_cwd: Seq<char>) -> bool {
    match first_found(scanned(f.lines@), |l: Option<Json>| line_cwd(l)) {
        Some(c) => without_trailing_slashes(c) != without_trailing_slashes(expected_cwd),
        None => false,
    }
}

/// The sessions `kept` are what the transcripts give, in order, leaving out
/// the rejected ones.
pub open spec fn extracted(
    files: Seq<TranscriptFile>,
    expected_cwd: Seq<char>,
    project_dir: Seq<char>,
    kept: Seq<SessionEntry>,
) -> bool
    decreases files.len(),
{
    if files.len() == 0 {
        kept.len() == 0
    } else if rejected(files.last(), expected_cwd) {
        extracted(files.drop_last(), expected_cwd, project_dir, kept)
    } else {
        &&& kept.len() > 0
        &&& transcript_session(Ok(kept.last()), files.last(), expected_cwd, project_dir)
        &&& extracted(files.drop_last(), expected_cwd, project_dir, kept.drop_last())
    }
}

/// What a transcript gives: its session, unless the directory it records
/// differs from `expected_cwd` once trailing slashes are dropped.
pub open spec fn transcript_session(
    r: Result<SessionEntry, String>,
    f: TranscriptFile,
    expected_cwd: Seq<char>,
    project_dir: Seq<char>,
) -> bool {
    let lines = scanned(f.lines@);
    let cwd = first_found(lines, |l: Option<Json>| line_cwd(l));
    let text = first_found(lines, |l: Option<Json>| line_preview(l));
    match cwd {
        Some(c) if without_trailing_slashes(c) != without_trailing_slashes(expected_cwd) => {
            r matches Err(e) && e@ == cwd_mismatch(expected_cwd, c)
        },
        _ => r matches Ok(s) && {
            &&& s.session_id@ == f.session_id@
            &&& s.cwd@ == match cwd {
                Some(c) => c,
                None => expected_cwd,
            }
            &&& match text {
                Some(t) => s.preview matches Some(p) && p@ == preview_of(t),
                None => s.preview is None,
            }
            &&& s.created_at == f.created_at
            &&& s.last_activity == f.modified_at
            &&& s.transcript_path matches Some(p) && p@ == f.path@
            &&& s.project_path matches Some(p) && p@ == project_dir
            &&& s.status == SessionStatus::Active
        },
    }
}

/// The first content item's text; see `first_text`.
fn content_text(items: &Vec<Json>) -> (r: Option<String>)
    ensures
        match r {
            Some(s) => first_text(items@) == Some(s@),
            None => first_text(items@) is None,
        },
{
    let mut i: usize = 0;
    assert(items@.subrange(0, items@.len() as int) =~= items@);
    while i < items.len()
        invariant
            i <= items@.len(),
            first_text(items@) == first_text(items@.subrange(i as int, items@.len() as int)),
        decreases items@.len() - i,
    {
        let ghost rest = items@.subrange(i as int, items@.len() as int);
        assert(rest[0] == items@[i as int]);
        assert(rest.drop_first() =~= items@.subrange(i + 1, items@.len() as int));
        let item = &items[i];
        let is_text = match item.get("type") {
            Some(t) => match t.as_str() {
                Some(s) => str_eq(s, "text"),
                None => false,
            },
            None => false,
        };
        if is_text {
            match item.str_field("text") {
                Some(s) => {
                    return Some(s);
                },
                None => {},
            }
        }
        i = i + 1;
    }
    None
}

/// The working directory a line records; see `line_cwd`.
fn cwd_of_line(l: &Option<Json>) -> (r: Option<String>)
    ensures
        match r {
            Some(s) => line_cwd(*l) == Some(s@),
            None => line_cwd(*l) is None,
        },
{
    match l {
        Some(j) => j.str_field("cwd"),
        None => None,
    }
}

/// The preview text a line offers; see `line_preview`.
fn preview_of_line(l: &Option<Json>) -> (r: Option<String>)
    ensures
        match r {
            Some(s) => line_preview(*l) == Some(s@),
            None => line_preview(*l) is None,
        },
{
    match l {
        Some(j) => {
            let is_user = match j.get("type") {
                Some(t) => match t.as_str() {
                    Some(s) => str_eq(s, "user"),
                    None => false,
                },
                None => false,
            };
            if !is_user {
                return None;
            }
            match j.get("message") {
                Some(m) => match m.get("content") {
                    Some(Json::Array(items)) => content_text(items),
                    _ => None,
                },
                None => None,
            }
        },
        None => None,
    }
}

/// Cuts a text down to a preview; see `preview_of`.
pub fn make_preview(t: &str) -> (r: String)
    ensures
        r@ == preview_of(t@),
{
    let n = t.unicode_len();
    if n > PREVIEW_CHARS {
        let mut r = String::new();
        push_str(&mut r, t.substring_char(0, PREVIEW_CHARS));
        push_str(&mut r, "...");
        r
    } else {
        t.to_string()
    }
}

/// Drops the trailing slashes of a path.
pub fn trim_trailing_slashes(s: &str) -> (r: &str)
    ensures
        r@ == without_trailing_slashes(s@),
{
    let mut end = s.unicode_len();
    assert(s@.subrange(0, end as int) =~= s@);
    while end > 0 && s.get_char(end - 1) == '/'
        invariant
            end <= s@.len(),
            without_trailing_slashes(s@) == without_trailing_slashes(s@.subrange(0, end as int)),
        decreases end,
    {
        assert(s@.subrange(0, end as int).drop_last() =~= s@.subrange(0, end - 1));
        end = end - 1;
    }
    s.substring_char(0, end)
}

/// The first value found among the first `n` lines is the first found among
/// the first `n + 1` when there is one, else what line `n` gives.
proof fn lemma_first_found_step(lines: Seq<Option<Json>>, f: spec_fn(Option<Json>) -> Option<Seq<char>>, n: int)
    requires
        0 <= n < lines.len(),
    ensures
        first_found(lines.take(n + 1), f) == if first_found(lines.take(n), f) is Some {
            first_found(lines.take(n), f)
        } else {
            f(lines[n])
        },
    decreases n,
{
    if n > 0 {
        lemma_first_found_step(lines.drop_first(), f, n - 1);
        assert(lines.take(n + 1).drop_first() =~= lines.drop_first().take(n));
        assert(lines.take(n).drop_first() =~= lines.drop_first().take(n - 1));
        assert(lines.take(n + 1)[0] == lines[0]);
        assert(lines.take(n)[0] == lines[0]);
        assert(lines.drop_first()[n - 1] == lines[n]);
        if f(lines[0]) is None {
            assert(first_found(lines.take(n + 1), f) == first_found(lines.drop_first().take(n), f));
            assert(first_found(lines.take(n), f) == first_found(lines.drop_first().take(n - 1), f));
        } else {
            assert(first_found(lines.take(n + 1), f) == f(lines[0]));
            assert(first_found(lines.take(n), f) == f(lines[0]));
        }
    } else {
        assert(lines.take(1).drop_first() =~= Seq::<Option<Json>>::empty());
        assert(lines.take(1)[0] == lines[0]);
        assert(first_found(lines.take(1).drop_first(), f) is None);
        assert(first_found(lines.take(0), f) is None);
    }
}

/// The session that a transcript describes, checked against the working
/// directory `expected_cwd` of the workspace scanned.
pub fn extract_session(f: &TranscriptFile, expected_cwd: &str, project_dir: &str) -> (r: Result<SessionEntry, String>)
    ensures
        transcript_session(r, *f, expected_cwd@, project_dir@),
{
    let ghost fc = |l: Option<Json>| line_cwd(l);
    let ghost fp = |l: Option<Json>| line_preview(l);
    let ghost lines = scanned(f.lines@);
    let n = if f.lines.len() > SCAN_LINE_LIMIT {
        SCAN_LINE_LIMIT
    } else {
        f.lines.len()
    };
    assert(lines =~= f.lines@.take(n as int));
    let mut cwd: Option<String> = None;
    let mut text: Option<String> = None;
    let mut i: usize = 0;
    assert(f.lines@.take(0) =~= Seq::<Option<Json>>::empty());
    while i < n
        invariant
            n <= f.lines@.len(),
            i <= n,
            lines == f.lines@.take(n as int),
            fc == (|l: Option<Json>| line_cwd(l)),
            fp == (|l: Option<Json>| line_preview(l)),
            match cwd {
                Some(c) => first_found(f.lines@.take(i as int), fc) == Some(c@),
                None => first_found(f.lines@.take(i as int), fc) is None,
            },
            match text {
                Some(t) => first_found(f.lines@.take(i as int), fp) == Some(t@),
                None => first_found(f.lines@.take(i as int), fp) is None,
            },
        decreases n - i,
    {
        proof {
            lemma_first_found_step(f.lines@, fc, i as int);
            lemma_first_found_step(f.lines@, fp, i as int);
        }
        if cwd.is_none() {
            cwd = cwd_of_line(&f.lines[i]);
        }
        if text.is_none() {
            text = preview_of_line(&f.lines[i]);
        }
        i = i + 1;
    }
    let preview = match &text {
        Some(t) => Some(make_preview(t.as_str())),
        None => None,
    };
    match &cwd {
        Some(c) => {
            if !str_eq(trim_trailing_slashes(expected_cwd), trim_trailing_slashes(c.as_str())) {
                let mut e = String::new();
                push_str(&mut e, "Session cwd mismatch: expected ");
                push_str(&mut e, expected_cwd);
                push_str(&mut e, ", got ");
                push_str(&mut e, c.as_str());
                return Err(e);
            }
        },
        None => {},
    }
    let cwd = match cwd {
        Some(c) => c,
        None => expected_cwd.to_string(),
    };
    Ok(
        SessionEntry {
            session_id: f.session_id.clone(),
            cwd,
            preview,
            created_at: f.created_at,
            last_activity: f.modified_at,
            transcript_path: Some(f.path.clone()),
            project_path: Some(project_dir.to_string()),
            status: SessionStatus::Active,
        },
    )
}

/// Ordered from the most recent activity to the oldest.
pub open spec fn most_recent_first(s: Seq<SessionEntry>) -> bool {
    forall|i: int, j: int| 0 <= i < j < s.len() ==> s[i].last_activity >= s[j].last_activity
}

/// Puts `e` into a list ordered most recent first, after every entry at
/// least as recent.
fn insert_by_recency(out: &mut Vec<SessionEntry>, e: SessionEntry)
    requires
        most_recent_first(old(out)@),
    ensures
        most_recent_first(final(out)@),
        final(out)@.to_multiset() == old(out)@.to_multiset().insert(e),
{
    let mut p: usize = 0;
    while p < out.len() && out[p].last_activity >= e.last_activity
        invariant
            p <= out@.len(),
            forall|k: int| 0 <= k < p ==> out@[k].last_activity >= e.last_activity,
        decreases out@.len() - p,
    {
        p = p + 1;
    }
    let ghost before = out@;
    proof {
        to_multiset_insert(before, p as int, e);
    }
    out.insert(p, e);
    assert forall|i: int, j: int| 0 <= i < j < out@.len() implies out@[i].last_activity
        >= out@[j].last_activity by {
        if i < p && j == p {
        } else if j == p {
        } else if i == p {
            assert(out@[j] == before[j - 1]);
            if p < before.len() {
                assert(before[p as int].last_activity < e.last_activity);
                assert(before[p as int].last_activity >= before[j - 1].last_activity || j - 1 == p);
            }
        } else {
            let a = if i < p { i } else { i - 1 };
            let b = if j < p { j } else { j - 1 };
            assert(out@[i] == before[a] && out@[j] == before[b]);
        }
    }
}

/// The sessions listed most recent first.
pub fn sort_by_recency(v: Vec<SessionEntry>) -> (r: Vec<SessionEntry>)
    ensures
        most_recent_first(r@),
        r@.to_multiset() == v@.to_multiset(),
{
    let mut out: Vec<SessionEntry> = Vec::new();
    let mut i: usize = 0;
    proof {
        v@.take(0).to_multiset_ensures();
        assert(v@.take(0) =~= Seq::<SessionEntry>::empty());
        out@.to_multiset_ensures();
        assert(out@.to_multiset() =~= v@.take(0).to_multiset());
    }
    while i < v.len()
        invariant
            i <= v@.len(),
            most_recent_first(out@),
            out@.to_multiset() == v@.take(i as int).to_multiset(),
        decreases v@.len() - i,
    {
        proof {
            assert(v@.take(i + 1) =~= v@.take(i as int).push(v@[i as int]));
            v@.take(i as int).to_multiset_ensures();
        }
        insert_by_recency(&mut out, v[i].duplicate());
        i = i + 1;
    }
    assert(v@.take(i as int) =~= v@);
    out
}

/// The sessions found in the transcripts of one project directory for
/// working directory `cwd`: those recorded for another directory are left
/// out, and the rest are listed most recent first.
pub fn scan_project_sessions(cwd: &str, project_dir: &str, files: &Vec<TranscriptFile>) -> (r: Vec<SessionEntry>)
    ensures
        most_recent_first(r@),
        exists|kept: Seq<SessionEntry>|
            extracted(files@, cwd@, project_dir@, kept) && kept.to_multiset() == r@.to_multiset(),
{
    let mut kept: Vec<SessionEntry> = Vec::new();
    let mut i: usize = 0;
    assert(files@.take(0) =~= Seq::<TranscriptFile>::empty());
    while i < files.len()
        invariant
            i <= files@.len(),
            extracted(files@.take(i as int), cwd@, project_dir@, kept@),
        decreases files@.len() - i,
    {
        let ghost before = kept@;
        proof {
            assert(files@.take(i + 1).drop_last() =~= files@.take(i as int));
            assert(files@.take(i + 1).last() == files@[i as int]);
        }
        match extract_session(&files[i], cwd, project_dir) {
            Ok(s) => {
                kept.push(s);
                assert(kept@.drop_last() =~= before);
            },
            Err(_) => {},
        }
        i = i + 1;
    }
    assert(files@.take(i as int) =~= files@);
    sort_by_recency(kept)
}

} // verus!

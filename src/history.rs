//! A session's conversation, read back from its transcript: the user and
//! assistant messages in order, and a preview.

use vstd::prelude::*;
use crate::json::{Json, text_of, items_of};
use crate::router::text_or;
use crate::text::{push_char, push_str, str_eq};

verus! {

/// The texts of the content items of type `text` that are not empty.
pub open spec fn content_texts(items: Seq<Json>) -> Seq<Seq<char>>
    decreases items.len(),
{
    if items.len() == 0 {
        Seq::empty()
    } else {
        let rest = content_texts(items.drop_last());
        let it = items.last();
        if text_of(it.field("type"@)) == Some("text"@) && text_of(it.field("text"@)) is Some
            && text_of(it.field("text"@))->0.len() > 0 {
            rest.push(text_of(it.field("text"@))->0)
        } else {
            rest
        }
    }
}

/// The parts joined with line breaks.
pub open spec fn joined_by_newline(parts: Seq<Seq<char>>) -> Seq<char>
    decreases parts.len(),
{
    if parts.len() == 0 {
        Seq::empty()
    } else if parts.len() == 1 {
        parts[0]
    } else {
        joined_by_newline(parts.drop_last()) + seq!['\n'] + parts.last()
    }
}

/// The text of a message: its text content items joined by line breaks when
/// it has a content array, else its `text`, else nothing.
pub open spec fn message_text(m: Json) -> Seq<char> {
    match items_of(m.field("content"@)) {
        Some(items) => joined_by_newline(content_texts(items)),
        None => match text_of(m.field("text"@)) {
            Some(t) => t,
            None => Seq::empty(),
        },
    }
}

/// The decimal digit of `d`.
pub open spec fn digit_char(d: nat) -> char {
    if d == 0 { '0' } else if d == 1 { '1' } else if d == 2 { '2' } else if d == 3 { '3' } else if d
        == 4 { '4' } else if d == 5 { '5' } else if d == 6 { '6' } else if d == 7 { '7' } else if d
        == 8 { '8' } else { '9' }
}

/// `n` written in decimal.
pub open spec fn decimal(n: nat) -> Seq<char>
    decreases n,
{
    if n < 10 {
        seq![digit_char(n)]
    } else {
        decimal(n / 10).push(digit_char(n % 10))
    }
}

/// One message of the history: its id, its role and its text.
pub struct HistoryLine {
    pub id: Seq<char>,
    pub role: Seq<char>,
    pub text: Seq<char>,
}

/// What line `index` of a transcript contributes: a user or assistant entry
/// with a non-empty text. Its id is the entry's `uuid`, else the session id
/// and the line's index.
pub open spec fn line_item(l: Option<Json>, session_id: Seq<char>, index: nat) -> Option<HistoryLine> {
    match l {
        None => None,
        Some(j) => {
            let ty = text_or(j, "type"@, Seq::empty());
            if ty != "user"@ && ty != "assistant"@ {
                None
            } else {
                let m = match j.field("message"@) {
                    Some(m) => m,
                    None => j,
                };
                let t = message_text(m);
                if t.len() == 0 {
                    None
                } else {
                    Some(
                        HistoryLine {
                            id: match text_of(j.field("uuid"@)) {
                                Some(u) => u,
                                None => session_id + ":"@ + decimal(index),
                            },
                            role: if ty == "assistant"@ {
                                "assistant"@
                            } else {
                                "user"@
                            },
                            text: t,
                        },
                    )
                }
            }
        },
    }
}

/// The messages of a transcript, in order.
pub open spec fn history_lines(lines: Seq<Option<Json>>, session_id: Seq<char>) -> Seq<HistoryLine>
    decreases lines.len(),
{
    if lines.len() == 0 {
        Seq::empty()
    } else {
        let rest = history_lines(lines.drop_last(), session_id);
        match line_item(lines.last(), session_id, (lines.len() - 1) as nat) {
            Some(x) => rest.push(x),
            None => rest,
        }
    }
}

/// The text of the first message by the user, if any.
pub open spec fn first_user_text(h: Seq<HistoryLine>) -> Option<Seq<char>>
    decreases h.len(),
{
    if h.len() == 0 {
        None
    } else if h[0].role == "user"@ {
        Some(h[0].text)
    } else {
        first_user_text(h.drop_first())
    }
}

/// The preview of a history: the first user message, else the first message.
pub open spec fn history_preview(h: Seq<HistoryLine>) -> Option<Seq<char>> {
    match first_user_text(h) {
        Some(t) => Some(t),
        None => if h.len() > 0 {
            Some(h[0].text)
        } else {
            None
        },
    }
}

/// `j` is the item shown for message `x`.
pub open spec fn item_for(j: Json, x: HistoryLine) -> bool {
    &&& j is Object
    &&& j->Object_0@.len() == 4
    &&& j->Object_0@[0].0@ == "id"@ && text_of(Some(j->Object_0@[0].1)) == Some(x.id)
    &&& j->Object_0@[1].0@ == "kind"@ && text_of(Some(j->Object_0@[1].1)) == Some("message"@)
    &&& j->Object_0@[2].0@ == "role"@ && text_of(Some(j->Object_0@[2].1)) == Some(x.role)
    &&& j->Object_0@[3].0@ == "text"@ && text_of(Some(j->Object_0@[3].1)) == Some(x.text)
}

/// A session's conversation as shown to the user.
pub struct SessionHistory {
    pub items: Vec<Json>,
    pub preview: Option<String>,
    pub last_activity: u64,
}

/// `n` in decimal.
pub fn decimal_string(n: usize) -> (r: String)
    ensures
        r@ == decimal(n as nat),
    decreases n,
{
    let d = n % 10;
    let c = if d == 0 { '0' } else if d == 1 { '1' } else if d == 2 { '2' } else if d == 3 { '3' } else if d
        == 4 { '4' } else if d == 5 { '5' } else if d == 6 { '6' } else if d == 7 { '7' } else if d
        == 8 { '8' } else { '9' };
    if n < 10 {
        let mut r = String::new();
        push_char(&mut r, c);
        r
    } else {
        let mut r = decimal_string(n / 10);
        push_char(&mut r, c);
        r
    }
}

/// The text of a message; see `message_text`.
pub fn extract_text_from_message(message: &Json) -> (r: String)
    ensures
        r@ == message_text(*message),
{
    match message.get("content") {
        Some(Json::Array(items)) => {
            let mut out = String::new();
            let ghost mut parts: Seq<Seq<char>> = Seq::empty();
            let mut has_part = false;
            let mut i: usize = 0;
            assert(items@.take(0) =~= Seq::<Json>::empty());
            while i < items.len()
                invariant
                    i <= items@.len(),
                    parts == content_texts(items@.take(i as int)),
                    out@ == joined_by_newline(parts),
                    has_part == (parts.len() > 0),
                decreases items@.len() - i,
            {
                assert(items@.take(i + 1).drop_last() =~= items@.take(i as int));
                assert(items@.take(i + 1).last() == items@[i as int]);
                let item = &items[i];
                let is_text = match item.get("type") {
                    Some(t) => match t.as_str() {
                        Some(s) => str_eq(s, "text"),
                        None => false,
                    },
                    None => false,
                };
                if is_text {
                    match item.get("text") {
                        Some(v) => match v.as_str() {
                            Some(t) => {
                                if t.unicode_len() > 0 {
                                    if has_part {
                                        push_char(&mut out, '\n');
                                    }
                                    push_str(&mut out, t);
                                    has_part = true;
                                    proof {
                                        parts = parts.push(t@);
                                        assert(parts.drop_last() =~= content_texts(items@.take(i as int)));
                                    }
                                }
                            },
                            None => {},
                        },
                        None => {},
                    }
                }
                i = i + 1;
            }
            assert(items@.take(i as int) =~= items@);
            out
        },
        _ => match message.str_field("text") {
            Some(t) => t,
            None => String::new(),
        },
    }
}

/// The shown item of a message.
fn history_item(id: String, role: &str, text: String) -> (r: Json)
    ensures
        item_for(r, HistoryLine { id: id@, role: role@, text: text@ }),
{
    let mut m: Vec<(String, Json)> = Vec::new();
    m.push(("id".to_string(), Json::Str(id)));
    m.push(("kind".to_string(), Json::Str("message".to_string())));
    m.push(("role".to_string(), Json::Str(role.to_string())));
    m.push(("text".to_string(), Json::Str(text)));
    Json::Object(m)
}

/// The conversation of session `session_id` from the lines of its
/// transcript, each parsed (`None` for an empty or unreadable line), and the
/// transcript's modification time.
pub fn parse_session_history(session_id: &str, lines: &Vec<Option<Json>>, last_activity: u64) -> (r: SessionHistory)
    ensures
        r.items@.len() == history_lines(lines@, session_id@).len(),
        forall|i: int| 0 <= i < r.items@.len() ==> item_for(
            #[trigger] r.items@[i],
            history_lines(lines@, session_id@)[i],
        ),
        match r.preview {
            Some(p) => history_preview(history_lines(lines@, session_id@)) == Some(p@),
            None => history_preview(history_lines(lines@, session_id@)) is None,
        },
        r.last_activity == last_activity,
{
    proof {
        reveal_strlit("");
        assert(""@ =~= Seq::<char>::empty());
    }
    let mut items: Vec<Json> = Vec::new();
    let mut first_user: Option<String> = None;
    let mut first_any: Option<String> = None;
    let ghost mut h: Seq<HistoryLine> = Seq::empty();
    let mut i: usize = 0;
    assert(lines@.take(0) =~= Seq::<Option<Json>>::empty());
    while i < lines.len()
        invariant
            i <= lines@.len(),
            h == history_lines(lines@.take(i as int), session_id@),
            items@.len() == h.len(),
            forall|k: int| 0 <= k < items@.len() ==> item_for(#[trigger] items@[k], h[k]),
            match first_user {
                Some(p) => first_user_text(h) == Some(p@),
                None => first_user_text(h) is None,
            },
            match first_any {
                Some(p) => h.len() > 0 && h[0].text == p@,
                None => h.len() == 0,
            },
        decreases lines@.len() - i,
    {
        assert(lines@.take(i + 1).drop_last() =~= lines@.take(i as int));
        assert(lines@.take(i + 1).last() == lines@[i as int]);
        assert(lines@.take(i + 1).len() - 1 == i);
        match &lines[i] {
            None => {},
            Some(entry) => {
                let ty = match entry.str_field("type") {
                    Some(t) => t,
                    None => String::new(),
                };
                let is_user = str_eq(ty.as_str(), "user");
                let is_assistant = str_eq(ty.as_str(), "assistant");
                if is_user || is_assistant {
                    let text = match entry.get("message") {
                        Some(m) => extract_text_from_message(m),
                        None => extract_text_from_message(entry),
                    };
                    if text.unicode_len() > 0 {
                        let id = match entry.str_field("uuid") {
                            Some(u) => u,
                            None => {
                                let mut s = String::new();
                                push_str(&mut s, session_id);
                                push_char(&mut s, ':');
                                let digits = decimal_string(i);
                                push_str(&mut s, digits.as_str());
                                assert(s@ =~= session_id@ + ":"@ + decimal(i as nat)) by {
                                    reveal_strlit(":");
                                }
                                s
                            },
                        };
                        let role = if is_assistant { "assistant" } else { "user" };
                        let ghost x = HistoryLine { id: id@, role: role@, text: text@ };
                        proof {
                            assert(line_item(lines@[i as int], session_id@, i as nat) == Some(x));
                            lemma_first_user_push(h, x);
                        }
                        if first_any.is_none() {
                            first_any = Some(text.clone());
                        }
                        if first_user.is_none() && is_user {
                            first_user = Some(text.clone());
                        }
                        items.push(history_item(id, role, text));
                        proof {
                            h = h.push(x);
                        }
                    }
                }
            },
        }
        i = i + 1;
    }
    assert(lines@.take(i as int) =~= lines@);
    let preview = match first_user {
        Some(p) => Some(p),
        None => first_any,
    };
    SessionHistory { items, preview, last_activity }
}

/// Appending a message keeps the first user text if there was one, and
/// otherwise takes the new one when it is the user's.
proof fn lemma_first_user_push(h: Seq<HistoryLine>, x: HistoryLine)
    ensures
        first_user_text(h.push(x)) == if first_user_text(h) is Some {
            first_user_text(h)
        } else if x.role == "user"@ {
            Some(x.text)
        } else {
            None
        },
    decreases h.len(),
{
    if h.len() > 0 {
        lemma_first_user_push(h.drop_first(), x);
        assert(h.push(x).drop_first() =~= h.drop_first().push(x));
        assert(h.push(x)[0] == h[0]);
    } else {
        assert(h.push(x).drop_first() =~= Seq::<HistoryLine>::empty());
        assert(h.push(x)[0] == x);
        assert(first_user_text(Seq::<HistoryLine>::empty()) is None);
    }
}

} // verus!

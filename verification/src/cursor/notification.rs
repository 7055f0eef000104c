//! The notices that a background task has ended.
use crate::claude::xml::{extract_xml_tag, tag_text};
use crate::text::{
    capitalize, capitalized, chars_of, concat3, find_from, first_at, next_char, pass_char, same_text,
    seek_char, skip_char, starts, starts_with, string_of_range, trim, trim_end, trim_start, trimmed,
    trimmed_end, trimmed_start,
};
use crate::tree::text_opt;
use vstd::hash_map::StringHashMap;
use vstd::prelude::*;

verus! {

broadcast use vstd::string::group_string_axioms;

/// A notice that a background task has ended.
#[derive(Debug, PartialEq)]
pub struct TaskNotification {
    /// The id of the background call that started the task.
    pub task_id: Option<String>,
    pub title: String,
    /// How the task ended, in words.
    pub label: String,
    pub is_error: bool,
    pub detail: Option<String>,
    /// What follows the header lines.
    pub body: String,
}

/// What a `TaskNotification` holds.
#[verifier::ext_equal]
pub struct NotificationModel {
    pub task_id: Option<Seq<char>>,
    pub title: Seq<char>,
    pub label: Seq<char>,
    pub is_error: bool,
    pub detail: Option<Seq<char>>,
    pub body: Seq<char>,
}

impl View for TaskNotification {
    type V = NotificationModel;

    open spec fn view(&self) -> NotificationModel {
        NotificationModel {
            task_id: text_opt(self.task_id),
            title: self.title@,
            label: self.label@,
            is_error: self.is_error,
            detail: text_opt(self.detail),
            body: self.body@,
        }
    }
}

/// The words that may stand before the colon of a header line.
pub open spec fn header_key(k: Seq<char>) -> bool {
    k == "kind"@ || k == "status"@ || k == "task_id"@ || k == "title"@ || k == "detail"@
}

/// Where the line that starts at `pos` ends, its line feed included.
pub open spec fn line_end(s: Seq<char>, pos: int) -> int {
    let nl = next_char(s, '\n', pos);
    if nl < s.len() {
        nl + 1
    } else {
        s.len() as int
    }
}

/// The key and value of a header line.
pub open spec fn header_line(line: Seq<char>) -> Option<(Seq<char>, Seq<char>)> {
    let l = trimmed_end(line);
    match first_at(l, ": "@, 0) {
        Some(i) => if header_key(l.take(i)) {
            Some((l.take(i), trimmed(l.skip(i + 2))))
        } else {
            None
        },
        None => None,
    }
}

/// The header lines from `pos` on, the last of equal keys kept, and where they end.
pub open spec fn headers(s: Seq<char>, pos: int, found: Map<Seq<char>, Seq<char>>) -> (
    Map<Seq<char>, Seq<char>>,
    int,
)
    decreases s.len() - pos,
    when 0 <= pos <= s.len()
    via headers_decreases
{
    if pos >= s.len() {
        (found, pos)
    } else {
        let end = line_end(s, pos);
        match header_line(s.subrange(pos, end)) {
            Some((k, v)) => headers(s, end, found.insert(k, v)),
            None => (found, pos),
        }
    }
}

proof fn lemma_line_end(s: Seq<char>, pos: int)
    requires
        0 <= pos < s.len(),
    ensures
        pos < line_end(s, pos) <= s.len(),
    decreases s.len() - pos,
{
    lemma_next_char_bound(s, pos);
}

proof fn lemma_next_char_bound(s: Seq<char>, pos: int)
    requires
        0 <= pos <= s.len(),
    ensures
        pos <= next_char(s, '\n', pos) <= s.len(),
    decreases s.len() - pos,
{
    if pos < s.len() && s[pos] != '\n' {
        lemma_next_char_bound(s, pos + 1);
    }
}

#[via_fn]
proof fn headers_decreases(s: Seq<char>, pos: int, found: Map<Seq<char>, Seq<char>>) {
    if pos < s.len() {
        lemma_line_end(s, pos);
    }
}

/// The words for a status.
pub open spec fn status_label(status: Seq<char>) -> Seq<char> {
    if status == "success"@ || status == "completed"@ {
        "Completed"@
    } else if status == "error"@ || status == "failure"@ || status == "failed"@ {
        "Failed"@
    } else if status == "cancelled"@ || status == "canceled"@ || status == "aborted"@ {
        "Cancelled"@
    } else if status == ""@ {
        "Finished"@
    } else {
        capitalized(status)
    }
}

/// The value of a header that is there.
pub open spec fn header(fields: Map<Seq<char>, Seq<char>>, key: Seq<char>) -> Option<Seq<char>> {
    if fields.contains_key(key) {
        Some(fields[key])
    } else {
        None
    }
}

/// A text that is not empty.
pub open spec fn filled(s: Option<Seq<char>>) -> Option<Seq<char>> {
    match s {
        Some(t) => if t.len() == 0 {
            None
        } else {
            Some(t)
        },
        None => None,
    }
}

/// The notice that the content of a `<task>` element is; it needs a title.
pub open spec fn task_notice(task: Seq<char>) -> Option<NotificationModel> {
    let (fields, end) = headers(task, 0, Map::empty());
    match filled(header(fields, "title"@)) {
        Some(title) => {
            let status = match header(fields, "status"@) {
                Some(s) => s,
                None => ""@,
            };
            let label = status_label(status);
            Some(
                NotificationModel {
                    task_id: header(fields, "task_id"@),
                    title,
                    label,
                    is_error: label == "Failed"@,
                    detail: filled(header(fields, "detail"@)),
                    body: trimmed(task.skip(end)),
                },
            )
        },
        None => None,
    }
}

/// The notice that a message is.
pub open spec fn notice(text: Seq<char>) -> Option<NotificationModel> {
    let t = trimmed_start(text);
    if starts(t, "<system_notification>"@) {
        match tag_text(t, "task"@) {
            Some(task) => task_notice(skip_char(task, '\n')),
            None => None,
        }
    } else {
        None
    }
}

fn is_header_key(k: &str) -> (r: bool)
    ensures
        r == header_key(k@),
{
    same_text(k, "kind") || same_text(k, "status") || same_text(k, "task_id") || same_text(
        k,
        "title",
    ) || same_text(k, "detail")
}

fn split_header(line: &str) -> (r: Option<(String, String)>)
    ensures
        match r {
            Some((k, v)) => header_line(line@) == Some((k@, v@)),
            None => header_line(line@) is None,
        },
{
    proof {
        reveal_strlit(": ");
    }
    let l = chars_of(trim_end(line).as_str());
    let colon = chars_of(": ");
    match find_from(&l, &colon, 0) {
        Some(i) => {
            let k = string_of_range(&l, 0, i);
            assert(l@.subrange(0, i as int) =~= l@.take(i as int));
            if is_header_key(k.as_str()) {
                let v = string_of_range(&l, i + 2, l.len());
                assert(l@.subrange(i + 2, l@.len() as int) =~= l@.skip(i + 2));
                Some((k, trim(v.as_str())))
            } else {
                None
            }
        },
        None => None,
    }
}

fn label_of(status: &str) -> (r: String)
    ensures
        r@ == status_label(status@),
{
    if same_text(status, "success") || same_text(status, "completed") {
        "Completed".to_owned()
    } else if same_text(status, "error") || same_text(status, "failure") || same_text(
        status,
        "failed",
    ) {
        "Failed".to_owned()
    } else if same_text(status, "cancelled") || same_text(status, "canceled") || same_text(
        status,
        "aborted",
    ) {
        "Cancelled".to_owned()
    } else if same_text(status, "") {
        "Finished".to_owned()
    } else {
        capitalize(status)
    }
}

/// The views of the values of a map.
pub open spec fn values_of(m: Map<Seq<char>, String>) -> Map<Seq<char>, Seq<char>> {
    Map::new(|k: Seq<char>| m.contains_key(k), |k: Seq<char>| m[k]@)
}

fn copy_header(fields: &StringHashMap<String>, key: &str) -> (r: Option<String>)
    ensures
        text_opt(r) == header(values_of(fields@), key@),
{
    match fields.get(key) {
        Some(v) => Some(v.clone()),
        None => None,
    }
}

fn keep_filled(s: Option<String>) -> (r: Option<String>)
    ensures
        text_opt(r) == filled(text_opt(s)),
{
    match s {
        Some(t) => {
            if t.as_str().is_empty() {
                None
            } else {
                Some(t)
            }
        },
        None => None,
    }
}

fn parse_task(task: &str) -> (r: Option<TaskNotification>)
    ensures
        match r {
            Some(n) => task_notice(task@) == Some(n@),
            None => task_notice(task@) is None,
        },
{
    let v = chars_of(task);
    let mut fields: StringHashMap<String> = StringHashMap::new();
    let mut pos: usize = 0;
    assert(values_of(fields@) =~= Map::<Seq<char>, Seq<char>>::empty());
    let ghost goal = headers(v@, 0, Map::empty());
    let mut done = false;
    while !done && pos < v.len()
        invariant
            pos <= v@.len(),
            !done ==> goal == headers(v@, pos as int, values_of(fields@)),
            done ==> goal == (values_of(fields@), pos as int),
        decreases v@.len() - pos + if done { 0int } else { 1int },
    {
        proof {
            lemma_line_end(v@, pos as int);
        }
        let nl: usize = seek_char(&v, '\n', pos);
        let end: usize = if nl < v.len() {
            nl + 1
        } else {
            v.len()
        };
        let line = string_of_range(&v, pos, end);
        match split_header(line.as_str()) {
            Some((k, value)) => {
                let ghost before = fields@;
                fields.insert(k, value);
                assert(values_of(fields@) =~= values_of(before).insert(k@, value@));
                pos = end;
            },
            None => {
                done = true;
            },
        }
    }
    let title = match keep_filled(copy_header(&fields, "title")) {
        Some(t) => t,
        None => {
            return None;
        },
    };
    let status = match copy_header(&fields, "status") {
        Some(s) => s,
        None => "".to_owned(),
    };
    let label = label_of(status.as_str());
    let is_error = same_text(label.as_str(), "Failed");
    let rest = string_of_range(&v, pos, v.len());
    assert(v@.subrange(pos as int, v@.len() as int) =~= v@.skip(pos as int));
    Some(
        TaskNotification {
            task_id: copy_header(&fields, "task_id"),
            title,
            label,
            is_error,
            detail: keep_filled(copy_header(&fields, "detail")),
            body: trim(rest.as_str()),
        },
    )
}

impl TaskNotification {
    /// The notice that a message is; `None` where it is none, or one without a title.
    pub fn parse(text: &str) -> (r: Option<TaskNotification>)
        ensures
            match r {
                Some(n) => notice(text@) == Some(n@),
                None => notice(text@) is None,
            },
    {
        let t = trim_start(text);
        if !starts_with(t.as_str(), "<system_notification>") {
            return None;
        }
        match extract_xml_tag(t.as_str(), "task") {
            Some(task) => {
                let v = chars_of(task.as_str());
                let a: usize = pass_char(&v, 0, v.len(), '\n');
                assert(v@.subrange(0, v@.len() as int) =~= v@);
                let content = string_of_range(&v, a, v.len());
                parse_task(content.as_str())
            },
            None => None,
        }
    }

    /// One line that tells how the task ended.
    pub fn summary(&self) -> (r: String)
        ensures
            r@ == self@.label + ": "@ + self@.title,
    {
        concat3(self.label.as_str(), ": ", self.title.as_str())
    }
}

} // verus!

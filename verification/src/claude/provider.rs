//! Where transcripts are and what the picker shows of them.
use crate::providers::{EntryModel, Moment, ProviderKind, ProviderNames, TranscriptEntry};
use crate::text::{
    chars_of, concat2, concat3, find_last, join, joined, last_at, name_in_path, path_name,
    same_text, starts, starts_with, string_of_range, views,
};
use crate::tree::text_opt;
use vstd::prelude::*;

verus! {

broadcast use vstd::string::group_string_axioms;

/// The provider of transcripts that are files of one entry per line.
pub struct ClaudeProvider;

/// Whether a directory name keeps a character.
pub open spec fn kept_in_name(c: char) -> bool {
    'a' <= c <= 'z' || 'A' <= c <= 'Z' || '0' <= c <= '9' || c == '-'
}

/// A path as a directory name: what is no ASCII letter, digit or dash becomes a dash.
pub open spec fn encoded(path: Seq<char>) -> Seq<char> {
    path.map_values(
        |c: char|
            if kept_in_name(c) {
                c
            } else {
                '-'
            },
    )
}

/// A path as a directory name.
pub fn encode_workspace(path: &str) -> (r: String)
    ensures
        r@ == encoded(path@),
{
    let v = chars_of(path);
    let mut out = String::new();
    let mut i: usize = 0;
    assert(out@ =~= encoded(v@.take(0)));
    while i < v.len()
        invariant
            i <= v@.len(),
            out@ == encoded(v@.take(i as int)),
        decreases v@.len() - i,
    {
        let c: char = v[i];
        let keep = ('a' <= c && c <= 'z') || ('A' <= c && c <= 'Z') || ('0' <= c && c <= '9') || c
            == '-';
        let ghost before = out@;
        out.push(
            if keep {
                c
            } else {
                '-'
            },
        );
        assert(encoded(v@.take(i + 1)) =~= encoded(v@.take(i as int)).push(
            if kept_in_name(c) {
                c
            } else {
                '-'
            },
        ));
        i = i + 1;
    }
    assert(v@.take(v@.len() as int) =~= v@);
    out
}

/// The directory of a workspace's transcripts.
pub open spec fn project_dir(home: Seq<char>, names: ProviderNames, workspace: Seq<char>) -> Seq<char> {
    home + "/."@ + names.claude@ + "/projects/"@ + encoded(workspace)
}

impl ClaudeProvider {
    /// The directory that holds the directories of all workspaces.
    pub fn projects_dir(home: &str, names: &ProviderNames) -> (r: String)
        ensures
            r@ == home@ + "/."@ + names.claude@ + "/projects"@,
    {
        let mut r = concat3(home, "/.", names.claude.as_str());
        r.append("/projects");
        r
    }

    /// The file of a session, whether it is there or not; it takes a workspace to tell.
    pub fn compute_transcript_path(
        home: &str,
        names: &ProviderNames,
        session_id: &str,
        workspace: Option<&str>,
    ) -> (r: Option<String>)
        ensures
            text_opt(r) == (match workspace {
                Some(w) => Some(project_dir(home@, *names, w@) + "/"@ + session_id@ + ".jsonl"@),
                None => None,
            }),
    {
        match workspace {
            Some(w) => {
                let mut r = concat3(home, "/.", names.claude.as_str());
                r.append("/projects/");
                r.append(encode_workspace(w).as_str());
                r.append("/");
                r.append(session_id);
                r.append(".jsonl");
                Some(r)
            },
            None => None,
        }
    }
}

/// The name of a session's file.
pub fn session_file_name(session_id: &str) -> (r: String)
    ensures
        r@ == session_id@ + ".jsonl"@,
{
    concat2(session_id, ".jsonl")
}

/// Where the extension of a file name starts: at its last dot, unless that is its first character.
pub open spec fn extension_at(name: Seq<char>) -> Option<int> {
    match last_at(name, seq!['.'], name.len() - 1) {
        Some(i) => if i == 0 {
            None
        } else {
            Some(i)
        },
        None => None,
    }
}

/// Whether a file holds a session: its extension says so, and it is no agent's transcript.
pub open spec fn holds_session(name: Seq<char>) -> bool {
    match extension_at(name) {
        Some(i) => name.skip(i + 1) == "jsonl"@ && !starts(name.take(i), "agent-"@),
        None => false,
    }
}

/// Whether a file holds a session, by its name.
pub fn is_session_file(name: &str) -> (r: bool)
    ensures
        r == holds_session(name@),
{
    let v = chars_of(name);
    let mut dot: Vec<char> = Vec::new();
    dot.push('.');
    assert(dot@ =~= seq!['.']);
    match find_last(&v, &dot) {
        Some(i) => {
            if i == 0 {
                return false;
            }
            let extension = string_of_range(&v, i + 1, v.len());
            let stem = string_of_range(&v, 0, i);
            assert(v@.subrange(i + 1, v@.len() as int) =~= v@.skip(i + 1));
            assert(v@.subrange(0, i as int) =~= v@.take(i as int));
            same_text(extension.as_str(), "jsonl") && !starts_with(stem.as_str(), "agent-")
        },
        None => false,
    }
}

// ---------------------------------------------------------------------------
// What the picker shows
// ---------------------------------------------------------------------------

/// A block of a message.
#[derive(Debug, PartialEq)]
pub struct ContentBlock {
    pub block_type: String,
    pub text: Option<String>,
}

/// What a `ContentBlock` holds.
pub struct BlockModel {
    pub block_type: Seq<char>,
    pub text: Option<Seq<char>>,
}

impl View for ContentBlock {
    type V = BlockModel;

    open spec fn view(&self) -> BlockModel {
        BlockModel { block_type: self.block_type@, text: text_opt(self.text) }
    }
}

/// The views of a sequence of blocks.
pub open spec fn block_views(blocks: Seq<ContentBlock>) -> Seq<BlockModel> {
    blocks.map_values(|b: ContentBlock| b@)
}

/// The content of a message.
#[derive(Debug, PartialEq)]
pub enum MessageContent {
    Text(String),
    Blocks(Vec<ContentBlock>),
}

/// A user's message.
#[derive(Debug, PartialEq)]
pub struct UserMessage {
    pub content: Option<MessageContent>,
}

/// A line of a transcript, as far as the picker goes by it.
#[derive(Debug, PartialEq)]
pub enum JournalRecord {
    User { cwd: Option<String>, message: Option<UserMessage>, has_tool_result: bool },
    Assistant,
    AiTitle { ai_title: String },
    CustomTitle { title: String },
    Other,
}

/// The texts of the text blocks.
pub open spec fn texts_in(blocks: Seq<BlockModel>) -> Seq<Seq<char>>
    decreases blocks.len(),
{
    if blocks.len() == 0 {
        Seq::empty()
    } else {
        let before = texts_in(blocks.drop_last());
        match blocks.last().text {
            Some(t) => if blocks.last().block_type == "text"@ {
                before.push(t)
            } else {
                before
            },
            None => before,
        }
    }
}

/// The text of a message, where it is not empty.
pub open spec fn message_text(msg: UserMessage) -> Option<Seq<char>> {
    match msg.content {
        Some(MessageContent::Text(s)) => if s@.len() == 0 {
            None
        } else {
            Some(s@)
        },
        Some(MessageContent::Blocks(blocks)) => {
            let text = joined(texts_in(block_views(blocks@)), " "@);
            if text.len() == 0 {
                None
            } else {
                Some(text)
            }
        },
        None => None,
    }
}

/// The text of a message, where it is not empty.
pub fn extract_message_text(msg: &UserMessage) -> (r: Option<String>)
    ensures
        text_opt(r) == message_text(*msg),
{
    match &msg.content {
        Some(MessageContent::Text(s)) => {
            if s.as_str().is_empty() {
                None
            } else {
                Some(s.clone())
            }
        },
        Some(MessageContent::Blocks(blocks)) => {
            let ghost all = block_views(blocks@);
            let mut parts: Vec<String> = Vec::new();
            let mut i: usize = 0;
            assert(views(parts@) =~= texts_in(all.take(0)));
            while i < blocks.len()
                invariant
                    i <= blocks@.len(),
                    all == block_views(blocks@),
                    views(parts@) == texts_in(all.take(i as int)),
                decreases blocks@.len() - i,
            {
                proof {
                    assert(all.take(i + 1).drop_last() =~= all.take(i as int));
                    assert(all.take(i + 1).last() == blocks@[i as int]@);
                }
                if same_text(blocks[i].block_type.as_str(), "text") {
                    if let Some(t) = &blocks[i].text {
                        let ghost before = parts@;
                        parts.push(t.clone());
                        assert(views(parts@) =~= views(before).push(t@));
                    }
                }
                i = i + 1;
            }
            assert(all.take(blocks@.len() as int) =~= all);
            let text = join(&parts, " ");
            if text.as_str().is_empty() {
                None
            } else {
                Some(text)
            }
        },
        None => None,
    }
}

/// What the lines of a transcript tell the picker.
#[derive(Debug, PartialEq)]
pub struct JournalSummary {
    pub workspace_path: Option<String>,
    pub title: Option<String>,
    pub last_user_message: Option<String>,
    pub message_count: usize,
}

/// What a `JournalSummary` holds.
#[verifier::ext_equal]
pub struct SummaryModel {
    pub workspace_path: Option<Seq<char>>,
    pub title: Option<Seq<char>>,
    pub last_user_message: Option<Seq<char>>,
    pub message_count: int,
}

impl View for JournalSummary {
    type V = SummaryModel;

    open spec fn view(&self) -> SummaryModel {
        SummaryModel {
            workspace_path: text_opt(self.workspace_path),
            title: text_opt(self.title),
            last_user_message: text_opt(self.last_user_message),
            message_count: self.message_count as int,
        }
    }
}

/// What one more line changes: user and assistant lines count as messages; the first directory,
/// the last title and the last text that a user wrote stand.
pub open spec fn absorbed(s: SummaryModel, record: JournalRecord) -> SummaryModel {
    match record {
        JournalRecord::User { cwd, message, has_tool_result } => SummaryModel {
            message_count: s.message_count + 1,
            workspace_path: match s.workspace_path {
                Some(p) => Some(p),
                None => text_opt(cwd),
            },
            last_user_message: if has_tool_result || message is None || message_text(
                message->0,
            ) is None {
                s.last_user_message
            } else {
                message_text(message->0)
            },
            ..s
        },
        JournalRecord::Assistant => SummaryModel { message_count: s.message_count + 1, ..s },
        JournalRecord::AiTitle { ai_title } => SummaryModel { title: Some(ai_title@), ..s },
        JournalRecord::CustomTitle { title } => SummaryModel { title: Some(title@), ..s },
        JournalRecord::Other => s,
    }
}

/// What a sequence of lines leaves of a summary, each taken in after those before it.
pub open spec fn absorbed_all(s: SummaryModel, records: Seq<JournalRecord>) -> SummaryModel
    decreases records.len(),
{
    if records.len() == 0 {
        s
    } else {
        absorbed(absorbed_all(s, records.drop_last()), records.last())
    }
}

/// The text that a user wrote in a line: one without a tool's result, and not empty.
pub open spec fn written(record: JournalRecord) -> Option<Seq<char>> {
    match record {
        JournalRecord::User { message: Some(msg), has_tool_result: false, .. } => match msg.content {
            Some(MessageContent::Text(s)) if s@.len() > 0 => Some(s@),
            Some(MessageContent::Blocks(blocks)) => {
                let text = joined(texts_in(block_views(blocks@)), " "@);
                if text.len() > 0 {
                    Some(text)
                } else {
                    None
                }
            },
            _ => None,
        },
        _ => None,
    }
}

/// The title that a line gives.
pub open spec fn title_given(record: JournalRecord) -> Option<Seq<char>> {
    match record {
        JournalRecord::AiTitle { ai_title } => Some(ai_title@),
        JournalRecord::CustomTitle { title } => Some(title@),
        _ => None,
    }
}

/// The directory that a line gives.
pub open spec fn directory_given(record: JournalRecord) -> Option<Seq<char>> {
    match record {
        JournalRecord::User { cwd: Some(d), .. } => Some(d@),
        _ => None,
    }
}

/// Over any lines, the last message is the text of the last line in which a user wrote one; where
/// there is no such line, it is what it was.
pub proof fn law_last_user_message(s: SummaryModel, records: Seq<JournalRecord>)
    ensures
        forall|i: int|
            0 <= i < records.len() && (#[trigger] written(records[i])) is Some && (forall|j: int|
                i < j < records.len() ==> (#[trigger] written(records[j])) is None) ==> absorbed_all(
                s,
                records,
            ).last_user_message == written(records[i]),
        (forall|i: int| 0 <= i < records.len() ==> (#[trigger] written(records[i])) is None)
            ==> absorbed_all(s, records).last_user_message == s.last_user_message,
    decreases records.len(),
{
    if records.len() > 0 {
        let front = records.drop_last();
        law_last_user_message(s, front);
        assert forall|i: int|
            0 <= i < records.len() && (#[trigger] written(records[i])) is Some && (forall|j: int|
                i < j < records.len() ==> (#[trigger] written(records[j])) is None) implies absorbed_all(
            s,
            records,
        ).last_user_message == written(records[i]) by {
            if i < records.len() - 1 {
                assert(written(records[records.len() - 1]) is None);
                assert(written(front[i]) is Some);
                assert forall|j: int| i < j < front.len() implies (#[trigger] written(
                    front[j],
                )) is None by {
                    assert(written(records[j]) is None);
                }
            }
        }
        if forall|i: int| 0 <= i < records.len() ==> (#[trigger] written(records[i])) is None {
            assert(written(records[records.len() - 1]) is None);
            assert forall|i: int| 0 <= i < front.len() implies (#[trigger] written(
                front[i],
            )) is None by {
                assert(written(records[i]) is None);
            }
        }
    }
}

/// Over any lines, the title is the one given last; where none is given, it is what it was.
pub proof fn law_last_title(s: SummaryModel, records: Seq<JournalRecord>)
    ensures
        forall|i: int|
            0 <= i < records.len() && (#[trigger] title_given(records[i])) is Some && (forall|
                j: int,
            |
                i < j < records.len() ==> (#[trigger] title_given(records[j])) is None)
                ==> absorbed_all(s, records).title == title_given(records[i]),
        (forall|i: int| 0 <= i < records.len() ==> (#[trigger] title_given(records[i])) is None)
            ==> absorbed_all(s, records).title == s.title,
    decreases records.len(),
{
    if records.len() > 0 {
        let front = records.drop_last();
        law_last_title(s, front);
        assert forall|i: int|
            0 <= i < records.len() && (#[trigger] title_given(records[i])) is Some && (forall|
                j: int,
            |
                i < j < records.len() ==> (#[trigger] title_given(records[j])) is None) implies absorbed_all(
            s,
            records,
        ).title == title_given(records[i]) by {
            if i < records.len() - 1 {
                assert(title_given(records[records.len() - 1]) is None);
                assert(title_given(front[i]) is Some);
                assert forall|j: int| i < j < front.len() implies (#[trigger] title_given(
                    front[j],
                )) is None by {
                    assert(title_given(records[j]) is None);
                }
            }
        }
        if forall|i: int| 0 <= i < records.len() ==> (#[trigger] title_given(records[i])) is None {
            assert(title_given(records[records.len() - 1]) is None);
            assert forall|i: int| 0 <= i < front.len() implies (#[trigger] title_given(
                front[i],
            )) is None by {
                assert(title_given(records[i]) is None);
            }
        }
    }
}

/// Over any lines, the directory is the one known before; where none was, it is the first one that
/// a user's line gives, and none where no line gives one.
pub proof fn law_first_directory(s: SummaryModel, records: Seq<JournalRecord>)
    ensures
        s.workspace_path is Some ==> absorbed_all(s, records).workspace_path == s.workspace_path,
        s.workspace_path is None ==> forall|i: int|
            0 <= i < records.len() && (#[trigger] directory_given(records[i])) is Some && (forall|
                j: int,
            |
                0 <= j < i ==> (#[trigger] directory_given(records[j])) is None) ==> absorbed_all(
                s,
                records,
            ).workspace_path == directory_given(records[i]),
        s.workspace_path is None && (forall|i: int|
            0 <= i < records.len() ==> (#[trigger] directory_given(records[i])) is None)
            ==> absorbed_all(s, records).workspace_path is None,
    decreases records.len(),
{
    if records.len() > 0 {
        let front = records.drop_last();
        law_first_directory(s, front);
        if s.workspace_path is None {
            assert forall|i: int|
                0 <= i < records.len() && (#[trigger] directory_given(records[i])) is Some && (
                forall|j: int|
                    0 <= j < i ==> (#[trigger] directory_given(records[j])) is None) implies absorbed_all(
                s,
                records,
            ).workspace_path == directory_given(records[i]) by {
                if i < records.len() - 1 {
                    assert(directory_given(front[i]) is Some);
                    assert forall|j: int| 0 <= j < i implies (#[trigger] directory_given(
                        front[j],
                    )) is None by {
                        assert(directory_given(records[j]) is None);
                    }
                } else {
                    assert forall|j: int| 0 <= j < front.len() implies (#[trigger] directory_given(
                        front[j],
                    )) is None by {
                        assert(directory_given(records[j]) is None);
                    }
                }
            }
            if forall|i: int|
                0 <= i < records.len() ==> (#[trigger] directory_given(records[i])) is None {
                assert(directory_given(records[records.len() - 1]) is None);
                assert forall|j: int| 0 <= j < front.len() implies (#[trigger] directory_given(
                    front[j],
                )) is None by {
                    assert(directory_given(records[j]) is None);
                }
            }
        }
    }
}

/// Over any lines, the count goes up by the number of user and assistant lines.
pub proof fn law_messages_are_counted(s: SummaryModel, records: Seq<JournalRecord>)
    ensures
        absorbed_all(s, records).message_count == s.message_count + records.filter(
            |r: JournalRecord| r is User || r is Assistant,
        ).len(),
    decreases records.len(),
{
    reveal(Seq::filter);
    if records.len() > 0 {
        law_messages_are_counted(s, records.drop_last());
    }
}

/// The text of a message is its text, or the texts of its text blocks with a space between them;
/// a block of another type adds nothing.
pub proof fn law_texts_of_blocks(blocks: Seq<BlockModel>, b: BlockModel)
    ensures
        texts_in(Seq::empty()) == Seq::<Seq<char>>::empty(),
        b.block_type == "text"@ && b.text is Some ==> texts_in(blocks.push(b)) == texts_in(
            blocks,
        ).push(b.text->0),
        b.block_type != "text"@ || b.text is None ==> texts_in(blocks.push(b)) == texts_in(blocks),
{
    assert(blocks.push(b).drop_last() =~= blocks);
}

/// A directory name is as long as its path; letters, digits and dashes of ASCII stay, and every
/// other character is a dash.
pub proof fn law_encoded_by_character(path: Seq<char>)
    ensures
        encoded(path).len() == path.len(),
        forall|i: int|
            0 <= i < path.len() ==> {
                let c = path[i];
                if 'a' <= c <= 'z' || 'A' <= c <= 'Z' || '0' <= c <= '9' {
                    #[trigger] encoded(path)[i] == c
                } else {
                    encoded(path)[i] == '-'
                }
            },
{
}

impl JournalSummary {
    /// What no line tells.
    pub fn new() -> (r: Self)
        ensures
            r@ == (SummaryModel {
                workspace_path: None,
                title: None,
                last_user_message: None,
                message_count: 0,
            }),
    {
        JournalSummary {
            workspace_path: None,
            title: None,
            last_user_message: None,
            message_count: 0,
        }
    }

    /// Takes one more line in.
    pub fn absorb(&mut self, record: JournalRecord)
        requires
            old(self).message_count < usize::MAX,
        ensures
            final(self)@ == absorbed(old(self)@, record),
    {
        match record {
            JournalRecord::User { cwd, message, has_tool_result } => {
                self.message_count = self.message_count + 1;
                if self.workspace_path.is_none() {
                    self.workspace_path = cwd;
                }
                if !has_tool_result {
                    if let Some(msg) = &message {
                        if let Some(text) = extract_message_text(msg) {
                            self.last_user_message = Some(text);
                        }
                    }
                }
            },
            JournalRecord::Assistant => {
                self.message_count = self.message_count + 1;
            },
            JournalRecord::AiTitle { ai_title } => {
                self.title = Some(ai_title);
            },
            JournalRecord::CustomTitle { title } => {
                self.title = Some(title);
            },
            JournalRecord::Other => {},
        }
    }

    /// The title to list the session under.
    pub fn shown_title(&self) -> (r: String)
        ensures
            r@ == (match self@.title {
                Some(t) => t,
                None => "(untitled)"@,
            }),
    {
        match &self.title {
            Some(t) => t.clone(),
            None => "(untitled)".to_owned(),
        }
    }
}

/// The id of a session: the name of its file, without the extension.
pub open spec fn session_id_of(path: Seq<char>) -> Seq<char> {
    match path_name(path) {
        Some(name) => match extension_at(name) {
            Some(i) => name.take(i),
            None => name,
        },
        None => "unknown"@,
    }
}

/// The id of a session, by the path of its file.
pub fn read_session_id(path: &str) -> (r: String)
    ensures
        r@ == session_id_of(path@),
{
    let name = match name_in_path(path) {
        Some(name) => name,
        None => {
            return "unknown".to_owned();
        },
    };
    let v = chars_of(name.as_str());
    let mut dot: Vec<char> = Vec::new();
    dot.push('.');
    assert(dot@ =~= seq!['.']);
    match find_last(&v, &dot) {
        Some(i) => {
            if i == 0 {
                name
            } else {
                assert(v@.subrange(0, i as int) =~= v@.take(i as int));
                string_of_range(&v, 0, i)
            }
        },
        None => name,
    }
}

/// The entry of a session: what its lines tell, beside its file's time and size.
pub open spec fn entry_of(
    path: Seq<char>,
    summary: SummaryModel,
    mtime: Moment,
    size: Option<u64>,
) -> EntryModel {
    EntryModel {
        path,
        id: session_id_of(path),
        title: match summary.title {
            Some(t) => t,
            None => "(untitled)"@,
        },
        mtime,
        updated_at: None,
        size,
        last_user_message: summary.last_user_message,
        message_count: summary.message_count as usize,
        workspace_path: summary.workspace_path,
        provider: ProviderKind::Claude,
    }
}

/// The entry of a session tells all that its lines told; one without a title is listed as untitled.
pub proof fn law_entry(path: Seq<char>, summary: SummaryModel, mtime: Moment, size: Option<u64>)
    requires
        0 <= summary.message_count <= usize::MAX,
    ensures
        ({
            let e = entry_of(path, summary, mtime, size);
            &&& e.path == path
            &&& e.id == session_id_of(path)
            &&& summary.title is Some ==> e.title == summary.title->0
            &&& summary.title is None ==> e.title == "(untitled)"@
            &&& e.mtime == mtime && e.size == size && e.updated_at is None
            &&& e.last_user_message == summary.last_user_message
            &&& e.message_count == summary.message_count
            &&& e.workspace_path == summary.workspace_path
            &&& e.provider == ProviderKind::Claude
        }),
{
}

impl ClaudeProvider {
    /// The entry of a session: what its lines tell, beside its file's time and size.
    pub fn read_entry(path: &str, summary: JournalSummary, mtime: Moment, size: Option<u64>) -> (r:
        TranscriptEntry)
        ensures
            r@ == entry_of(path@, summary@, mtime, size),
    {
        let title = summary.shown_title();
        TranscriptEntry {
            path: path.to_owned(),
            id: read_session_id(path),
            title,
            mtime,
            updated_at: None,
            size,
            last_user_message: summary.last_user_message,
            message_count: summary.message_count,
            workspace_path: summary.workspace_path,
            provider: ProviderKind::Claude,
        }
    }
}

} // verus!

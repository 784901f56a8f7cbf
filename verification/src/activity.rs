//! What the assistant is doing right now: the tool that matters most, the file
//! or subject it works on, and how that is drawn.
use vstd::prelude::*;

use crate::fitting::{shortened, truncate_str};
use crate::json::Json;
use crate::slicing::{after_prefix, group_texts, has_prefix, lines, lines_of, opt_text, starts_with, strip_prefix, texts, trim, trimmed};
use crate::text::{cat2, cat3, cat5, char_count, chars_of, decimal, decimal_text, same_text, text_between};
use crate::text_map::TextMap;
use crate::transcript::{ChatMessage, MessagePart, ToolCall, ToolInput, ToolKind, ToolOutput, ToolStatus};

verus! {

broadcast use group_texts;

// ── labels ──────────────────────────────────────────────────────────────

/// What kind of work is going on.
#[derive(Debug, Clone, Copy, PartialEq, Eq, Structural)]
pub enum ActivityLabel {
    Working,
    Planning,
    Reading,
    Searching,
    Running,
    Editing,
    Creating,
}

impl ActivityLabel {
    /// How much the work matters: what changes files matters most.
    pub open spec fn weight(self) -> int {
        match self {
            ActivityLabel::Working => 0,
            ActivityLabel::Planning => 1,
            ActivityLabel::Reading => 2,
            ActivityLabel::Searching => 3,
            ActivityLabel::Running => 4,
            ActivityLabel::Editing => 5,
            ActivityLabel::Creating => 6,
        }
    }

    fn weight_of(self) -> (r: u8)
        ensures
            r == self.weight(),
    {
        match self {
            ActivityLabel::Working => 0,
            ActivityLabel::Planning => 1,
            ActivityLabel::Reading => 2,
            ActivityLabel::Searching => 3,
            ActivityLabel::Running => 4,
            ActivityLabel::Editing => 5,
            ActivityLabel::Creating => 6,
        }
    }

    /// The word for the work.
    pub open spec fn word(self) -> Seq<char> {
        match self {
            ActivityLabel::Creating => "Creating"@,
            ActivityLabel::Editing => "Editing"@,
            ActivityLabel::Running => "Running"@,
            ActivityLabel::Searching => "Searching"@,
            ActivityLabel::Reading => "Reading"@,
            ActivityLabel::Planning => "Planning"@,
            ActivityLabel::Working => "Working"@,
        }
    }

    pub fn as_str(self) -> (r: &'static str)
        ensures
            r@ == self.word(),
    {
        match self {
            ActivityLabel::Creating => "Creating",
            ActivityLabel::Editing => "Editing",
            ActivityLabel::Running => "Running",
            ActivityLabel::Searching => "Searching",
            ActivityLabel::Reading => "Reading",
            ActivityLabel::Planning => "Planning",
            ActivityLabel::Working => "Working",
        }
    }

    /// The work that a tool does.
    pub open spec fn of_kind(kind: ToolKind) -> ActivityLabel {
        match kind {
            ToolKind::Write => ActivityLabel::Creating,
            ToolKind::Edit | ToolKind::MultiEdit | ToolKind::ApplyPatch => ActivityLabel::Editing,
            ToolKind::Bash | ToolKind::BashOutput | ToolKind::HcomRun | ToolKind::HcomTerm =>
                ActivityLabel::Running,
            ToolKind::Glob | ToolKind::Grep | ToolKind::Search | ToolKind::WebFetch | ToolKind::WebSearch
            | ToolKind::ToolSearch | ToolKind::Lsp => ActivityLabel::Searching,
            ToolKind::Read | ToolKind::NotebookRead => ActivityLabel::Reading,
            ToolKind::TaskCreate | ToolKind::TaskUpdate | ToolKind::TaskList | ToolKind::TaskDone
            | ToolKind::TaskStop | ToolKind::TaskGet | ToolKind::TaskValidate | ToolKind::PlanCreate
            | ToolKind::PlanList | ToolKind::PlanShow | ToolKind::PlanAdvance | ToolKind::PlanArchive
            | ToolKind::PlanMaterialize => ActivityLabel::Planning,
            _ => ActivityLabel::Working,
        }
    }

    /// The work that a tool does.
    pub fn for_tool(tool: &ToolCall) -> (r: Self)
        ensures
            r == Self::of_kind(tool.kind),
    {
        match tool.kind {
            ToolKind::Write => ActivityLabel::Creating,
            ToolKind::Edit | ToolKind::MultiEdit | ToolKind::ApplyPatch => ActivityLabel::Editing,
            ToolKind::Bash | ToolKind::BashOutput | ToolKind::HcomRun | ToolKind::HcomTerm =>
                ActivityLabel::Running,
            ToolKind::Glob | ToolKind::Grep | ToolKind::Search | ToolKind::WebFetch | ToolKind::WebSearch
            | ToolKind::ToolSearch | ToolKind::Lsp => ActivityLabel::Searching,
            ToolKind::Read | ToolKind::NotebookRead => ActivityLabel::Reading,
            ToolKind::TaskCreate | ToolKind::TaskUpdate | ToolKind::TaskList | ToolKind::TaskDone
            | ToolKind::TaskStop | ToolKind::TaskGet | ToolKind::TaskValidate | ToolKind::PlanCreate
            | ToolKind::PlanList | ToolKind::PlanShow | ToolKind::PlanAdvance | ToolKind::PlanArchive
            | ToolKind::PlanMaterialize => ActivityLabel::Planning,
            _ => ActivityLabel::Working,
        }
    }
}

// ── files ───────────────────────────────────────────────────────────────

/// A file that is being changed.
#[derive(Debug)]
pub struct FileActivity {
    pub path: String,
    pub additions: usize,
    pub deletions: usize,
}

/// How many lines a text has.
pub open spec fn line_count(text: Seq<char>) -> nat {
    if text.len() == 0 {
        0
    } else if lines_of(text).len() == 0 {
        1
    } else {
        lines_of(text).len()
    }
}

/// How many lines a text has; a text that is not empty has at least one.
pub fn changed_line_count(text: &str) -> (r: usize)
    ensures
        r == line_count(text@),
{
    if char_count(text) == 0 {
        return 0;
    }
    let all = lines(text);
    assert(texts(all@).len() == all@.len());
    if all.len() == 0 {
        1
    } else {
        all.len()
    }
}

/// The sum, or the largest count where it is too large.
pub open spec fn capped_count(a: nat, b: nat) -> nat {
    if a + b > usize::MAX {
        usize::MAX as nat
    } else {
        a + b
    }
}

/// The text of the first of two members that there is; nothing where it is no
/// text.
pub open spec fn either_text(j: Json, key: Seq<char>, other: Seq<char>) -> Seq<char> {
    let member = match j.member(key) {
        Some(m) => Some(m),
        None => j.member(other),
    };
    match member {
        Some(m) => match m.text() {
            Some(t) => t,
            None => Seq::empty(),
        },
        None => Seq::empty(),
    }
}

fn text_of_either<'a>(j: &'a Json, key: &str, other: &str) -> (r: &'a str)
    ensures
        r@ == either_text(*j, key@, other@),
{
    let member = match j.get(key) {
        Some(m) => Some(m),
        None => j.get(other),
    };
    let empty = "";
    proof {
        reveal_strlit("");
        assert(empty@ =~= Seq::<char>::empty());
    }
    match member {
        Some(m) => match m.as_str() {
            Some(t) => t,
            None => empty,
        },
        None => empty,
    }
}

/// Lines that edits add and remove.
pub open spec fn edit_counts(edits: Seq<Json>) -> (nat, nat)
    decreases edits.len(),
{
    if edits.len() == 0 {
        (0, 0)
    } else {
        let (adds, dels) = edit_counts(edits.drop_last());
        (
            capped_count(adds, line_count(either_text(edits.last(), "new_string"@, "new_str"@))),
            capped_count(dels, line_count(either_text(edits.last(), "old_string"@, "old_str"@))),
        )
    }
}

/// Lines that a list of edits adds and removes; nothing where it is no list.
pub fn estimate_multiedit_counts(edits: &Json) -> (r: (usize, usize))
    ensures
        (r.0 as nat, r.1 as nat) == (match edits.items() {
            Some(items) => edit_counts(items),
            None => (0, 0),
        }),
{
    let items = match edits.as_array() {
        Some(items) => items,
        None => {
            return (0, 0);
        },
    };
    let mut adds: usize = 0;
    let mut dels: usize = 0;
    let mut i: usize = 0;
    assert(items@.take(0) =~= Seq::<Json>::empty());
    while i < items.len()
        invariant
            edits.items() == Some(items@),
            i <= items@.len(),
            (adds as nat, dels as nat) == edit_counts(items@.take(i as int)),
        decreases items@.len() - i,
    {
        assert(items@.take(i + 1).drop_last() =~= items@.take(i as int));
        let old_text = text_of_either(&items[i], "old_string", "old_str");
        let new_text = text_of_either(&items[i], "new_string", "new_str");
        adds = adds.saturating_add(changed_line_count(new_text));
        dels = dels.saturating_add(changed_line_count(old_text));
        i += 1;
    }
    assert(items@.take(i as int) =~= items@);
    (adds, dels)
}

/// The file that a tool changes: path, added and removed lines.
pub open spec fn file_changed(tool: ToolCall) -> Option<(Seq<char>, nat, nat)> {
    match tool.output {
        ToolOutput::Diff { file_path, additions, deletions } => Some(
            (file_path@, additions as nat, deletions as nat),
        ),
        _ => match tool.input {
            ToolInput::Write { file_path, content } => Some((file_path@, line_count(content@), 0)),
            ToolInput::Edit { file_path, old_string, new_string } => Some(
                (file_path@, line_count(new_string@), line_count(old_string@)),
            ),
            ToolInput::MultiEdit { file_path, added_lines, removed_lines } => Some(
                (file_path@, added_lines as nat, removed_lines as nat),
            ),
            _ => None,
        },
    }
}

/// What a file activity says.
pub open spec fn file_model(f: Option<FileActivity>) -> Option<(Seq<char>, nat, nat)> {
    match f {
        Some(a) => Some((a.path@, a.additions as nat, a.deletions as nat)),
        None => None,
    }
}

/// The file that a tool changes. What the tool reported counts more than what
/// it was asked to do.
pub fn file_activity_for_tool(tool: &ToolCall) -> (r: Option<FileActivity>)
    ensures
        file_model(r) == file_changed(*tool),
{
    match &tool.output {
        ToolOutput::Diff { file_path, additions, deletions } => Some(
            FileActivity { path: file_path.clone(), additions: *additions, deletions: *deletions },
        ),
        _ => match &tool.input {
            ToolInput::Write { file_path, content } => Some(
                FileActivity {
                    path: file_path.clone(),
                    additions: changed_line_count(content.as_str()),
                    deletions: 0,
                },
            ),
            ToolInput::Edit { file_path, old_string, new_string } => Some(
                FileActivity {
                    path: file_path.clone(),
                    additions: changed_line_count(new_string.as_str()),
                    deletions: changed_line_count(old_string.as_str()),
                },
            ),
            ToolInput::MultiEdit { file_path, added_lines, removed_lines } => Some(
                FileActivity {
                    path: file_path.clone(),
                    additions: *added_lines,
                    deletions: *removed_lines,
                },
            ),
            _ => None,
        },
    }
}

/// A character that separates the parts of a path.
pub open spec fn is_separator(c: char) -> bool {
    c == '/' || c == '\\'
}

/// Where the last part of the path ends, separators behind it left out.
pub open spec fn name_end(s: Seq<char>, n: int) -> int
    decreases n,
{
    if n <= 0 {
        0
    } else if is_separator(s[n - 1]) {
        name_end(s, n - 1)
    } else {
        n
    }
}

/// Where the part of the path that ends at `n` begins.
pub open spec fn name_start(s: Seq<char>, n: int) -> int
    decreases n,
{
    if n <= 0 {
        0
    } else if is_separator(s[n - 1]) {
        n
    } else {
        name_start(s, n - 1)
    }
}

/// The last part of a path that is not empty; the path itself where there is
/// none.
pub open spec fn file_name(s: Seq<char>) -> Seq<char> {
    let end = name_end(s, s.len() as int);
    if end <= 0 {
        s
    } else {
        s.subrange(name_start(s, end), end)
    }
}

/// The last part of a path, shortened.
pub fn activity_display_path(path: &str) -> (r: String)
    ensures
        r@ == shortened(file_name(path@), 48),
{
    let cs = chars_of(path);
    let mut end: usize = cs.len();
    while end > 0 && (cs[end - 1] == '/' || cs[end - 1] == '\\')
        invariant
            end <= cs@.len(),
            cs@ == path@,
            name_end(path@, path@.len() as int) == name_end(path@, end as int),
        decreases end,
    {
        end -= 1;
    }
    if end == 0 {
        return truncate_str(path, 48);
    }
    let mut start: usize = end;
    while start > 0 && !(cs[start - 1] == '/' || cs[start - 1] == '\\')
        invariant
            start <= end <= cs@.len(),
            cs@ == path@,
            name_start(path@, end as int) == name_start(path@, start as int),
        decreases start,
    {
        start -= 1;
    }
    let name = text_between(&cs, start, end);
    truncate_str(name.as_str(), 48)
}

// ── subjects ────────────────────────────────────────────────────────────

/// The first line at or after `from` that is not blank, trimmed.
pub open spec fn first_words(all: Seq<Seq<char>>, from: int) -> Option<Seq<char>>
    decreases all.len() - from,
{
    if from < 0 || from >= all.len() {
        None
    } else if trimmed(all[from]).len() > 0 {
        Some(trimmed(all[from]))
    } else {
        first_words(all, from + 1)
    }
}

/// The first line of a text that is not blank, shortened.
pub open spec fn first_line(text: Seq<char>) -> Option<Seq<char>> {
    match first_words(lines_of(text), 0) {
        Some(l) => Some(shortened(l, 64)),
        None => None,
    }
}

/// The first line of a text that is not blank, shortened.
pub fn first_activity_line(text: &str) -> (r: Option<String>)
    ensures
        opt_text(r) == first_line(text@),
{
    let all = lines(text);
    let ghost models = texts(all@);
    let mut i: usize = 0;
    while i < all.len()
        invariant
            i <= all@.len(),
            models == texts(all@),
            models == lines_of(text@),
            first_words(models, 0) == first_words(models, i as int),
        decreases all@.len() - i,
    {
        assert(models[i as int] == all@[i as int]@);
        let t = trim(all[i].as_str());
        if char_count(t.as_str()) > 0 {
            return Some(truncate_str(t.as_str(), 64));
        }
        i += 1;
    }
    None
}

/// What follows the prefix on the first line at or after `from` that begins
/// with it.
pub open spec fn after_on_a_line(all: Seq<Seq<char>>, prefix: Seq<char>, from: int) -> Option<Seq<char>>
    decreases all.len() - from,
{
    if from < 0 || from >= all.len() {
        None
    } else {
        match after_prefix(all[from], prefix) {
            Some(rest) => Some(rest),
            None => after_on_a_line(all, prefix, from + 1),
        }
    }
}

/// The text of an output.
pub open spec fn output_text(o: ToolOutput) -> Option<Seq<char>> {
    match o {
        ToolOutput::Text(t) => Some(t@),
        ToolOutput::LargeText(t) => Some(t@),
        _ => None,
    }
}

/// The id of the background shell that an output reports.
pub open spec fn reported_shell(o: ToolOutput) -> Option<Seq<char>> {
    match output_text(o) {
        Some(text) => match after_on_a_line(lines_of(text), "task_id: "@, 0) {
            Some(rest) => if has_prefix(trimmed(rest), "bash_"@) {
                Some(trimmed(rest))
            } else {
                None
            },
            None => None,
        },
        None => None,
    }
}

/// The id of the background shell that an output reports.
pub fn background_task_id_from_output(output: &ToolOutput) -> (r: Option<String>)
    ensures
        opt_text(r) == reported_shell(*output),
{
    let text = match output {
        ToolOutput::Text(t) => t,
        ToolOutput::LargeText(t) => t,
        _ => {
            return None;
        },
    };
    let all = lines(text.as_str());
    let ghost models = texts(all@);
    let mut i: usize = 0;
    while i < all.len()
        invariant
            i <= all@.len(),
            models == texts(all@),
            models == lines_of(text@),
            output_text(*output) == Some(text@),
            after_on_a_line(models, "task_id: "@, 0) == after_on_a_line(models, "task_id: "@, i as int),
        decreases all@.len() - i,
    {
        assert(models[i as int] == all@[i as int]@);
        if let Some(rest) = strip_prefix(all[i].as_str(), "task_id: ") {
            let id = trim(rest.as_str());
            return if starts_with(id.as_str(), "bash_") {
                Some(id)
            } else {
                None
            };
        }
        i += 1;
    }
    None
}

/// A shell command whose output reports that background shell.
pub open spec fn starts_shell(p: MessagePart, id: Seq<char>) -> Option<Seq<char>> {
    match p {
        MessagePart::Tool(tool) => match tool.input {
            ToolInput::Bash { command } => if reported_shell(tool.output) == Some(id) {
                Some(command@)
            } else {
                None
            },
            _ => None,
        },
        _ => None,
    }
}

/// The last of the first `n` parts that started the shell.
pub open spec fn command_in_parts(parts: Seq<MessagePart>, id: Seq<char>, n: nat) -> Option<Seq<char>>
    decreases n,
{
    if n == 0 {
        None
    } else {
        match starts_shell(parts[n - 1], id) {
            Some(c) => Some(c),
            None => command_in_parts(parts, id, (n - 1) as nat),
        }
    }
}

/// The command of the last of the first `n` messages that started the shell.
pub open spec fn command_in_messages(messages: Seq<ChatMessage>, id: Seq<char>, n: nat) -> Option<Seq<char>>
    decreases n,
{
    if n == 0 {
        None
    } else {
        let parts = messages[n - 1].parts@;
        match command_in_parts(parts, id, parts.len()) {
            Some(c) => Some(c),
            None => command_in_messages(messages, id, (n - 1) as nat),
        }
    }
}

fn find_in_parts(parts: &Vec<MessagePart>, id: &str) -> (r: Option<String>)
    ensures
        opt_text(r) == command_in_parts(parts@, id@, parts@.len()),
{
    let mut n: usize = parts.len();
    while n > 0
        invariant
            n <= parts@.len(),
            command_in_parts(parts@, id@, parts@.len()) == command_in_parts(parts@, id@, n as nat),
        decreases n,
    {
        if let MessagePart::Tool(tool) = &parts[n - 1] {
            if let ToolInput::Bash { command } = &tool.input {
                if let Some(found) = background_task_id_from_output(&tool.output) {
                    if same_text(found.as_str(), id) {
                        assert(starts_shell(parts@[n - 1], id@) == Some(command@));
                        return Some(command.clone());
                    }
                }
            }
        }
        assert(starts_shell(parts@[n - 1], id@) is None);
        n -= 1;
    }
    None
}

fn find_in_messages(messages: &Vec<ChatMessage>, id: &str) -> (r: Option<String>)
    ensures
        opt_text(r) == command_in_messages(messages@, id@, messages@.len()),
{
    let mut n: usize = messages.len();
    while n > 0
        invariant
            n <= messages@.len(),
            command_in_messages(messages@, id@, messages@.len()) == command_in_messages(
                messages@,
                id@,
                n as nat,
            ),
        decreases n,
    {
        if let Some(command) = find_in_parts(&messages[n - 1].parts, id) {
            return Some(command);
        }
        n -= 1;
    }
    None
}

/// The command that a background shell runs: as the list of shells has it, else
/// as the conversation has it.
pub open spec fn shell_command(shells: Map<Seq<char>, String>, messages: Seq<ChatMessage>, id: Seq<char>) -> Option<
    Seq<char>,
> {
    let listed = if shells.contains_key(id) {
        first_line(shells[id]@)
    } else {
        None
    };
    match listed {
        Some(l) => Some(l),
        None => match command_in_messages(messages, id, messages.len()) {
            Some(c) => first_line(c),
            None => None,
        },
    }
}

/// The command that a background shell runs.
pub fn bash_command_for_task(shells: &TextMap<String>, messages: &Vec<ChatMessage>, task_id: &str) -> (r: Option<
    String,
>)
    ensures
        opt_text(r) == shell_command(shells@, messages@, task_id@),
{
    if let Some(command) = shells.get(task_id) {
        if let Some(line) = first_activity_line(command.as_str()) {
            return Some(line);
        }
    }
    match find_in_messages(messages, task_id) {
        Some(command) => first_activity_line(command.as_str()),
        None => None,
    }
}

/// `what` or `what in where`.
pub open spec fn placed_in(what: Seq<char>, path: Option<Seq<char>>) -> Seq<char> {
    match path {
        Some(p) => what + " in "@ + p,
        None => what,
    }
}

fn place_in(what: &String, path: &Option<String>) -> (r: String)
    ensures
        r@ == placed_in(what@, opt_text(*path)),
{
    match path {
        Some(p) => cat3(what.as_str(), " in ", p.as_str()),
        None => what.clone(),
    }
}

/// What a tool that is no shell works on.
pub open spec fn plain_subject(input: ToolInput) -> Option<Seq<char>> {
    match input {
        ToolInput::Read { file_path } => Some(shortened(file_name(file_path@), 48)),
        ToolInput::Glob { pattern, path } => Some(placed_in(pattern@, opt_text(path))),
        ToolInput::Grep { pattern, path } => Some(placed_in(pattern@, opt_text(path))),
        ToolInput::Search { query, path } => Some(placed_in(query@, opt_text(path))),
        ToolInput::WebFetch { url } => Some(url@),
        ToolInput::WebSearch { query } => Some(query@),
        ToolInput::ToolSearch { query } => Some(query@),
        ToolInput::Lsp { kind, file, line } => Some(
            kind@ + " "@ + file@ + ":"@ + decimal(line as nat),
        ),
        ToolInput::Hcom { summary } => Some(summary@),
        _ => None,
    }
}

fn subject_of_input(input: &ToolInput) -> (r: Option<String>)
    ensures
        opt_text(r) == plain_subject(*input),
{
    match input {
        ToolInput::Read { file_path } => Some(activity_display_path(file_path.as_str())),
        ToolInput::Glob { pattern, path } => Some(place_in(pattern, path)),
        ToolInput::Grep { pattern, path } => Some(place_in(pattern, path)),
        ToolInput::Search { query, path } => Some(place_in(query, path)),
        ToolInput::WebFetch { url } => Some(url.clone()),
        ToolInput::WebSearch { query } => Some(query.clone()),
        ToolInput::ToolSearch { query } => Some(query.clone()),
        ToolInput::Lsp { kind, file, line } => Some(
            cat5(kind.as_str(), " ", file.as_str(), ":", decimal_text(*line).as_str()),
        ),
        ToolInput::Hcom { summary } => Some(summary.clone()),
        _ => None,
    }
}

/// What a tool works on, in a few words.
pub open spec fn subject_of(shells: Map<Seq<char>, String>, messages: Seq<ChatMessage>, tool: ToolCall) -> Option<
    Seq<char>,
> {
    match tool.input {
        ToolInput::Bash { command } => first_line(command@),
        ToolInput::BashOutput { task_id } => match shell_command(shells, messages, task_id@) {
            Some(c) => Some(c),
            None => Some("output "@ + task_id@),
        },
        _ => match plain_subject(tool.input) {
            Some(s) => if trimmed(s).len() == 0 {
                None
            } else {
                Some(shortened(trimmed(s), 64))
            },
            None => None,
        },
    }
}

/// What a tool works on, in a few words.
pub fn activity_subject_for_tool(shells: &TextMap<String>, messages: &Vec<ChatMessage>, tool: &ToolCall) -> (r: Option<
    String,
>)
    ensures
        opt_text(r) == subject_of(shells@, messages@, *tool),
{
    match &tool.input {
        ToolInput::Bash { command } => first_activity_line(command.as_str()),
        ToolInput::BashOutput { task_id } => match bash_command_for_task(
            shells,
            messages,
            task_id.as_str(),
        ) {
            Some(c) => Some(c),
            None => Some(cat2("output ", task_id.as_str())),
        },
        _ => match subject_of_input(&tool.input) {
            Some(s) => {
                let t = trim(s.as_str());
                if char_count(t.as_str()) == 0 {
                    None
                } else {
                    Some(truncate_str(t.as_str(), 64))
                }
            },
            None => None,
        },
    }
}

// ── the activity that matters ───────────────────────────────────────────

/// What is going on.
#[derive(Debug)]
pub struct ActivityDetails {
    pub label: ActivityLabel,
    pub file: Option<FileActivity>,
    pub subject: Option<String>,
}

/// What is going on, as a value.
pub struct Activity {
    pub label: ActivityLabel,
    pub file: Option<(Seq<char>, nat, nat)>,
    pub subject: Option<Seq<char>>,
}

/// What the details say.
pub open spec fn details_model(d: ActivityDetails) -> Activity {
    Activity { label: d.label, file: file_model(d.file), subject: opt_text(d.subject) }
}

/// What details that may be missing say.
pub open spec fn opt_details(d: Option<ActivityDetails>) -> Option<Activity> {
    match d {
        Some(x) => Some(details_model(x)),
        None => None,
    }
}

/// What a tool is doing. An edit that replaces nothing creates.
pub open spec fn activity_of(shells: Map<Seq<char>, String>, messages: Seq<ChatMessage>, tool: ToolCall) -> Activity {
    let label = match tool.input {
        ToolInput::Edit { old_string, .. } => if old_string@.len() == 0 {
            ActivityLabel::Creating
        } else {
            ActivityLabel::of_kind(tool.kind)
        },
        _ => ActivityLabel::of_kind(tool.kind),
    };
    Activity { label, file: file_changed(tool), subject: subject_of(shells, messages, tool) }
}

fn details_of(shells: &TextMap<String>, messages: &Vec<ChatMessage>, tool: &ToolCall) -> (r: ActivityDetails)
    ensures
        details_model(r) == activity_of(shells@, messages@, *tool),
{
    let label = match &tool.input {
        ToolInput::Edit { old_string, .. } => if char_count(old_string.as_str()) == 0 {
            ActivityLabel::Creating
        } else {
            ActivityLabel::for_tool(tool)
        },
        _ => ActivityLabel::for_tool(tool),
    };
    ActivityDetails {
        label,
        file: file_activity_for_tool(tool),
        subject: activity_subject_for_tool(shells, messages, tool),
    }
}

/// The activity `a` takes the place of the best one so far: it matters more, or
/// it names a file or a subject where nothing was named.
pub open spec fn replaces(a: Activity, best: Option<Activity>) -> bool {
    match best {
        None => true,
        Some(b) => a.label.weight() > b.label.weight() || (b.file is None && a.file is Some) || (b.file is None
            && b.subject is None && a.subject is Some),
    }
}

/// The activity that matters most among those of the tools.
pub open spec fn main_activity(shells: Map<Seq<char>, String>, messages: Seq<ChatMessage>, tools: Seq<ToolCall>) -> Option<
    Activity,
>
    decreases tools.len(),
{
    if tools.len() == 0 {
        None
    } else {
        let best = main_activity(shells, messages, tools.drop_last());
        let a = activity_of(shells, messages, tools.last());
        if replaces(a, best) {
            Some(a)
        } else {
            best
        }
    }
}

fn consider(
    best: Option<ActivityDetails>,
    shells: &TextMap<String>,
    messages: &Vec<ChatMessage>,
    tool: &ToolCall,
) -> (r: Option<ActivityDetails>)
    ensures
        ({
            let a = activity_of(shells@, messages@, *tool);
            opt_details(r) == if replaces(a, opt_details(best)) {
                Some(a)
            } else {
                opt_details(best)
            }
        }),
{
    let details = details_of(shells, messages, tool);
    match best {
        None => Some(details),
        Some(b) => {
            let heavier = details.label.weight_of() > b.label.weight_of();
            let names_file = b.file.is_none() && details.file.is_some();
            let names_subject = b.file.is_none() && b.subject.is_none() && details.subject.is_some();
            if heavier || names_file || names_subject {
                Some(details)
            } else {
                Some(b)
            }
        },
    }
}

/// The tool is being carried out.
pub open spec fn is_executing(tool: ToolCall, running_ids: Seq<Seq<char>>) -> bool {
    tool.status == ToolStatus::Pending || tool.status == ToolStatus::Running || running_ids.contains(tool.id@)
}

/// The tools among the parts that are being carried out.
pub open spec fn executing_parts(parts: Seq<MessagePart>, running_ids: Seq<Seq<char>>) -> Seq<ToolCall>
    decreases parts.len(),
{
    if parts.len() == 0 {
        Seq::empty()
    } else {
        let before = executing_parts(parts.drop_last(), running_ids);
        match parts.last() {
            MessagePart::Tool(tool) => if is_executing(tool, running_ids) {
                before.push(tool)
            } else {
                before
            },
            _ => before,
        }
    }
}

/// The tools of the conversation that are being carried out.
pub open spec fn executing_tools(messages: Seq<ChatMessage>, running_ids: Seq<Seq<char>>) -> Seq<ToolCall>
    decreases messages.len(),
{
    if messages.len() == 0 {
        Seq::empty()
    } else {
        executing_tools(messages.drop_last(), running_ids) + executing_parts(
            messages.last().parts@,
            running_ids,
        )
    }
}

fn lists_id(ids: &Vec<String>, id: &str) -> (r: bool)
    ensures
        r == texts(ids@).contains(id@),
{
    let mut i: usize = 0;
    while i < ids.len()
        invariant
            i <= ids@.len(),
            forall|j: int| 0 <= j < i ==> texts(ids@)[j] != id@,
        decreases ids@.len() - i,
    {
        assert(texts(ids@)[i as int] == ids@[i as int]@);
        if same_text(ids[i].as_str(), id) {
            assert(texts(ids@)[i as int] == id@);
            return true;
        }
        i += 1;
    }
    assert(texts(ids@).len() == ids@.len());
    false
}

/// The turn, as far as its tools go.
#[derive(Debug)]
pub struct TurnTools {
    pub pending_tool_calls: Vec<ToolCall>,
    pub active_tool_calls: Vec<ToolCall>,
    pub messages: Vec<ChatMessage>,
    /// The ids of tools that have not returned yet.
    pub in_progress_ids: Vec<String>,
    /// The commands of the background shells.
    pub shells: TextMap<String>,
}

/// The tools that count, in the order in which they are looked at.
pub open spec fn counted_tools(t: TurnTools) -> Seq<ToolCall> {
    t.pending_tool_calls@ + t.active_tool_calls@ + executing_tools(t.messages@, texts(t.in_progress_ids@))
}

/// The activity that matters most in a turn.
pub open spec fn turn_activity(t: TurnTools) -> Option<Activity> {
    main_activity(t.shells@, t.messages@, counted_tools(t))
}

fn consider_list(
    best: Option<ActivityDetails>,
    t: &TurnTools,
    list: &Vec<ToolCall>,
    Ghost(done): Ghost<Seq<ToolCall>>,
) -> (r: Option<ActivityDetails>)
    requires
        opt_details(best) == main_activity(t.shells@, t.messages@, done),
    ensures
        opt_details(r) == main_activity(t.shells@, t.messages@, done + list@),
{
    let mut best = best;
    let mut i: usize = 0;
    assert(done + list@.take(0) =~= done);
    while i < list.len()
        invariant
            i <= list@.len(),
            opt_details(best) == main_activity(t.shells@, t.messages@, done + list@.take(i as int)),
        decreases list@.len() - i,
    {
        assert((done + list@.take(i + 1)).drop_last() =~= done + list@.take(i as int));
        best = consider(best, &t.shells, &t.messages, &list[i]);
        i += 1;
    }
    assert(list@.take(i as int) =~= list@);
    best
}

fn consider_parts(
    best: Option<ActivityDetails>,
    t: &TurnTools,
    parts: &Vec<MessagePart>,
    Ghost(done): Ghost<Seq<ToolCall>>,
) -> (r: Option<ActivityDetails>)
    requires
        opt_details(best) == main_activity(t.shells@, t.messages@, done),
    ensures
        opt_details(r) == main_activity(
            t.shells@,
            t.messages@,
            done + executing_parts(parts@, texts(t.in_progress_ids@)),
        ),
{
    let mut best = best;
    let ghost ids = texts(t.in_progress_ids@);
    let mut k: usize = 0;
    assert(done + executing_parts(parts@.take(0), ids) =~= done);
    while k < parts.len()
        invariant
            k <= parts@.len(),
            ids == texts(t.in_progress_ids@),
            opt_details(best) == main_activity(
                t.shells@,
                t.messages@,
                done + executing_parts(parts@.take(k as int), ids),
            ),
        decreases parts@.len() - k,
    {
        assert(parts@.take(k + 1).drop_last() =~= parts@.take(k as int));
        if let MessagePart::Tool(tool) = &parts[k] {
            let executing = matches!(tool.status, ToolStatus::Pending | ToolStatus::Running) || lists_id(
                &t.in_progress_ids,
                tool.id.as_str(),
            );
            if executing {
                let ghost so_far = executing_parts(parts@.take(k as int), ids);
                assert((done + so_far.push(*tool)).drop_last() =~= done + so_far);
                best = consider(best, &t.shells, &t.messages, tool);
            }
        }
        k += 1;
    }
    assert(parts@.take(k as int) =~= parts@);
    best
}

/// The activity that matters most in a turn: among the tools that wait, those
/// that run, and those of the conversation that have not returned.
pub fn active_tool_activity(t: &TurnTools) -> (r: Option<ActivityDetails>)
    ensures
        opt_details(r) == turn_activity(*t),
{
    let ghost none = Seq::<ToolCall>::empty();
    let mut best = consider_list(None, t, &t.pending_tool_calls, Ghost(none));
    assert(none + t.pending_tool_calls@ =~= t.pending_tool_calls@);
    best = consider_list(best, t, &t.active_tool_calls, Ghost(t.pending_tool_calls@));
    let ghost head = t.pending_tool_calls@ + t.active_tool_calls@;
    let ghost ids = texts(t.in_progress_ids@);
    let mut i: usize = 0;
    assert(head + executing_tools(t.messages@.take(0), ids) =~= head);
    while i < t.messages.len()
        invariant
            i <= t.messages@.len(),
            ids == texts(t.in_progress_ids@),
            opt_details(best) == main_activity(
                t.shells@,
                t.messages@,
                head + executing_tools(t.messages@.take(i as int), ids),
            ),
        decreases t.messages@.len() - i,
    {
        assert(t.messages@.take(i + 1).drop_last() =~= t.messages@.take(i as int));
        let ghost done = head + executing_tools(t.messages@.take(i as int), ids);
        best = consider_parts(best, t, &t.messages[i].parts, Ghost(done));
        let ghost more = executing_parts(t.messages@[i as int].parts@, ids);
        assert(done + more =~= head + (executing_tools(t.messages@.take(i as int), ids) + more));
        i += 1;
    }
    assert(t.messages@.take(i as int) =~= t.messages@);
    best
}

/// Where no tool names a file or a subject, the activity shown matters at least
/// as much as that of any tool that counts.
pub proof fn law_main_activity_is_heaviest(
    shells: Map<Seq<char>, String>,
    messages: Seq<ChatMessage>,
    tools: Seq<ToolCall>,
    i: int,
)
    requires
        0 <= i < tools.len(),
        forall|k: int|
            #![trigger tools[k]]
            0 <= k < tools.len() ==> activity_of(shells, messages, tools[k]).file is None && activity_of(
                shells,
                messages,
                tools[k],
            ).subject is None,
    ensures
        main_activity(shells, messages, tools) is Some,
        main_activity(shells, messages, tools)->0.label.weight() >= activity_of(
            shells,
            messages,
            tools[i],
        ).label.weight(),
        main_activity(shells, messages, tools)->0.file is None,
        main_activity(shells, messages, tools)->0.subject is None,
    decreases tools.len(),
{
    let front = tools.drop_last();
    assert forall|k: int| #![trigger front[k]] 0 <= k < front.len() implies activity_of(
        shells,
        messages,
        front[k],
    ).file is None && activity_of(shells, messages, front[k]).subject is None by {
        assert(front[k] == tools[k]);
    }
    assert(tools.last() == tools[tools.len() - 1]);
    if front.len() > 0 {
        let j = if i < front.len() {
            i
        } else {
            0
        };
        law_main_activity_is_heaviest(shells, messages, front, j);
        assert(front[j] == tools[j]);
    }
}

/// How many line feeds a text holds from a position on.
pub open spec fn feeds_from(s: Seq<char>, from: int) -> nat
    decreases s.len() - from,
{
    if from < 0 || from >= s.len() {
        0
    } else {
        feeds_from(s, from + 1) + (if s[from] == '\n' {
            1nat
        } else {
            0
        })
    }
}

proof fn lemma_feeds_to_the_first(s: Seq<char>, from: int)
    requires
        0 <= from <= s.len(),
    ensures
        ({
            let end = crate::slicing::first_index(s, '\n', from);
            if end < s.len() {
                feeds_from(s, from) == 1 + feeds_from(s, end + 1)
            } else {
                feeds_from(s, from) == 0
            }
        }),
    decreases s.len() - from,
{
    crate::slicing::lemma_first_index(s, '\n', from);
    if from < s.len() && s[from] != '\n' {
        lemma_feeds_to_the_first(s, from + 1);
    }
}

proof fn lemma_lines_from_len(s: Seq<char>, from: int)
    requires
        0 <= from <= s.len(),
    ensures
        crate::slicing::lines_from(s, from).len() == feeds_from(s, from) + (if from < s.len() && s.last() != '\n' {
            1nat
        } else {
            0
        }),
    decreases s.len() - from,
{
    if from < s.len() {
        crate::slicing::lemma_first_index(s, '\n', from);
        lemma_feeds_to_the_first(s, from);
        let end = crate::slicing::first_index(s, '\n', from);
        if end < s.len() {
            lemma_lines_from_len(s, end + 1);
        } else {
            lemma_no_feed_at_the_end(s, from);
        }
    }
}

proof fn lemma_no_feed_at_the_end(s: Seq<char>, from: int)
    requires
        0 <= from < s.len(),
        crate::slicing::first_index(s, '\n', from) >= s.len(),
    ensures
        s.last() != '\n',
    decreases s.len() - from,
{
    if from + 1 < s.len() {
        lemma_no_feed_at_the_end(s, from + 1);
    }
}

/// A text has as many lines as line feeds, and one more where it does not end in one.
pub proof fn law_every_line_is_counted(text: Seq<char>)
    requires
        text.len() > 0,
    ensures
        line_count(text) == feeds_from(text, 0) + (if text.last() == '\n' {
            0nat
        } else {
            1
        }),
        line_count(text) > 0,
{
    lemma_lines_from_len(text, 0);
    if text.last() == '\n' {
        lemma_feed_at(text, 0, text.len() - 1);
    }
}

proof fn lemma_feed_at(s: Seq<char>, from: int, at: int)
    requires
        0 <= from <= at < s.len(),
        s[at] == '\n',
    ensures
        feeds_from(s, from) > 0,
    decreases at - from,
{
    if from < at {
        lemma_feed_at(s, from + 1, at);
    }
}

/// The same call.
pub open spec fn with_strings(tool: ToolCall, path: String, before: String, after: String) -> ToolCall {
    ToolCall {
        input: ToolInput::Edit { file_path: path, old_string: before, new_string: after },
        output: ToolOutput::Empty,
        ..tool
    }
}

/// An edit adds what it writes and takes away what it replaces: undoing it takes away
/// what it added and adds what it took away. A write only adds.
pub proof fn law_edits_are_counted_both_ways(tool: ToolCall, path: String, before: String, after: String)
    ensures
        file_changed(with_strings(tool, path, before, after)) matches Some((p, adds, dels)) && p == path@ && adds
            == line_count(after@) && file_changed(with_strings(tool, path, after, before)) == Some((p, dels, adds)),
        ({
            let write = ToolCall {
                input: ToolInput::Write { file_path: path, content: after },
                ..with_strings(tool, path, before, after)
            };
            file_changed(write) matches Some((p, adds, dels)) && p == path@ && adds == line_count(after@) && dels == 0
        }),
{
}

/// Once a tool has reported its changes, they count, whatever was asked for.
pub proof fn law_reported_changes_count(tool: ToolCall, input: ToolInput)
    requires
        tool.output is Diff,
    ensures
        file_changed(tool) == Some(
            (
                tool.output->file_path@,
                tool.output->additions as nat,
                tool.output->deletions as nat,
            ),
        ),
        file_changed(ToolCall { input, ..tool }) == file_changed(tool),
{
}

/// One more edit adds its lines to the counts.
pub proof fn law_every_edit_counts(edits: Seq<Json>, edit: Json, old_text: Seq<char>, new_text: Seq<char>)
    requires
        crate::json::text_member(edit, "old_string"@) == Some(old_text),
        crate::json::text_member(edit, "new_string"@) == Some(new_text),
        edit_counts(edits).0 + line_count(new_text) <= usize::MAX,
        edit_counts(edits).1 + line_count(old_text) <= usize::MAX,
    ensures
        edit_counts(edits.push(edit)).0 == edit_counts(edits).0 + line_count(new_text),
        edit_counts(edits.push(edit)).1 == edit_counts(edits).1 + line_count(old_text),
{
    assert(edits.push(edit).drop_last() =~= edits);
}

proof fn lemma_name_end(s: Seq<char>, n: int)
    requires
        0 <= n <= s.len(),
    ensures
        0 <= name_end(s, n) <= n,
        name_end(s, n) > 0 ==> !is_separator(s[name_end(s, n) - 1]),
        forall|i: int| name_end(s, n) <= i < n ==> is_separator(#[trigger] s[i]),
    decreases n,
{
    if n > 0 && is_separator(s[n - 1]) {
        lemma_name_end(s, n - 1);
    }
}

proof fn lemma_name_start(s: Seq<char>, n: int)
    requires
        0 <= n <= s.len(),
    ensures
        0 <= name_start(s, n) <= n,
        name_start(s, n) > 0 ==> is_separator(s[name_start(s, n) - 1]),
        forall|i: int| name_start(s, n) <= i < n ==> !is_separator(#[trigger] s[i]),
    decreases n,
{
    if n > 0 && !is_separator(s[n - 1]) {
        lemma_name_start(s, n - 1);
    }
}

/// The name of a file is the last component of its path: behind it stand only
/// separators, before it one or nothing, and none in it.
pub proof fn law_file_names_are_the_last_component(path: Seq<char>, k: int)
    requires
        0 <= k < path.len(),
        !is_separator(path[k]),
    ensures
        exists|a: int, b: int|
            0 <= a < b <= path.len() && #[trigger] path.subrange(a, b) == file_name(path) && (a > 0 ==> is_separator(
                path[a - 1],
            )) && (forall|i: int| b <= i < path.len() ==> is_separator(#[trigger] path[i])),
        forall|i: int| 0 <= i < file_name(path).len() ==> !is_separator(#[trigger] file_name(path)[i]),
{
    let end = name_end(path, path.len() as int);
    lemma_name_end(path, path.len() as int);
    assert(end > k);
    lemma_name_start(path, end);
    let start = name_start(path, end);
    assert(start < end);
    assert(path.subrange(start, end) == file_name(path));
}

proof fn lemma_executing_parts_has(parts: Seq<MessagePart>, running_ids: Seq<Seq<char>>, k: int)
    requires
        0 <= k < parts.len(),
        parts[k] is Tool,
        is_executing(parts[k]->Tool_0, running_ids),
    ensures
        executing_parts(parts, running_ids).contains(parts[k]->Tool_0),
    decreases parts.len(),
{
    let front = parts.drop_last();
    let tool = parts[k]->Tool_0;
    let before = executing_parts(front, running_ids);
    if k < front.len() {
        lemma_executing_parts_has(front, running_ids, k);
        let i = choose|i: int| 0 <= i < before.len() && before[i] == tool;
        assert(executing_parts(parts, running_ids)[i] == tool);
    } else {
        assert(executing_parts(parts, running_ids)[before.len() as int] == tool);
    }
}

proof fn lemma_executing_tools_has(messages: Seq<ChatMessage>, running_ids: Seq<Seq<char>>, m: int, k: int)
    requires
        0 <= m < messages.len(),
        0 <= k < messages[m].parts@.len(),
        messages[m].parts@[k] is Tool,
        is_executing(messages[m].parts@[k]->Tool_0, running_ids),
    ensures
        executing_tools(messages, running_ids).contains(messages[m].parts@[k]->Tool_0),
    decreases messages.len(),
{
    let front = messages.drop_last();
    let tool = messages[m].parts@[k]->Tool_0;
    let before = executing_tools(front, running_ids);
    if m < front.len() {
        lemma_executing_tools_has(front, running_ids, m, k);
        let i = choose|i: int| 0 <= i < before.len() && before[i] == tool;
        assert(executing_tools(messages, running_ids)[i] == tool);
    } else {
        let parts = messages[m].parts@;
        lemma_executing_parts_has(parts, running_ids, k);
        let more = executing_parts(parts, running_ids);
        let i = choose|i: int| 0 <= i < more.len() && more[i] == tool;
        assert(executing_tools(messages, running_ids)[before.len() + i] == tool);
    }
}

/// Every tool that has not returned counts for the activity: the pending ones, the
/// active ones, and those of any message of the conversation.
pub proof fn law_unreturned_tools_count(t: TurnTools, m: int, k: int)
    ensures
        0 <= k < t.pending_tool_calls@.len() ==> counted_tools(t).contains(t.pending_tool_calls@[k]),
        0 <= k < t.active_tool_calls@.len() ==> counted_tools(t).contains(t.active_tool_calls@[k]),
        0 <= m < t.messages@.len() && 0 <= k < t.messages@[m].parts@.len() ==> match t.messages@[m].parts@[k] {
            MessagePart::Tool(tool) => (tool.status == ToolStatus::Running || tool.status == ToolStatus::Pending
                || texts(t.in_progress_ids@).contains(tool.id@)) ==> counted_tools(t).contains(tool),
            _ => true,
        },
{
    let p = t.pending_tool_calls@;
    let a = t.active_tool_calls@;
    let all = counted_tools(t);
    if 0 <= k < p.len() {
        assert(all[k] == p[k]);
    }
    if 0 <= k < a.len() {
        assert(all[p.len() + k] == a[k]);
    }
    if 0 <= m < t.messages@.len() && 0 <= k < t.messages@[m].parts@.len() && t.messages@[m].parts@[k] is Tool
        && is_executing(t.messages@[m].parts@[k]->Tool_0, texts(t.in_progress_ids@)) {
        let ids = texts(t.in_progress_ids@);
        lemma_executing_tools_has(t.messages@, ids, m, k);
        let more = executing_tools(t.messages@, ids);
        let tool = t.messages@[m].parts@[k]->Tool_0;
        let i = choose|i: int| 0 <= i < more.len() && more[i] == tool;
        assert(all[p.len() + a.len() + i] == tool);
    }
}

/// A turn with a tool at work has an activity, and one without has none; it is the
/// activity of one of these tools.
pub proof fn law_activity_is_that_of_a_tool(
    shells: Map<Seq<char>, String>,
    messages: Seq<ChatMessage>,
    tools: Seq<ToolCall>,
)
    ensures
        main_activity(shells, messages, tools) is Some <==> tools.len() > 0,
        tools.len() > 0 ==> exists|i: int|
            0 <= i < tools.len() && main_activity(shells, messages, tools) == Some(
                activity_of(shells, messages, #[trigger] tools[i]),
            ),
    decreases tools.len(),
{
    if tools.len() > 0 {
        let front = tools.drop_last();
        law_activity_is_that_of_a_tool(shells, messages, front);
        let best = main_activity(shells, messages, front);
        let a = activity_of(shells, messages, tools.last());
        if replaces(a, best) {
            assert(main_activity(shells, messages, tools) == Some(
                activity_of(shells, messages, tools[tools.len() - 1]),
            ));
        } else {
            let i = choose|i: int|
                0 <= i < front.len() && best == Some(activity_of(shells, messages, #[trigger] front[i]));
            assert(main_activity(shells, messages, tools) == Some(activity_of(shells, messages, tools[i])));
        }
    }
}

proof fn lemma_first_words(all: Seq<Seq<char>>, from: int)
    requires
        0 <= from <= all.len(),
    ensures
        match first_words(all, from) {
            Some(w) => exists|i: int|
                from <= i < all.len() && w == trimmed(#[trigger] all[i]) && w.len() > 0 && forall|j: int|
                    from <= j < i ==> trimmed(#[trigger] all[j]).len() == 0,
            None => forall|j: int| from <= j < all.len() ==> trimmed(#[trigger] all[j]).len() == 0,
        },
    decreases all.len() - from,
{
    if from < all.len() && trimmed(all[from]).len() == 0 {
        lemma_first_words(all, from + 1);
        match first_words(all, from + 1) {
            Some(w) => {
                let i = choose|i: int|
                    from + 1 <= i < all.len() && w == trimmed(#[trigger] all[i]) && w.len() > 0 && forall|j: int|
                        from + 1 <= j < i ==> trimmed(#[trigger] all[j]).len() == 0;
                assert(w == trimmed(all[i]));
            },
            None => {
            },
        }
    } else if from < all.len() {
        assert(first_words(all, from) == Some(trimmed(all[from])));
    }
}

/// The subject of a command is its first line that says anything, and no other.
pub proof fn law_commands_are_known_by_their_first_line(
    shells: Map<Seq<char>, String>,
    messages: Seq<ChatMessage>,
    tool: ToolCall,
    command: String,
    i: int,
)
    requires
        tool.input == (ToolInput::Bash { command }),
        0 <= i < lines_of(command@).len(),
        trimmed(lines_of(command@)[i]).len() > 0,
        forall|j: int| 0 <= j < i ==> trimmed(#[trigger] lines_of(command@)[j]).len() == 0,
        trimmed(lines_of(command@)[i]).len() <= 64,
    ensures
        subject_of(shells, messages, tool) == Some(trimmed(lines_of(command@)[i])),
{
    lemma_first_words(lines_of(command@), 0);
    let all = lines_of(command@);
    assert(trimmed(all[i]).len() > 0);
}

proof fn lemma_command_in_parts(parts: Seq<MessagePart>, id: Seq<char>, n: nat, k: int)
    requires
        0 <= k < n <= parts.len(),
        starts_shell(parts[k], id) is Some,
        forall|j: int| k < j < n ==> starts_shell(#[trigger] parts[j], id) is None,
    ensures
        command_in_parts(parts, id, n) == starts_shell(parts[k], id),
    decreases n,
{
    if k < n - 1 {
        lemma_command_in_parts(parts, id, (n - 1) as nat, k);
    }
}

proof fn lemma_no_command_in_parts(parts: Seq<MessagePart>, id: Seq<char>, n: nat)
    requires
        n <= parts.len(),
        forall|j: int| 0 <= j < n ==> starts_shell(#[trigger] parts[j], id) is None,
    ensures
        command_in_parts(parts, id, n) is None,
    decreases n,
{
    if n > 0 {
        lemma_no_command_in_parts(parts, id, (n - 1) as nat);
    }
}

/// A shell that is not listed is known by the command that started it, and by the
/// latest where several did.
pub proof fn law_shells_are_known_by_their_command(messages: Seq<ChatMessage>, id: Seq<char>, n: nat, m: int, k: int)
    requires
        0 <= m < n <= messages.len(),
        0 <= k < messages[m].parts@.len(),
        starts_shell(messages[m].parts@[k], id) is Some,
        forall|j: int| k < j < messages[m].parts@.len() ==> starts_shell(#[trigger] messages[m].parts@[j], id) is None,
        forall|l: int, j: int|
            #![trigger messages[l].parts@[j]]
            m < l < n && 0 <= j < messages[l].parts@.len() ==> starts_shell(messages[l].parts@[j], id) is None,
    ensures
        command_in_messages(messages, id, n) == starts_shell(messages[m].parts@[k], id),
    decreases n,
{
    let parts = messages[n - 1].parts@;
    if m < n - 1 {
        assert forall|j: int| 0 <= j < parts.len() implies starts_shell(#[trigger] parts[j], id) is None by {
            assert(starts_shell(messages[n - 1].parts@[j], id) is None);
        }
        lemma_no_command_in_parts(parts, id, parts.len());
        law_shells_are_known_by_their_command(messages, id, (n - 1) as nat, m, k);
    } else {
        lemma_command_in_parts(parts, id, parts.len(), k);
    }
}

/// What a tool looks for stands in its subject, with the place where it looks, as far
/// as there is room.
pub proof fn law_searches_name_what_they_look_for(what: Seq<char>, path: Option<Seq<char>>)
    ensures
        crate::slicing::has_prefix(placed_in(what, path), what),
        path is Some ==> crate::slicing::has_suffix(placed_in(what, path), path->0),
        path is None ==> placed_in(what, path) == what,
{
    let s = placed_in(what, path);
    assert(s.subrange(0, what.len() as int) =~= what);
    if path is Some {
        assert(s.subrange(s.len() - path->0.len(), s.len() as int) =~= path->0);
    }
}

/// A shell that is listed is known by its listing, whatever the messages say; one that is
/// not by the messages alone. Either way one short line is given.
pub proof fn law_listed_shells_come_first(
    shells: Map<Seq<char>, String>,
    others: Map<Seq<char>, String>,
    messages: Seq<ChatMessage>,
    more: Seq<ChatMessage>,
    id: Seq<char>,
)
    ensures
        shells.contains_key(id) && first_line(shells[id]@) is Some ==> shell_command(shells, messages, id)
            == first_line(shells[id]@),
        shells.contains_key(id) && first_line(shells[id]@) is Some ==> shell_command(shells, messages, id)
            == shell_command(shells, more, id),
        !shells.contains_key(id) && !others.contains_key(id) ==> shell_command(shells, messages, id) == shell_command(
            others,
            messages,
            id,
        ),
        shell_command(shells, messages, id) is Some ==> shell_command(shells, messages, id)->0.len() <= 64,
{
    if shells.contains_key(id) {
        if first_words(lines_of(shells[id]@), 0) is Some {
            crate::fitting::law_shortened_fits(first_words(lines_of(shells[id]@), 0)->0, 64);
        }
    }
    if command_in_messages(messages, id, messages.len()) is Some {
        let c = command_in_messages(messages, id, messages.len())->0;
        if first_words(lines_of(c), 0) is Some {
            crate::fitting::law_shortened_fits(first_words(lines_of(c), 0)->0, 64);
        }
    }
}

/// Work is told in the order of what it changes: creating before editing, editing
/// before running, running before looking for something, and that before reading and
/// planning.
pub proof fn law_changes_matter_most()
    ensures
        ActivityLabel::Creating.weight() > ActivityLabel::Editing.weight(),
        ActivityLabel::Editing.weight() > ActivityLabel::Running.weight(),
        ActivityLabel::Running.weight() > ActivityLabel::Searching.weight(),
        ActivityLabel::Searching.weight() > ActivityLabel::Reading.weight(),
        ActivityLabel::Reading.weight() > ActivityLabel::Planning.weight(),
        ActivityLabel::Planning.weight() > ActivityLabel::Working.weight(),
{
}

/// A file that is read is named by its last component, shortened where it is long.
pub proof fn law_files_that_are_read_are_named(file_path: String)
    ensures
        file_name(file_path@).len() <= 48 ==> plain_subject(ToolInput::Read { file_path }) == Some(
            file_name(file_path@),
        ),
        file_name(file_path@).len() > 48 ==> plain_subject(ToolInput::Read { file_path }) is Some && plain_subject(
            ToolInput::Read { file_path },
        )->0.len() == 48,
{
    crate::fitting::law_fitting_texts_are_shown_whole(file_name(file_path@), 48);
}

} // verus!

//! The conversation: messages, their parts, and the tool calls in them.
//!
//! Each kind of value has a model that says what it holds: texts as sequences
//! of characters, lists as sequences of models.
use vstd::prelude::*;

use crate::time::Instant;

verus! {

/// Who speaks.
#[derive(Debug, Clone, Copy, PartialEq, Eq, Structural)]
pub enum Role {
    User,
    Assistant,
}

/// Where a piece of work stands. Tools and background tasks share it.
#[derive(Debug, Clone, Copy, PartialEq, Eq, Structural)]
pub enum Lifecycle {
    Pending,
    Running,
    Idle,
    Completed,
    Failed,
    Cancelled,
}

/// Status of a tool call.
pub type ToolStatus = Lifecycle;

/// Status of a background task.
pub type TaskLifecycle = Lifecycle;

impl Lifecycle {
    /// Nothing more will happen.
    pub open spec fn ended(self) -> bool {
        self == Lifecycle::Completed || self == Lifecycle::Failed || self == Lifecycle::Cancelled
    }

    pub fn is_terminal(self) -> (r: bool)
        ensures
            r == self.ended(),
    {
        matches!(self, Lifecycle::Completed | Lifecycle::Failed | Lifecycle::Cancelled)
    }

    pub fn is_alive(self) -> (r: bool)
        ensures
            r == !self.ended(),
    {
        !self.is_terminal()
    }
}

/// The tools.
#[derive(Debug, Clone, Copy, PartialEq, Eq, Structural)]
pub enum ToolKind {
    ApplyPatch,
    Bash,
    BashOutput,
    Edit,
    Glob,
    Grep,
    HcomRun,
    HcomTerm,
    Lsp,
    MultiEdit,
    NotebookEdit,
    NotebookRead,
    PlanAdvance,
    PlanArchive,
    PlanCreate,
    PlanList,
    PlanMaterialize,
    PlanShow,
    Read,
    Search,
    Task,
    TaskCreate,
    TaskDone,
    TaskGet,
    TaskList,
    TaskStop,
    TaskUpdate,
    TaskValidate,
    ToolSearch,
    WebFetch,
    WebSearch,
    Write,
    Other,
}

impl ToolKind {
    /// The name of the tool.
    pub open spec fn name(self) -> Seq<char> {
        match self {
            ToolKind::ApplyPatch => "ApplyPatch"@,
            ToolKind::Bash => "Bash"@,
            ToolKind::BashOutput => "BashOutput"@,
            ToolKind::Edit => "Edit"@,
            ToolKind::Glob => "Glob"@,
            ToolKind::Grep => "Grep"@,
            ToolKind::HcomRun => "HcomRun"@,
            ToolKind::HcomTerm => "HcomTerm"@,
            ToolKind::Lsp => "Lsp"@,
            ToolKind::MultiEdit => "MultiEdit"@,
            ToolKind::NotebookEdit => "NotebookEdit"@,
            ToolKind::NotebookRead => "NotebookRead"@,
            ToolKind::PlanAdvance => "PlanAdvance"@,
            ToolKind::PlanArchive => "PlanArchive"@,
            ToolKind::PlanCreate => "PlanCreate"@,
            ToolKind::PlanList => "PlanList"@,
            ToolKind::PlanMaterialize => "PlanMaterialize"@,
            ToolKind::PlanShow => "PlanShow"@,
            ToolKind::Read => "Read"@,
            ToolKind::Search => "Search"@,
            ToolKind::Task => "Task"@,
            ToolKind::TaskCreate => "TaskCreate"@,
            ToolKind::TaskDone => "TaskDone"@,
            ToolKind::TaskGet => "TaskGet"@,
            ToolKind::TaskList => "TaskList"@,
            ToolKind::TaskStop => "TaskStop"@,
            ToolKind::TaskUpdate => "TaskUpdate"@,
            ToolKind::TaskValidate => "TaskValidate"@,
            ToolKind::ToolSearch => "ToolSearch"@,
            ToolKind::WebFetch => "WebFetch"@,
            ToolKind::WebSearch => "WebSearch"@,
            ToolKind::Write => "Write"@,
            ToolKind::Other => "Tool"@,
        }
    }

    pub fn label(self) -> (r: &'static str)
        ensures
            r@ == self.name(),
    {
        match self {
            ToolKind::ApplyPatch => "ApplyPatch",
            ToolKind::Bash => "Bash",
            ToolKind::BashOutput => "BashOutput",
            ToolKind::Edit => "Edit",
            ToolKind::Glob => "Glob",
            ToolKind::Grep => "Grep",
            ToolKind::HcomRun => "HcomRun",
            ToolKind::HcomTerm => "HcomTerm",
            ToolKind::Lsp => "Lsp",
            ToolKind::MultiEdit => "MultiEdit",
            ToolKind::NotebookEdit => "NotebookEdit",
            ToolKind::NotebookRead => "NotebookRead",
            ToolKind::PlanAdvance => "PlanAdvance",
            ToolKind::PlanArchive => "PlanArchive",
            ToolKind::PlanCreate => "PlanCreate",
            ToolKind::PlanList => "PlanList",
            ToolKind::PlanMaterialize => "PlanMaterialize",
            ToolKind::PlanShow => "PlanShow",
            ToolKind::Read => "Read",
            ToolKind::Search => "Search",
            ToolKind::Task => "Task",
            ToolKind::TaskCreate => "TaskCreate",
            ToolKind::TaskDone => "TaskDone",
            ToolKind::TaskGet => "TaskGet",
            ToolKind::TaskList => "TaskList",
            ToolKind::TaskStop => "TaskStop",
            ToolKind::TaskUpdate => "TaskUpdate",
            ToolKind::TaskValidate => "TaskValidate",
            ToolKind::ToolSearch => "ToolSearch",
            ToolKind::WebFetch => "WebFetch",
            ToolKind::WebSearch => "WebSearch",
            ToolKind::Write => "Write",
            ToolKind::Other => "Tool",
        }
    }
}

/// What a tool was called with, as far as it is looked at.
#[derive(Debug)]
pub enum ToolInput {
    Generic { summary: String },
    Bash { command: String },
    BashOutput { task_id: String },
    Read { file_path: String },
    Write { file_path: String, content: String },
    Edit { file_path: String, old_string: String, new_string: String },
    /// The edits are kept as the lines they add and remove.
    MultiEdit { file_path: String, added_lines: usize, removed_lines: usize },
    NotebookEdit { path: String },
    Glob { pattern: String, path: Option<String> },
    Grep { pattern: String, path: Option<String> },
    Search { query: String, path: Option<String> },
    WebFetch { url: String },
    WebSearch { query: String },
    ToolSearch { query: String },
    Lsp { kind: String, file: String, line: u64 },
    Hcom { summary: String },
}

fn clone_opt(s: &Option<String>) -> (r: Option<String>)
    ensures
        r == *s,
{
    match s {
        Some(t) => Some(t.clone()),
        None => None,
    }
}

impl Clone for ToolInput {
    fn clone(&self) -> (r: Self)
        ensures
            r == *self,
    {
        match self {
            ToolInput::Generic { summary } => ToolInput::Generic { summary: summary.clone() },
            ToolInput::Bash { command } => ToolInput::Bash { command: command.clone() },
            ToolInput::BashOutput { task_id } => ToolInput::BashOutput { task_id: task_id.clone() },
            ToolInput::Read { file_path } => ToolInput::Read { file_path: file_path.clone() },
            ToolInput::Write { file_path, content } => ToolInput::Write {
                file_path: file_path.clone(),
                content: content.clone(),
            },
            ToolInput::Edit { file_path, old_string, new_string } => ToolInput::Edit {
                file_path: file_path.clone(),
                old_string: old_string.clone(),
                new_string: new_string.clone(),
            },
            ToolInput::MultiEdit { file_path, added_lines, removed_lines } => ToolInput::MultiEdit {
                file_path: file_path.clone(),
                added_lines: *added_lines,
                removed_lines: *removed_lines,
            },
            ToolInput::NotebookEdit { path } => ToolInput::NotebookEdit { path: path.clone() },
            ToolInput::Glob { pattern, path } => ToolInput::Glob {
                pattern: pattern.clone(),
                path: clone_opt(path),
            },
            ToolInput::Grep { pattern, path } => ToolInput::Grep {
                pattern: pattern.clone(),
                path: clone_opt(path),
            },
            ToolInput::Search { query, path } => ToolInput::Search {
                query: query.clone(),
                path: clone_opt(path),
            },
            ToolInput::WebFetch { url } => ToolInput::WebFetch { url: url.clone() },
            ToolInput::WebSearch { query } => ToolInput::WebSearch { query: query.clone() },
            ToolInput::ToolSearch { query } => ToolInput::ToolSearch { query: query.clone() },
            ToolInput::Lsp { kind, file, line } => ToolInput::Lsp {
                kind: kind.clone(),
                file: file.clone(),
                line: *line,
            },
            ToolInput::Hcom { summary } => ToolInput::Hcom { summary: summary.clone() },
        }
    }
}

/// What a tool returned.
#[derive(Debug)]
pub enum ToolOutput {
    Empty,
    Text(String),
    /// Text that is kept apart because of its size.
    LargeText(String),
    /// A change to a file.
    Diff { file_path: String, additions: usize, deletions: usize },
}

impl Clone for ToolOutput {
    fn clone(&self) -> (r: Self)
        ensures
            r == *self,
    {
        match self {
            ToolOutput::Empty => ToolOutput::Empty,
            ToolOutput::Text(t) => ToolOutput::Text(t.clone()),
            ToolOutput::LargeText(t) => ToolOutput::LargeText(t.clone()),
            ToolOutput::Diff { file_path, additions, deletions } => ToolOutput::Diff {
                file_path: file_path.clone(),
                additions: *additions,
                deletions: *deletions,
            },
        }
    }
}

/// How a tool call is shown.
#[derive(Debug, Clone, Copy, PartialEq, Eq, Structural)]
pub struct ToolDisplayState {
    pub expanded: bool,
    pub pinned: bool,
}

impl Default for ToolDisplayState {
    fn default() -> (r: Self)
        ensures
            !r.expanded,
            !r.pinned,
    {
        ToolDisplayState { expanded: false, pinned: false }
    }
}

impl ToolDisplayState {
    /// How a call is shown after a click.
    pub open spec fn clicked(self) -> Self {
        ToolDisplayState { expanded: !self.expanded, pinned: self.pinned }
    }

    /// How a call is shown after a double click.
    pub open spec fn clicked_twice(self) -> Self {
        ToolDisplayState { expanded: self.expanded || !self.pinned, pinned: !self.pinned }
    }

    /// A click flips between preview and full content.
    pub fn toggle_expanded(&mut self)
        ensures
            *final(self) == old(self).clicked(),
    {
        self.expanded = !self.expanded;
    }

    /// A double click flips the pin. Pinning expands; unpinning leaves the
    /// rest as it is.
    pub fn toggle_pinned(&mut self)
        ensures
            *final(self) == old(self).clicked_twice(),
    {
        self.pinned = !self.pinned;
        if self.pinned {
            self.expanded = true;
        }
    }
}

/// One call of a tool.
#[derive(Debug)]
pub struct ToolCall {
    pub id: String,
    pub kind: ToolKind,
    pub status: ToolStatus,
    pub input: ToolInput,
    pub output: ToolOutput,
    pub display: ToolDisplayState,
    pub elapsed_ms: Option<u64>,
    pub started_at: Option<Instant>,
    pub thought_signature: Option<String>,
}

impl Clone for ToolCall {
    fn clone(&self) -> (r: Self)
        ensures
            r == *self,
    {
        ToolCall {
            id: self.id.clone(),
            kind: self.kind,
            status: self.status,
            input: self.input.clone(),
            output: self.output.clone(),
            display: self.display,
            elapsed_ms: self.elapsed_ms,
            started_at: self.started_at,
            thought_signature: clone_opt(&self.thought_signature),
        }
    }
}

/// One part of a message.
#[derive(Debug)]
pub enum MessagePart {
    Text(String),
    Reasoning(String),
    Advisor(String),
    RedactedThinking(String),
    Tool(ToolCall),
    TaskStatus(String),
    CompactBoundary { pre_tokens: u64 },
}

impl MessagePart {
    pub fn tool(call: ToolCall) -> (r: Self)
        ensures
            r == MessagePart::Tool(call),
    {
        MessagePart::Tool(call)
    }
}

impl Clone for MessagePart {
    fn clone(&self) -> (r: Self)
        ensures
            r == *self,
    {
        match self {
            MessagePart::Text(s) => MessagePart::Text(s.clone()),
            MessagePart::Reasoning(s) => MessagePart::Reasoning(s.clone()),
            MessagePart::Advisor(s) => MessagePart::Advisor(s.clone()),
            MessagePart::RedactedThinking(s) => MessagePart::RedactedThinking(s.clone()),
            MessagePart::Tool(t) => MessagePart::Tool(t.clone()),
            MessagePart::TaskStatus(s) => MessagePart::TaskStatus(s.clone()),
            MessagePart::CompactBoundary { pre_tokens } => MessagePart::CompactBoundary {
                pre_tokens: *pre_tokens,
            },
        }
    }
}

#[derive(Debug, Clone, Copy, PartialEq, Eq, Structural)]
pub enum AttachmentKind {
    ImagePng,
    ImageJpeg,
    ImageGif,
    ImageWebp,
}

/// A file that goes with a message.
#[derive(Debug)]
pub struct Attachment {
    pub id: u64,
    pub kind: AttachmentKind,
    pub bytes: Vec<u8>,
}

/// Token usage of a message. Money is counted in billionths of a dollar.
#[derive(Debug, Clone, Copy, PartialEq, Eq)]
pub struct ModelUsage {
    pub input_tokens: u64,
    pub output_tokens: u64,
    pub cache_read_tokens: u64,
    pub cache_write_tokens: u64,
    pub cost_usd: Option<u64>,
}

/// One message of the conversation.
#[derive(Debug)]
pub struct ChatMessage {
    pub role: Role,
    pub parts: Vec<MessagePart>,
    pub attachments: Vec<Attachment>,
    /// Typed but not sent yet.
    pub queued: bool,
    pub agent_name: Option<String>,
    pub model_name: Option<String>,
    pub cost_tier: Option<String>,
    pub elapsed: Option<String>,
    pub usage: Option<ModelUsage>,
}

// ── models ──────────────────────────────────────────────────────────────

/// What a tool returned.
pub enum OutputModel {
    Empty,
    Text(Seq<char>),
    LargeText(Seq<char>),
    Diff(Seq<char>, nat, nat),
}

/// One call of a tool.
pub struct ToolModel {
    pub id: Seq<char>,
    pub kind: ToolKind,
    pub status: ToolStatus,
    pub input: ToolInput,
    pub output: OutputModel,
    pub display: ToolDisplayState,
    pub elapsed_ms: Option<u64>,
    pub started_at: Option<Instant>,
    pub thought_signature: Option<String>,
}

/// One part of a message.
pub enum PartModel {
    Text(Seq<char>),
    Reasoning(Seq<char>),
    Advisor(Seq<char>),
    RedactedThinking(Seq<char>),
    Tool(ToolModel),
    TaskStatus(Seq<char>),
    CompactBoundary(u64),
}

/// One message.
pub struct MessageModel {
    pub role: Role,
    pub parts: Seq<PartModel>,
    pub attachments: Seq<(u64, AttachmentKind, Seq<u8>)>,
    pub queued: bool,
    pub agent_name: Option<String>,
    pub model_name: Option<String>,
    pub cost_tier: Option<String>,
    pub elapsed: Option<String>,
    pub usage: Option<ModelUsage>,
}

pub open spec fn output_model(o: ToolOutput) -> OutputModel {
    match o {
        ToolOutput::Empty => OutputModel::Empty,
        ToolOutput::Text(t) => OutputModel::Text(t@),
        ToolOutput::LargeText(t) => OutputModel::LargeText(t@),
        ToolOutput::Diff { file_path, additions, deletions } => OutputModel::Diff(
            file_path@,
            additions as nat,
            deletions as nat,
        ),
    }
}

pub open spec fn tool_model(t: ToolCall) -> ToolModel {
    ToolModel {
        id: t.id@,
        kind: t.kind,
        status: t.status,
        input: t.input,
        output: output_model(t.output),
        display: t.display,
        elapsed_ms: t.elapsed_ms,
        started_at: t.started_at,
        thought_signature: t.thought_signature,
    }
}

pub open spec fn part_model(p: MessagePart) -> PartModel {
    match p {
        MessagePart::Text(s) => PartModel::Text(s@),
        MessagePart::Reasoning(s) => PartModel::Reasoning(s@),
        MessagePart::Advisor(s) => PartModel::Advisor(s@),
        MessagePart::RedactedThinking(s) => PartModel::RedactedThinking(s@),
        MessagePart::Tool(t) => PartModel::Tool(tool_model(t)),
        MessagePart::TaskStatus(s) => PartModel::TaskStatus(s@),
        MessagePart::CompactBoundary { pre_tokens } => PartModel::CompactBoundary(pre_tokens),
    }
}

/// The parts of a list.
pub open spec fn part_models(v: Seq<MessagePart>) -> Seq<PartModel> {
    v.map_values(|p: MessagePart| part_model(p))
}

pub open spec fn attachment_model(a: Attachment) -> (u64, AttachmentKind, Seq<u8>) {
    (a.id, a.kind, a.bytes@)
}

pub open spec fn attachment_models(v: Seq<Attachment>) -> Seq<(u64, AttachmentKind, Seq<u8>)> {
    v.map_values(|a: Attachment| attachment_model(a))
}

pub open spec fn message_model(m: ChatMessage) -> MessageModel {
    MessageModel {
        role: m.role,
        parts: part_models(m.parts@),
        attachments: attachment_models(m.attachments@),
        queued: m.queued,
        agent_name: m.agent_name,
        model_name: m.model_name,
        cost_tier: m.cost_tier,
        elapsed: m.elapsed,
        usage: m.usage,
    }
}

/// The messages of a conversation.
pub open spec fn message_models(v: Seq<ChatMessage>) -> Seq<MessageModel> {
    v.map_values(|m: ChatMessage| message_model(m))
}

pub broadcast proof fn lemma_part_models_push(v: Seq<MessagePart>, p: MessagePart)
    ensures
        #[trigger] part_models(v.push(p)) == part_models(v).push(part_model(p)),
{
    assert(part_models(v.push(p)) =~= part_models(v).push(part_model(p)));
}

pub broadcast proof fn lemma_attachment_models_push(v: Seq<Attachment>, a: Attachment)
    ensures
        #[trigger] attachment_models(v.push(a)) == attachment_models(v).push(attachment_model(a)),
{
    assert(attachment_models(v.push(a)) =~= attachment_models(v).push(attachment_model(a)));
}

pub broadcast proof fn lemma_message_models_push(v: Seq<ChatMessage>, m: ChatMessage)
    ensures
        #[trigger] message_models(v.push(m)) == message_models(v).push(message_model(m)),
{
    assert(message_models(v.push(m)) =~= message_models(v).push(message_model(m)));
}

pub broadcast group group_models {
    lemma_part_models_push,
    lemma_attachment_models_push,
    lemma_message_models_push,
}

// ── copying and making messages ─────────────────────────────────────────

impl Clone for Attachment {
    fn clone(&self) -> (r: Self)
        ensures
            attachment_model(r) == attachment_model(*self),
    {
        let mut bytes: Vec<u8> = Vec::new();
        let mut i: usize = 0;
        while i < self.bytes.len()
            invariant
                i <= self.bytes@.len(),
                bytes@ == self.bytes@.take(i as int),
            decreases self.bytes@.len() - i,
        {
            bytes.push(self.bytes[i]);
            assert(self.bytes@.take(i + 1) =~= self.bytes@.take(i as int).push(
                self.bytes@[i as int],
            ));
            i += 1;
        }
        assert(self.bytes@.take(i as int) =~= self.bytes@);
        Attachment { id: self.id, kind: self.kind, bytes }
    }
}

/// Append copies of `more`.
pub fn extend_attachments(out: &mut Vec<Attachment>, more: &Vec<Attachment>)
    ensures
        attachment_models(final(out)@) == attachment_models(old(out)@) + attachment_models(more@),
{
    broadcast use group_models;

    let mut i: usize = 0;
    let ghost all = attachment_models(more@);
    assert(attachment_models(out@) + all.take(0) =~= attachment_models(out@));
    while i < more.len()
        invariant
            i <= more@.len(),
            all == attachment_models(more@),
            attachment_models(out@) == attachment_models(old(out)@) + all.take(i as int),
        decreases more@.len() - i,
    {
        let copy = more[i].clone();
        let ghost before = out@;
        out.push(copy);
        assert(attachment_models(out@) == attachment_models(before).push(all[i as int]));
        assert(attachment_models(out@) =~= attachment_models(old(out)@) + all.take(i + 1));
        i += 1;
    }
    assert(all.take(i as int) =~= all);
}

/// Copies of the parts of `v`.
pub fn clone_parts(v: &Vec<MessagePart>) -> (r: Vec<MessagePart>)
    ensures
        r@ == v@,
{
    let mut out: Vec<MessagePart> = Vec::new();
    let mut i: usize = 0;
    while i < v.len()
        invariant
            i <= v@.len(),
            out@ == v@.take(i as int),
        decreases v@.len() - i,
    {
        out.push(v[i].clone());
        assert(v@.take(i + 1) =~= v@.take(i as int).push(v@[i as int]));
        i += 1;
    }
    assert(v@.take(i as int) =~= v@);
    out
}

impl Clone for ChatMessage {
    fn clone(&self) -> (r: Self)
        ensures
            message_model(r) == message_model(*self),
    {
        let mut attachments: Vec<Attachment> = Vec::new();
        extend_attachments(&mut attachments, &self.attachments);
        assert(attachment_models(attachments@) =~= attachment_models(self.attachments@));
        ChatMessage {
            role: self.role,
            parts: clone_parts(&self.parts),
            attachments,
            queued: self.queued,
            agent_name: clone_opt(&self.agent_name),
            model_name: clone_opt(&self.model_name),
            cost_tier: clone_opt(&self.cost_tier),
            elapsed: clone_opt(&self.elapsed),
            usage: self.usage,
        }
    }
}

/// A message that holds `parts` and nothing else.
pub open spec fn plain_message(role: Role, parts: Seq<PartModel>) -> MessageModel {
    MessageModel {
        role,
        parts,
        attachments: Seq::empty(),
        queued: false,
        agent_name: None,
        model_name: None,
        cost_tier: None,
        elapsed: None,
        usage: None,
    }
}

/// The message is the mark left by a compaction.
pub open spec fn is_boundary(m: MessageModel) -> bool {
    exists|i: int| 0 <= i < m.parts.len() && (#[trigger] m.parts[i]) is CompactBoundary
}

impl ChatMessage {
    fn with_parts(role: Role, parts: Vec<MessagePart>) -> (r: Self)
        ensures
            message_model(r) == plain_message(role, part_models(parts@)),
    {
        let r = ChatMessage {
            role,
            parts,
            attachments: Vec::new(),
            queued: false,
            agent_name: None,
            model_name: None,
            cost_tier: None,
            elapsed: None,
            usage: None,
        };
        assert(attachment_models(r.attachments@) =~= Seq::empty());
        r
    }

    /// A message of the user with one text part.
    pub fn user(text: String) -> (r: Self)
        ensures
            message_model(r) == plain_message(Role::User, seq![PartModel::Text(text@)]),
    {
        let mut parts: Vec<MessagePart> = Vec::new();
        parts.push(MessagePart::Text(text));
        assert(part_models(parts@) =~= seq![PartModel::Text(text@)]);
        Self::with_parts(Role::User, parts)
    }

    /// A message of the assistant with one text part.
    pub fn assistant(text: String) -> (r: Self)
        ensures
            message_model(r) == plain_message(Role::Assistant, seq![PartModel::Text(text@)]),
    {
        let mut parts: Vec<MessagePart> = Vec::new();
        parts.push(MessagePart::Text(text));
        assert(part_models(parts@) =~= seq![PartModel::Text(text@)]);
        Self::with_parts(Role::Assistant, parts)
    }

    /// A message of the assistant with the given parts.
    pub fn assistant_parts(parts: Vec<MessagePart>) -> (r: Self)
        ensures
            message_model(r) == plain_message(Role::Assistant, part_models(parts@)),
    {
        Self::with_parts(Role::Assistant, parts)
    }

    /// Whether the message is the mark left by a compaction.
    pub fn is_compact_boundary(&self) -> (r: bool)
        ensures
            r == is_boundary(message_model(*self)),
    {
        let ghost model = message_model(*self);
        let mut i: usize = 0;
        while i < self.parts.len()
            invariant
                i <= self.parts@.len(),
                model == message_model(*self),
                forall|j: int| 0 <= j < i ==> !((#[trigger] model.parts[j]) is CompactBoundary),
            decreases self.parts@.len() - i,
        {
            assert(model.parts[i as int] == part_model(self.parts@[i as int]));
            if let MessagePart::CompactBoundary { .. } = &self.parts[i] {
                return true;
            }
            i += 1;
        }
        false
    }
}

/// The model of a message holds all that the message does: messages with the same model
/// say the same, did the same and carry the same.
pub proof fn law_models_forget_nothing(a: ChatMessage, b: ChatMessage, k: int)
    requires
        message_model(a) == message_model(b),
    ensures
        a.role == b.role,
        a.queued == b.queued,
        a.agent_name == b.agent_name,
        a.model_name == b.model_name,
        a.cost_tier == b.cost_tier,
        a.elapsed == b.elapsed,
        a.usage == b.usage,
        a.attachments@.len() == b.attachments@.len(),
        a.parts@.len() == b.parts@.len(),
        0 <= k < a.parts@.len() ==> match (a.parts@[k], b.parts@[k]) {
            (MessagePart::Text(s), MessagePart::Text(t)) => s@ == t@,
            (MessagePart::Reasoning(s), MessagePart::Reasoning(t)) => s@ == t@,
            (MessagePart::Advisor(s), MessagePart::Advisor(t)) => s@ == t@,
            (MessagePart::RedactedThinking(s), MessagePart::RedactedThinking(t)) => s@ == t@,
            (MessagePart::TaskStatus(s), MessagePart::TaskStatus(t)) => s@ == t@,
            (MessagePart::CompactBoundary { pre_tokens: m }, MessagePart::CompactBoundary { pre_tokens: n }) => m == n,
            (MessagePart::Tool(s), MessagePart::Tool(t)) => s.id@ == t.id@ && s.kind == t.kind && s.status == t.status
                && s.input == t.input && s.display == t.display && s.elapsed_ms == t.elapsed_ms && s.started_at
                == t.started_at && output_model(s.output) == output_model(t.output),
            _ => false,
        },
{
    assert(part_models(a.parts@).len() == a.parts@.len());
    assert(part_models(b.parts@).len() == b.parts@.len());
    assert(attachment_models(a.attachments@).len() == a.attachments@.len());
    assert(attachment_models(b.attachments@).len() == b.attachments@.len());
    if 0 <= k < a.parts@.len() {
        assert(part_models(a.parts@)[k] == part_model(a.parts@[k]));
        assert(part_models(b.parts@)[k] == part_model(b.parts@[k]));
    }
}

/// The model of an output holds what was put out.
pub proof fn law_outputs_are_told_apart(a: ToolOutput, b: ToolOutput)
    requires
        output_model(a) == output_model(b),
    ensures
        match (a, b) {
            (ToolOutput::Empty, ToolOutput::Empty) => true,
            (ToolOutput::Text(s), ToolOutput::Text(t)) => s@ == t@,
            (ToolOutput::LargeText(s), ToolOutput::LargeText(t)) => s@ == t@,
            (
                ToolOutput::Diff { file_path: p, additions: x, deletions: y },
                ToolOutput::Diff { file_path: q, additions: u, deletions: v },
            ) => p@ == q@ && x == u && y == v,
            _ => false,
        },
{
}

/// Two clicks undo each other and leave the pin; a double click flips the pin, shows a
/// pinned call in full, and hides nothing.
pub proof fn law_clicks_flip_the_display(d: ToolDisplayState)
    ensures
        d.clicked().clicked() == d,
        d.clicked() != d,
        d.clicked().pinned == d.pinned,
        d.clicked_twice().pinned != d.pinned,
        d.clicked_twice().pinned ==> d.clicked_twice().expanded,
        d.expanded ==> d.clicked_twice().expanded,
        d.pinned && !d.expanded ==> !d.clicked_twice().expanded,
{
}

} // verus!

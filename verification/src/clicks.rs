//! What a click does: dismiss a notice, copy a text, open a session, or show a
//! tool call in another way.
use std::collections::VecDeque;

use vstd::prelude::*;

use crate::layout::Rect;
use crate::mouse::Scroller;
use crate::queue::TurnState;
use crate::slicing::{after_prefix, join, joined, opt_text, strip_prefix, texts, trim, trimmed};
use crate::text::{char_count, same_text};
use crate::time::{Duration, Instant};
use crate::transcript::{
    message_model, message_models, part_model, part_models, ChatMessage, MessageModel, MessagePart, PartModel,
    ToolDisplayState, ToolInput, ToolModel,
};

verus! {

/// Clicks on a tool call that are further apart are not a double click.
pub const DOUBLE_CLICK_MS: u64 = 350;

// ── notices ─────────────────────────────────────────────────────────────

/// The row of the list of notices under the pointer. Its frame has none.
pub open spec fn toast_row(area: Option<Rect>, col: u16, row: u16) -> Option<int> {
    match area {
        Some(a) => if a.covers(col, row) && a.y < row && row + 1 < a.y + a.height {
            Some(row - a.y - 1)
        } else {
            None
        },
        None => None,
    }
}

/// The row of the list of notices under the pointer.
pub fn toast_row_at(area: Option<Rect>, col: u16, row: u16) -> (r: Option<usize>)
    ensures
        match r {
            Some(i) => toast_row(area, col, row) == Some(i as int),
            None => toast_row(area, col, row) is None,
        },
{
    match area {
        Some(a) => if a.contains(col, row) {
            let local: u16 = row - a.y;
            if local > 0 && local + 1 < a.height {
                Some((local - 1) as usize)
            } else {
                None
            }
        } else {
            None
        },
        None => None,
    }
}

/// The notice in a row of their list: the newest stands on top.
pub open spec fn toast_in_row(count: nat, row: int) -> Option<int> {
    if 0 <= row < count {
        Some(count - 1 - row)
    } else {
        None
    }
}

/// The notice in a row of their list.
pub fn toast_at_row(count: usize, row: usize) -> (r: Option<usize>)
    ensures
        match r {
            Some(i) => toast_in_row(count as nat, row as int) == Some(i as int),
            None => toast_in_row(count as nat, row as int) is None,
        },
{
    if row < count {
        Some(count - 1 - row)
    } else {
        None
    }
}

// ── the list of sessions ────────────────────────────────────────────────

/// The session in a row of the sidebar. Each group of sessions begins with a
/// heading; an empty group has none.
pub open spec fn session_in_row(here: nat, elsewhere: nat, row: int) -> Option<int> {
    let start = if here > 0 {
        here + 1
    } else {
        0
    };
    if 1 <= row <= here {
        Some(row - 1)
    } else if start + 1 <= row <= start + elsewhere {
        Some(here + (row - start - 1))
    } else {
        None
    }
}

/// The session in a row of the sidebar.
pub fn session_at_row(here: usize, elsewhere: usize, row: u16) -> (r: Option<usize>)
    requires
        here + elsewhere + 2 <= usize::MAX,
    ensures
        match r {
            Some(i) => session_in_row(here as nat, elsewhere as nat, row as int) == Some(i as int),
            None => session_in_row(here as nat, elsewhere as nat, row as int) is None,
        },
{
    let row: usize = row as usize;
    let start: usize = if here > 0 {
        here + 1
    } else {
        0
    };
    if 1 <= row && row <= here {
        Some(row - 1)
    } else if start + 1 <= row && row <= start + elsewhere {
        Some(here + (row - start - 1))
    } else {
        None
    }
}

/// Different rows hold different sessions, and every session has a row.
pub proof fn law_every_session_has_its_row(here: nat, elsewhere: nat, session: int)
    requires
        0 <= session < here + elsewhere,
    ensures
        exists|row: int| #[trigger] session_in_row(here, elsewhere, row) == Some(session),
        forall|a: int, b: int|
            #[trigger] session_in_row(here, elsewhere, a) is Some && #[trigger] session_in_row(
                here,
                elsewhere,
                b,
            ) == session_in_row(here, elsewhere, a) ==> a == b,
{
    let start = if here > 0 {
        here + 1
    } else {
        0
    };
    if session < here {
        assert(session_in_row(here, elsewhere, session + 1) == Some(session));
    } else {
        assert(session_in_row(here, elsewhere, start + 1 + (session - here)) == Some(session));
    }
}

// ── where a click lands ─────────────────────────────────────────────────

/// What a click is about, before tool calls are looked at.
#[derive(Debug, Clone, Copy)]
pub struct ClickPlace {
    pub col: u16,
    pub row: u16,
    pub toasts_area: Option<Rect>,
    pub toast_count: usize,
    pub input_area: Option<Rect>,
    pub sidebar_area: Option<Rect>,
    /// Sessions of this project and of others, as the sidebar shows them.
    pub sessions_here: usize,
    pub sessions_elsewhere: usize,
}

/// What a click does.
#[derive(Debug)]
pub enum ClickAction {
    Nothing,
    /// The notice at that place of their queue goes.
    DismissToast(usize),
    /// The text that is being typed is copied.
    CopyInput(String),
    /// The session at that place is opened. Where it cannot be, the click is
    /// one on what stands in the transcript.
    OpenSession(usize),
    /// The click is one on what stands in the transcript.
    Transcript,
}

/// What a click does, as a value.
pub enum Action {
    Nothing,
    DismissToast(int),
    CopyInput(Seq<char>),
    OpenSession(int),
    Transcript,
}

/// What an action says.
pub open spec fn action_of(a: ClickAction) -> Action {
    match a {
        ClickAction::Nothing => Action::Nothing,
        ClickAction::DismissToast(i) => Action::DismissToast(i as int),
        ClickAction::CopyInput(s) => Action::CopyInput(s@),
        ClickAction::OpenSession(i) => Action::OpenSession(i as int),
        ClickAction::Transcript => Action::Transcript,
    }
}

/// The cell lies in the area, where there is one.
pub open spec fn hits(area: Option<Rect>, col: u16, row: u16) -> bool {
    area is Some && area->0.covers(col, row)
}

/// Whether the cell lies in the area.
fn is_hit(area: Option<Rect>, col: u16, row: u16) -> (r: bool)
    ensures
        r == hits(area, col, row),
{
    match area {
        Some(a) => a.contains(col, row),
        None => false,
    }
}

/// The session under the pointer.
pub open spec fn clicked_session(p: ClickPlace) -> Option<int> {
    if hits(p.sidebar_area, p.col, p.row) {
        let top = p.sidebar_area->0.y + 1;
        session_in_row(
            p.sessions_here as nat,
            p.sessions_elsewhere as nat,
            if p.row > top {
                p.row - top
            } else {
                0
            },
        )
    } else {
        None
    }
}

/// What a click does: notices come first, then the text that is being typed,
/// then the sidebar.
pub open spec fn clicked(p: ClickPlace, input: Seq<Seq<char>>) -> Action {
    match toast_row(p.toasts_area, p.col, p.row) {
        Some(row) => match toast_in_row(p.toast_count as nat, row) {
            Some(i) => Action::DismissToast(i),
            None => Action::Nothing,
        },
        None => if hits(p.input_area, p.col, p.row) {
            let text = joined(input, "\n"@);
            if trimmed(text).len() == 0 {
                Action::Nothing
            } else {
                Action::CopyInput(text)
            }
        } else {
            match clicked_session(p) {
                Some(i) => Action::OpenSession(i),
                None => Action::Transcript,
            }
        },
    }
}

/// What a click does, with `input` the lines that are being typed.
pub fn handle_left_click(p: &ClickPlace, input: &Vec<String>) -> (r: ClickAction)
    requires
        p.sessions_here + p.sessions_elsewhere + 2 <= usize::MAX,
    ensures
        action_of(r) == clicked(*p, texts(input@)),
{
    if let Some(row) = toast_row_at(p.toasts_area, p.col, p.row) {
        return match toast_at_row(p.toast_count, row) {
            Some(i) => ClickAction::DismissToast(i),
            None => ClickAction::Nothing,
        };
    }
    if is_hit(p.input_area, p.col, p.row) {
        let text = join(input, "\n");
        if char_count(trim(text.as_str()).as_str()) == 0 {
            return ClickAction::Nothing;
        }
        return ClickAction::CopyInput(text);
    }
    if let Some(area) = p.sidebar_area {
        if area.contains(p.col, p.row) {
            let local: u16 = (p.row - area.y).saturating_sub(1);
            if let Some(i) = session_at_row(p.sessions_here, p.sessions_elsewhere, local) {
                return ClickAction::OpenSession(i);
            }
        }
    }
    ClickAction::Transcript
}

/// The turn once another session was opened: its messages are there, and nothing
/// is left of what was being streamed.
pub open spec fn turn_of_session(after: TurnState, before: TurnState, messages: Vec<ChatMessage>) -> bool {
    &&& after.streaming_text@.len() == 0
    &&& after.streaming_reasoning@.len() == 0
    &&& after == (TurnState {
        messages,
        streaming_text: after.streaming_text,
        streaming_reasoning: after.streaming_reasoning,
        streaming_response_bytes: 0,
        streaming_response_baseline: 0,
        streaming_thinking_tokens: 0,
        streaming_assistant_idx: None,
        ..before
    })
}

/// The session at that place of the sidebar was opened: show its messages from
/// their end, select its row, and forget what was being streamed.
pub fn session_opened(
    turn: &mut TurnState,
    samples: &mut VecDeque<(Duration, u64)>,
    scroll: &mut Scroller,
    selected: &mut usize,
    messages: Vec<ChatMessage>,
    at: usize,
)
    ensures
        turn_of_session(*final(turn), *old(turn), messages),
        final(samples)@.len() == 0,
        *final(scroll) == old(scroll).at_bottom(),
        *final(selected) == at,
{
    turn.messages = messages;
    turn.streaming_text = String::new();
    turn.streaming_reasoning = String::new();
    turn.streaming_response_bytes = 0;
    turn.streaming_response_baseline = 0;
    turn.streaming_thinking_tokens = 0;
    turn.streaming_assistant_idx = None;
    samples.clear();
    *selected = at;
    scroll.scroll_to_bottom();
}

/// A click on the frame of the notices dismisses none.
pub proof fn law_frame_dismisses_nothing(p: ClickPlace, input: Seq<Seq<char>>)
    requires
        hits(p.toasts_area, p.col, p.row),
        p.row == p.toasts_area->0.y || p.row + 1 == p.toasts_area->0.y + p.toasts_area->0.height,
    ensures
        !(clicked(p, input) is DismissToast),
{
}

// ── tool calls ──────────────────────────────────────────────────────────

/// The command of a tool call with that name, from the `from`th part on.
pub open spec fn command_from(parts: Seq<PartModel>, id: Seq<char>, from: int) -> Option<Seq<char>>
    decreases parts.len() - from,
{
    if from < 0 || from >= parts.len() {
        None
    } else {
        let found = match parts[from] {
            PartModel::Tool(t) => match t.input {
                ToolInput::Bash { command } => if t.id == id {
                    Some(command@)
                } else {
                    None
                },
                _ => None,
            },
            _ => None,
        };
        match found {
            Some(c) => Some(c),
            None => command_from(parts, id, from + 1),
        }
    }
}

/// The command of the first shell call with that name, from the `from`th
/// message on.
pub open spec fn shell_command_from(messages: Seq<MessageModel>, id: Seq<char>, from: int) -> Option<Seq<char>>
    decreases messages.len() - from,
{
    if from < 0 || from >= messages.len() {
        None
    } else {
        match command_from(messages[from].parts, id, 0) {
            Some(c) => Some(c),
            None => shell_command_from(messages, id, from + 1),
        }
    }
}

fn command_in_parts(parts: &Vec<MessagePart>, id: &str) -> (r: Option<String>)
    ensures
        opt_text(r) == command_from(part_models(parts@), id@, 0),
{
    let mut i: usize = 0;
    while i < parts.len()
        invariant
            i <= parts@.len(),
            command_from(part_models(parts@), id@, 0) == command_from(part_models(parts@), id@, i as int),
        decreases parts@.len() - i,
    {
        assert(part_models(parts@)[i as int] == part_model(parts@[i as int]));
        if let MessagePart::Tool(t) = &parts[i] {
            if same_text(t.id.as_str(), id) {
                if let ToolInput::Bash { command } = &t.input {
                    return Some(command.clone());
                }
            }
        }
        i += 1;
    }
    None
}

/// The command of the first shell call with that name.
pub fn bash_command_for_tool(messages: &Vec<ChatMessage>, tool_id: &str) -> (r: Option<String>)
    ensures
        opt_text(r) == shell_command_from(message_models(messages@), tool_id@, 0),
{
    let mut i: usize = 0;
    while i < messages.len()
        invariant
            i <= messages@.len(),
            shell_command_from(message_models(messages@), tool_id@, 0) == shell_command_from(
                message_models(messages@),
                tool_id@,
                i as int,
            ),
        decreases messages@.len() - i,
    {
        assert(message_models(messages@)[i as int] == message_model(messages@[i as int]));
        if let Some(c) = command_in_parts(&messages[i].parts, tool_id) {
            return Some(c);
        }
        i += 1;
    }
    None
}

/// How a tool call is shown after a click on it. A double click flips the pin,
/// and a pinned call is shown in full.
pub open spec fn display_after(d: ToolDisplayState, double: bool) -> ToolDisplayState {
    if double {
        ToolDisplayState { pinned: !d.pinned, expanded: d.expanded || !d.pinned }
    } else {
        ToolDisplayState { expanded: !d.expanded, ..d }
    }
}

/// A part after a click on the tool call with that name.
pub open spec fn part_after(p: PartModel, id: Seq<char>, double: bool) -> PartModel {
    match p {
        PartModel::Tool(t) => if t.id == id {
            PartModel::Tool(ToolModel { display: display_after(t.display, double), ..t })
        } else {
            p
        },
        _ => p,
    }
}

/// A message after a click on the tool call with that name.
pub open spec fn message_after(m: MessageModel, id: Seq<char>, double: bool) -> MessageModel {
    MessageModel { parts: m.parts.map_values(|p: PartModel| part_after(p, id, double)), ..m }
}

fn click_parts(parts: &mut Vec<MessagePart>, id: &str, double: bool)
    ensures
        part_models(final(parts)@) == part_models(old(parts)@).map_values(
            |p: PartModel| part_after(p, id@, double),
        ),
{
    let ghost before = parts@;
    let n: usize = parts.len();
    let mut i: usize = 0;
    while i < n
        invariant
            i <= n,
            n == parts@.len(),
            before.len() == n,
            forall|j: int|
                0 <= j < i ==> part_model(#[trigger] parts@[j]) == part_after(
                    part_model(before[j]),
                    id@,
                    double,
                ),
            forall|j: int| i <= j < n ==> #[trigger] parts@[j] == before[j],
        decreases n - i,
    {
        let ghost held = parts@;
        if let MessagePart::Tool(t) = &mut parts[i] {
            if same_text(t.id.as_str(), id) {
                if double {
                    t.display.toggle_pinned();
                } else {
                    t.display.toggle_expanded();
                }
            }
        }
        assert(forall|j: int| 0 <= j < n && j != i ==> parts@[j] == held[j]);
        i += 1;
    }
    assert(part_models(parts@) =~= part_models(before).map_values(
        |p: PartModel| part_after(p, id@, double),
    ));
}

/// Show the tool call with that name in another way.
fn click_messages(messages: &mut Vec<ChatMessage>, id: &str, double: bool)
    ensures
        message_models(final(messages)@) == message_models(old(messages)@).map_values(
            |m: MessageModel| message_after(m, id@, double),
        ),
{
    let ghost before = messages@;
    let n: usize = messages.len();
    let mut i: usize = 0;
    while i < n
        invariant
            i <= n,
            n == messages@.len(),
            before.len() == n,
            forall|j: int|
                0 <= j < i ==> message_model(#[trigger] messages@[j]) == message_after(
                    message_model(before[j]),
                    id@,
                    double,
                ),
            forall|j: int| i <= j < n ==> #[trigger] messages@[j] == before[j],
        decreases n - i,
    {
        let ghost held = messages@;
        click_parts(&mut messages[i].parts, id, double);
        assert(forall|j: int| 0 <= j < n && j != i ==> messages@[j] == held[j]);
        i += 1;
    }
    assert(message_models(messages@) =~= message_models(before).map_values(
        |m: MessageModel| message_after(m, id@, double),
    ));
}

/// The last tool call that was clicked.
#[derive(Debug)]
pub struct ToolClick {
    pub id: String,
    pub at: Instant,
}

/// The click and the last one are a double click.
pub open spec fn is_double(last: Option<ToolClick>, id: Seq<char>, now: Instant) -> bool {
    last is Some && last->0.id@ == id && now.since(last->0.at) / 1_000_000 < DOUBLE_CLICK_MS
}

/// Whether the click and the last one are a double click.
pub fn is_double_click(last: &Option<ToolClick>, id: &str, now: Instant) -> (r: bool)
    ensures
        r == is_double(*last, id@, now),
{
    match last {
        Some(c) => same_text(c.id.as_str(), id) && now.duration_since(c.at).as_millis() < DOUBLE_CLICK_MS as u128,
        None => false,
    }
}

/// What a click on the transcript does besides.
#[derive(Debug)]
pub enum ToolAction {
    Nothing,
    /// The command is copied.
    CopyCommand(String),
    /// The group of tool calls is shown in another way.
    ToggleGroup(String),
    /// A tool call was shown in another way.
    Toggled,
}

/// What a click on the transcript comes to.
pub open spec fn is_clicked(
    after: Seq<MessageModel>,
    before: Seq<MessageModel>,
    last_after: Option<ToolClick>,
    last: Option<ToolClick>,
    copy_hit: Option<Seq<char>>,
    hit: Option<Seq<char>>,
    now: Instant,
    r: ToolAction,
) -> bool {
    match (copy_hit, hit) {
        (Some(id), _) => {
            &&& after == before
            &&& match shell_command_from(before, id, 0) {
                Some(command) => r is CopyCommand && r->CopyCommand_0@ == command && last_after is None,
                None => r is Nothing && last_after == last,
            }
        },
        (None, Some(id)) => match after_prefix(id, "group:"@) {
            Some(key) => {
                &&& after == before
                &&& last_after == last
                &&& r is ToggleGroup && r->ToggleGroup_0@ == key
            },
            None => {
                &&& after == before.map_values(|m: MessageModel| message_after(m, id, is_double(last, id, now)))
                &&& last_after is Some && last_after->0.id@ == id && last_after->0.at == now
                &&& r is Toggled
            },
        },
        (None, None) => {
            &&& after == before
            &&& last_after == last
            &&& r is Nothing
        },
    }
}

/// What a click on the transcript does: `copy_hit` is the tool call whose copy
/// sign it hit, and `hit` the tool call or the group that it hit.
pub fn click_tool(
    messages: &mut Vec<ChatMessage>,
    last: &mut Option<ToolClick>,
    copy_hit: &Option<String>,
    hit: &Option<String>,
    now: Instant,
) -> (r: ToolAction)
    ensures
        is_clicked(
            message_models(final(messages)@),
            message_models(old(messages)@),
            *final(last),
            *old(last),
            opt_text(*copy_hit),
            opt_text(*hit),
            now,
            r,
        ),
        copy_hit is Some || hit is None ==> final(messages)@ == old(messages)@,
        r is ToggleGroup ==> final(messages)@ == old(messages)@,
{
    if let Some(id) = copy_hit {
        return match bash_command_for_tool(messages, id.as_str()) {
            Some(command) => {
                *last = None;
                ToolAction::CopyCommand(command)
            },
            None => ToolAction::Nothing,
        };
    }
    match hit {
        Some(id) => match strip_prefix(id.as_str(), "group:") {
            Some(key) => ToolAction::ToggleGroup(key),
            None => {
                let double = is_double_click(last, id.as_str(), now);
                click_messages(messages, id.as_str(), double);
                *last = Some(ToolClick { id: id.clone(), at: now });
                ToolAction::Toggled
            },
        },
        None => ToolAction::Nothing,
    }
}

/// Two single clicks show a tool call as before.
pub proof fn law_two_clicks_undo(d: ToolDisplayState)
    ensures
        display_after(display_after(d, false), false) == d,
{
}

/// A pinned tool call is shown in full.
pub proof fn law_pinned_is_shown_in_full(d: ToolDisplayState)
    ensures
        display_after(d, true).pinned ==> display_after(d, true).expanded,
{
}

// ── groups ──────────────────────────────────────────────────────────────

/// The groups of tool calls that are shown call by call.
#[derive(Debug)]
pub struct ExpandedGroups {
    keys: Vec<String>,
}

/// The names are different.
pub open spec fn distinct(keys: Seq<Seq<char>>) -> bool {
    forall|i: int, j: int| 0 <= i < j < keys.len() ==> keys[i] != keys[j]
}

/// The groups once one is shown in the other way.
pub open spec fn toggled(groups: Set<Seq<char>>, key: Seq<char>) -> Set<Seq<char>> {
    if groups.contains(key) {
        groups.remove(key)
    } else {
        groups.insert(key)
    }
}

impl ExpandedGroups {
    #[verifier::type_invariant]
    spec fn keys_are_distinct(self) -> bool {
        distinct(texts(self.keys@))
    }

    pub closed spec fn view(self) -> Set<Seq<char>> {
        texts(self.keys@).to_set()
    }

    /// No group.
    pub fn new() -> (r: Self)
        ensures
            r@ == Set::<Seq<char>>::empty(),
    {
        let r = ExpandedGroups { keys: Vec::new() };
        assert(r@ =~= Set::<Seq<char>>::empty());
        r
    }

    fn position(&self, key: &str) -> (r: Option<usize>)
        ensures
            match r {
                Some(i) => i < self.keys@.len() && self.keys@[i as int]@ == key@,
                None => forall|i: int| 0 <= i < self.keys@.len() ==> (#[trigger] self.keys@[i])@ != key@,
            },
    {
        let mut i: usize = 0;
        while i < self.keys.len()
            invariant
                i <= self.keys@.len(),
                forall|j: int| 0 <= j < i ==> (#[trigger] self.keys@[j])@ != key@,
            decreases self.keys@.len() - i,
        {
            if same_text(self.keys[i].as_str(), key) {
                return Some(i);
            }
            i += 1;
        }
        None
    }

    pub fn contains(&self, key: &str) -> (r: bool)
        ensures
            r == self@.contains(key@),
    {
        match self.position(key) {
            Some(i) => {
                assert(texts(self.keys@)[i as int] == key@);
                true
            },
            None => {
                assert forall|i: int| 0 <= i < self.keys@.len() implies texts(self.keys@)[i] != key@ by {
                    assert(texts(self.keys@)[i] == self.keys@[i]@);
                }
                false
            },
        }
    }

    /// Show the group in the other way.
    pub fn toggle(&mut self, key: String)
        ensures
            final(self)@ == toggled(old(self)@, key@),
    {
        proof {
            use_type_invariant(&*self);
        }
        let ghost before = texts(self.keys@);
        let ghost k = key@;
        let at = self.position(key.as_str());
        let mut keys: Vec<String> = Vec::new();
        std::mem::swap(&mut keys, &mut self.keys);
        match at {
            Some(i) => {
                assert(before[i as int] == k);
                let _ = keys.remove(i);
                let ghost after = texts(keys@);
                proof {
                    assert(after =~= before.remove(i as int));
                    assert forall|x: Seq<char>| after.to_set().contains(x) == before.to_set().remove(k).contains(x) by {
                        if after.contains(x) {
                            let j = choose|j: int| 0 <= j < after.len() && after[j] == x;
                            if j < i {
                                assert(before[j] == x);
                            } else {
                                assert(before[j + 1] == x);
                            }
                        }
                        if before.contains(x) && x != k {
                            let j = choose|j: int| 0 <= j < before.len() && before[j] == x;
                            if j < i {
                                assert(after[j] == x);
                            } else {
                                assert(after[j - 1] == x);
                            }
                        }
                    }
                    assert(after.to_set() =~= before.to_set().remove(k));
                }
            },
            None => {
                assert forall|j: int| 0 <= j < before.len() implies before[j] != k by {
                    assert(before[j] == keys@[j]@);
                }
                keys.push(key);
                let ghost after = texts(keys@);
                proof {
                    assert(after =~= before.push(k));
                    assert forall|x: Seq<char>| after.to_set().contains(x) == before.to_set().insert(k).contains(x) by {
                        if before.contains(x) {
                            let j = choose|j: int| 0 <= j < before.len() && before[j] == x;
                            assert(after[j] == x);
                        }
                        assert(after[before.len() as int] == k);
                    }
                    assert(after.to_set() =~= before.to_set().insert(k));
                }
            },
        }
        self.keys = keys;
    }
}

/// Showing a group in the other way twice changes nothing.
pub proof fn law_toggling_twice_changes_nothing(groups: Set<Seq<char>>, key: Seq<char>)
    ensures
        toggled(toggled(groups, key), key) == groups,
{
    assert(toggled(toggled(groups, key), key) =~= groups);
}

/// The notices stand with the latest on top: a click on the first row dismisses the
/// latest, one on the row below the one before it, and each row has its own.
pub proof fn law_clicked_toast_goes(p: ClickPlace, input: Seq<Seq<char>>, row: int)
    requires
        toast_row(p.toasts_area, p.col, p.row) == Some(row),
    ensures
        0 <= row < p.toast_count ==> clicked(p, input) == Action::DismissToast(p.toast_count - 1 - row),
        row >= p.toast_count ==> clicked(p, input) is Nothing,
        p.row == p.toasts_area->0.y + 1 + row,
{
}

/// A click on the input copies all of it, every line; one beside everything is one on
/// the transcript.
pub proof fn law_clicked_input_is_copied(p: ClickPlace, input: Seq<Seq<char>>, i: int)
    requires
        toast_row(p.toasts_area, p.col, p.row) is None,
        0 <= i < input.len(),
    ensures
        hits(p.input_area, p.col, p.row) && trimmed(joined(input, "\n"@)).len() > 0 ==> (clicked(p, input) is CopyInput
            && crate::slicing::has_text(clicked(p, input)->CopyInput_0, input[i])),
        !hits(p.input_area, p.col, p.row) && !hits(p.sidebar_area, p.col, p.row) ==> clicked(p, input) is Transcript,
        hits(p.input_area, p.col, p.row) ==> !(clicked(p, input) is OpenSession),
{
    crate::showing::lemma_joined_has(input, "\n"@, i);
}

/// The first row under the frame and the heading of the sidebar opens the first session.
pub proof fn law_clicked_session_opens(p: ClickPlace, input: Seq<Seq<char>>, i: int)
    requires
        toast_row(p.toasts_area, p.col, p.row) is None,
        !hits(p.input_area, p.col, p.row),
        hits(p.sidebar_area, p.col, p.row),
        0 <= i,
    ensures
        i < p.sessions_here && p.row == p.sidebar_area->0.y + 2 + i ==> clicked(p, input) == Action::OpenSession(i),
        p.sessions_here > 0 && i < p.sessions_elsewhere && p.row == p.sidebar_area->0.y + p.sessions_here + 3 + i
            ==> clicked(p, input) == Action::OpenSession(p.sessions_here + i),
{
}

/// An opened session shows its own messages, and nothing of the answer that was
/// arriving is left; what was waiting to be sent still waits.
pub proof fn law_opened_sessions_start_clean(after: TurnState, before: TurnState, messages: Vec<ChatMessage>)
    requires
        turn_of_session(after, before, messages),
    ensures
        after.messages == messages,
        after.streaming_text@.len() == 0,
        after.streaming_reasoning@.len() == 0,
        after.streaming_response_bytes == 0,
        after.streaming_thinking_tokens == 0,
        after.streaming_assistant_idx is None,
        after.queued_prompts == before.queued_prompts,
{
}

/// A click on a tool call changes how that call is shown and nothing else: not what it
/// is, not what it did, and no other part of the message.
pub proof fn law_clicks_change_only_the_display(m: MessageModel, id: Seq<char>, double: bool, k: int)
    requires
        0 <= k < m.parts.len(),
    ensures
        message_after(m, id, double).parts.len() == m.parts.len(),
        message_after(m, id, double) == (MessageModel { parts: message_after(m, id, double).parts, ..m }),
        match m.parts[k] {
            PartModel::Tool(t) => match message_after(m, id, double).parts[k] {
                PartModel::Tool(u) => u == (ToolModel { display: u.display, ..t }) && (t.id != id ==> u == t) && (t.id
                    == id && !double ==> u.display.expanded != t.display.expanded && u.display.pinned
                    == t.display.pinned) && (t.id == id && double ==> u.display.pinned != t.display.pinned),
                _ => false,
            },
            p => message_after(m, id, double).parts[k] == p,
        },
{
}

/// Two clicks make a double click where the second comes soon enough, on the same call.
pub proof fn law_double_clicks_are_quick(last: ToolClick, id: Seq<char>, now: Instant)
    ensures
        is_double(Some(last), id, now) <==> last.id@ == id && now.since(last.at) < 350_000_000,
        !is_double(None, id, now),
{
}

proof fn lemma_command_from(parts: Seq<PartModel>, id: Seq<char>, from: int, k: int)
    requires
        0 <= from <= k < parts.len(),
        parts[k] is Tool,
        parts[k]->Tool_0.id == id,
        parts[k]->Tool_0.input is Bash,
        forall|j: int| from <= j < k && (#[trigger] parts[j]) is Tool ==> parts[j]->Tool_0.id != id,
    ensures
        command_from(parts, id, from) == Some(parts[k]->Tool_0.input->Bash_command@),
    decreases k - from,
{
    if from < k {
        lemma_command_from(parts, id, from + 1, k);
    }
}

proof fn lemma_no_command_from(parts: Seq<PartModel>, id: Seq<char>, from: int)
    requires
        0 <= from <= parts.len(),
        forall|j: int| from <= j < parts.len() && (#[trigger] parts[j]) is Tool ==> parts[j]->Tool_0.id != id,
    ensures
        command_from(parts, id, from) is None,
    decreases parts.len() - from,
{
    if from < parts.len() {
        lemma_no_command_from(parts, id, from + 1);
    }
}

/// The command that is copied is that of the call with this id, wherever it stands.
pub proof fn law_the_calls_own_command_is_copied(messages: Seq<MessageModel>, id: Seq<char>, from: int, m: int, k: int)
    requires
        0 <= from <= m < messages.len(),
        0 <= k < messages[m].parts.len(),
        messages[m].parts[k] is Tool,
        messages[m].parts[k]->Tool_0.id == id,
        messages[m].parts[k]->Tool_0.input is Bash,
        forall|l: int, j: int|
            #![trigger messages[l].parts[j]]
            from <= l < messages.len() && 0 <= j < messages[l].parts.len() && messages[l].parts[j] is Tool && (l != m
                || j != k) ==> messages[l].parts[j]->Tool_0.id != id,
    ensures
        shell_command_from(messages, id, from) == Some(messages[m].parts[k]->Tool_0.input->Bash_command@),
    decreases m - from,
{
    let parts = messages[from].parts;
    if from < m {
        assert forall|j: int| 0 <= j < parts.len() && (#[trigger] parts[j]) is Tool implies parts[j]->Tool_0.id != id by {
            assert(messages[from].parts[j] is Tool);
        }
        lemma_no_command_from(parts, id, 0);
        law_the_calls_own_command_is_copied(messages, id, from + 1, m, k);
    } else {
        assert forall|j: int| 0 <= j < k && (#[trigger] parts[j]) is Tool implies parts[j]->Tool_0.id != id by {
            assert(messages[from].parts[j] is Tool);
        }
        lemma_command_from(parts, id, 0, k);
    }
}

/// A click copies the command whose sign it hit, whatever else lies under it, and
/// changes no message; one on a group shows that group in another way; one on a call
/// changes only the messages' look, and is remembered.
pub proof fn law_clicks_do_one_thing(
    after: Seq<MessageModel>,
    before: Seq<MessageModel>,
    last_after: Option<ToolClick>,
    last: Option<ToolClick>,
    copy_hit: Option<Seq<char>>,
    hit: Option<Seq<char>>,
    now: Instant,
    r: ToolAction,
    key: Seq<char>,
)
    requires
        is_clicked(after, before, last_after, last, copy_hit, hit, now, r),
    ensures
        after.len() == before.len(),
        copy_hit is Some ==> after == before && !(r is Toggled) && !(r is ToggleGroup),
        copy_hit is Some && r is CopyCommand ==> shell_command_from(before, copy_hit->0, 0) == Some(
            r->CopyCommand_0@,
        ),
        copy_hit is None && hit == Some("group:"@ + key) ==> r is ToggleGroup && r->ToggleGroup_0@ == key && after
            == before,
        copy_hit is None && hit is None ==> after == before && r is Nothing && last_after == last,
        r is Toggled ==> last_after is Some && last_after->0.at == now && hit == Some(last_after->0.id@),
{
    let g = "group:"@ + key;
    assert(g.subrange(0, "group:"@.len() as int) =~= "group:"@);
    assert(g.skip("group:"@.len() as int) =~= key);
}

/// Between the upper and the lower edge each row of the list is that of its notice, from
/// the first on; the edges, and what lies outside, are nobody's.
pub proof fn law_notices_are_hit_inside_the_frame(a: Rect, col: u16, row: u16)
    ensures
        a.covers(col, row) && a.y < row < a.y + a.height - 1 ==> toast_row(Some(a), col, row) == Some(row - (a.y + 1)),
        a.covers(col, row) && (row == a.y || row == a.y + a.height - 1) ==> toast_row(Some(a), col, row) is None,
        !a.covers(col, row) ==> toast_row(Some(a), col, row) is None,
        toast_row(None, col, row) is None,
{
}

} // verus!

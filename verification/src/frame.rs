//! The layout of a frame: how many rows each part gets, which sidebars are
//! open, and what is drawn on top, in order.
use vstd::prelude::*;

use crate::layout::{clamped, is_split, minus, smaller, split_area, Axis, Part, Rect};

verus! {

/// The state that decides how a frame is laid out.
#[derive(Debug, Clone, Copy)]
pub struct FrameState {
    pub width: u16,
    pub height: u16,
    /// The transcript of a background agent is open.
    pub in_task_view: bool,
    /// Rows that the input takes when it is wrapped.
    pub input_lines: usize,
    pub is_streaming: bool,
    pub compacting: bool,
    /// The pipeline is too busy to take another prompt.
    pub pipeline_busy: bool,
    pub turn_started: bool,
    pub any_alive_agent: bool,
    pub open_tasks: usize,
    pub recently_done: usize,
    /// Diagnostics that the user has not seen yet.
    pub new_diagnostics: usize,
    pub session_sidebar: bool,
    pub info_sidebar: bool,
}

/// How a frame is laid out.
#[derive(Debug, Clone, Copy, PartialEq, Eq, Structural)]
pub struct FramePlan {
    pub tab_strip: u16,
    pub diagnostics: u16,
    pub spinner: u16,
    pub show_spinner: bool,
    pub pinned_tasks: u16,
    pub input: u16,
    /// Columns of the sidebar on the left; none where it is closed.
    pub left_sidebar: u16,
    /// Columns of the sidebar on the right; none where it is closed.
    pub right_sidebar: u16,
}

// ── rows ────────────────────────────────────────────────────────────────

/// Rows of the input: its lines and one above and below, eight at most.
pub open spec fn input_rows(s: FrameState) -> int {
    if s.in_task_view {
        0
    } else {
        smaller(s.input_lines + 2, 8)
    }
}

/// The turn is still going on.
pub open spec fn is_busy(s: FrameState) -> bool {
    s.is_streaming || s.compacting || s.pipeline_busy || s.turn_started || s.any_alive_agent
}

/// How many tasks the pinned list may show: none on a very low screen.
pub open spec fn pin_cap(height: int) -> int {
    if height <= 10 {
        0
    } else {
        clamped(minus(height, 16), 2, 4)
    }
}

/// Rows that the pinned list asks for.
pub open spec fn pin_rows_wanted(open: int, done: int, cap: int) -> int {
    let recent = if done > 0 {
        1int
    } else {
        0
    };
    if open == 0 && done == 0 {
        0
    } else {
        smaller(open + recent + 1, cap) + if open + recent > cap {
            1int
        } else {
            0
        }
    }
}

/// Rows of the pinned list: one where all is done, five at most.
pub open spec fn pin_rows(s: FrameState) -> int {
    let wanted = pin_rows_wanted(s.open_tasks as int, s.recently_done as int, pin_cap(s.height as int));
    if s.in_task_view || wanted == 0 {
        0
    } else if s.open_tasks == 0 {
        1
    } else {
        smaller(wanted, 5)
    }
}

fn pinned_height(s: &FrameState) -> (r: u16)
    ensures
        r == pin_rows(*s),
{
    let cap: u128 = if s.height <= 10 {
        0
    } else {
        let left: u16 = s.height.saturating_sub(16);
        if left < 2 {
            2
        } else if left > 4 {
            4
        } else {
            left as u128
        }
    };
    let recent: u128 = if s.recently_done > 0 {
        1
    } else {
        0
    };
    let open: u128 = s.open_tasks as u128;
    if s.open_tasks == 0 && s.recently_done == 0 {
        return 0;
    }
    let body: u128 = if open + recent + 1 <= cap {
        open + recent + 1
    } else {
        cap
    };
    let wanted: u128 = body + if open + recent > cap {
        1u128
    } else {
        0u128
    };
    if s.in_task_view || wanted == 0 {
        0
    } else if s.open_tasks == 0 {
        1
    } else if wanted <= 5 {
        wanted as u16
    } else {
        5
    }
}

// ── columns ─────────────────────────────────────────────────────────────

/// Columns of the left sidebar.
pub open spec fn left_columns(s: FrameState) -> int {
    if s.session_sidebar && !s.in_task_view {
        clamped(s.width as int / 5, 20, 32)
    } else {
        0
    }
}

/// Columns of the right sidebar. It needs a wide screen.
pub open spec fn right_columns(s: FrameState) -> int {
    if s.info_sidebar && !s.in_task_view && s.width >= 120 {
        if s.width < 140 {
            32
        } else {
            clamped(s.width as int / 6, 36, 48)
        }
    } else {
        0
    }
}

// ── the plan ────────────────────────────────────────────────────────────

/// How the frame is laid out.
pub open spec fn plan_of(s: FrameState) -> FramePlan {
    FramePlan {
        tab_strip: if s.in_task_view {
            1
        } else {
            0
        },
        diagnostics: if s.new_diagnostics == 0 {
            0
        } else {
            1
        },
        spinner: if is_busy(s) && !s.in_task_view {
            2
        } else {
            0
        },
        show_spinner: is_busy(s),
        pinned_tasks: pin_rows(s) as u16,
        input: input_rows(s) as u16,
        left_sidebar: left_columns(s) as u16,
        right_sidebar: right_columns(s) as u16,
    }
}

/// Lay out a frame.
pub fn frame(s: &FrameState) -> (r: FramePlan)
    ensures
        r == plan_of(*s),
{
    let busy = s.is_streaming || s.compacting || s.pipeline_busy || s.turn_started || s.any_alive_agent;
    let input: u16 = if s.in_task_view {
        0
    } else if s.input_lines < 6 {
        (s.input_lines + 2) as u16
    } else {
        8
    };
    let left_sidebar: u16 = if s.session_sidebar && !s.in_task_view {
        crate::layout::clamp_u16(s.width / 5, 20, 32)
    } else {
        0
    };
    let right_sidebar: u16 = if s.info_sidebar && !s.in_task_view && s.width >= 120 {
        if s.width < 140 {
            32
        } else {
            crate::layout::clamp_u16(s.width / 6, 36, 48)
        }
    } else {
        0
    };
    FramePlan {
        tab_strip: if s.in_task_view {
            1
        } else {
            0
        },
        diagnostics: if s.new_diagnostics == 0 {
            0
        } else {
            1
        },
        spinner: if busy && !s.in_task_view {
            2
        } else {
            0
        },
        show_spinner: busy,
        pinned_tasks: pinned_height(s),
        input,
        left_sidebar,
        right_sidebar,
    }
}

/// While a background agent's transcript is open, nothing of the chat takes
/// room: neither the input, nor the tasks, nor the spinner, nor a sidebar.
pub proof fn law_task_view_is_bare(s: FrameState)
    requires
        s.in_task_view,
    ensures
        plan_of(s).tab_strip == 1,
        plan_of(s).input == 0,
        plan_of(s).pinned_tasks == 0,
        plan_of(s).spinner == 0,
        plan_of(s).left_sidebar == 0,
        plan_of(s).right_sidebar == 0,
{
}

/// The parts below the transcript never take more than seventeen rows.
pub proof fn law_dock_is_low(s: FrameState)
    ensures
        plan_of(s).diagnostics + plan_of(s).spinner + plan_of(s).pinned_tasks + plan_of(s).input + 1 <= 17,
        s.width >= 120 ==> plan_of(s).left_sidebar + plan_of(s).right_sidebar + 20 <= s.width,
{
}

/// What the rows of a frame ask for, from top to bottom: tabs, transcript,
/// diagnostics, spinner, tasks, input, agents and status line.
pub open spec fn frame_parts_of(p: FramePlan) -> Seq<Part> {
    seq![
        Part::Length(p.tab_strip),
        Part::Min(3),
        Part::Length(p.diagnostics),
        Part::Length(p.spinner),
        Part::Length(p.pinned_tasks),
        Part::Length(p.input),
        Part::Length(0),
        Part::Length(1),
    ]
}

/// What the rows of a frame ask for.
pub fn frame_parts(p: &FramePlan) -> (r: Vec<Part>)
    ensures
        r@ == frame_parts_of(*p),
{
    let parts = vec![
        Part::Length(p.tab_strip),
        Part::Min(3),
        Part::Length(p.diagnostics),
        Part::Length(p.spinner),
        Part::Length(p.pinned_tasks),
        Part::Length(p.input),
        Part::Length(0),
        Part::Length(1),
    ];
    assert(parts@ =~= frame_parts_of(*p));
    parts
}

/// Share the screen out among the rows.
pub fn frame_rows(p: &FramePlan, screen: Rect) -> (r: Vec<Rect>)
    requires
        screen.fits(),
    ensures
        is_split(r@, screen, frame_parts_of(*p), Axis::Rows),
{
    split_area(screen, &frame_parts(p), Axis::Rows)
}

/// What the columns of the transcript's row ask for.
pub open spec fn column_parts_of(p: FramePlan) -> Seq<Part> {
    let left = if p.left_sidebar > 0 {
        seq![Part::Length(p.left_sidebar)]
    } else {
        Seq::empty()
    };
    let right = if p.right_sidebar > 0 {
        seq![Part::Length(p.right_sidebar)]
    } else {
        Seq::empty()
    };
    left + seq![Part::Min(20)] + right
}

/// What the columns of the transcript's row ask for.
pub fn column_parts(p: &FramePlan) -> (r: Vec<Part>)
    ensures
        r@ == column_parts_of(*p),
{
    let mut parts: Vec<Part> = Vec::new();
    if p.left_sidebar > 0 {
        parts.push(Part::Length(p.left_sidebar));
    }
    parts.push(Part::Min(20));
    if p.right_sidebar > 0 {
        parts.push(Part::Length(p.right_sidebar));
    }
    assert(parts@ =~= column_parts_of(*p));
    parts
}

/// Where the transcript and its sidebars stand.
#[derive(Debug, Clone, Copy, PartialEq, Eq)]
pub struct Columns {
    pub left_sidebar: Option<Rect>,
    pub messages: Rect,
    pub right_sidebar: Option<Rect>,
}

/// The columns that there are, from left to right.
pub open spec fn columns_of(c: Columns) -> Seq<Rect> {
    (if c.left_sidebar is Some {
        seq![c.left_sidebar->0]
    } else {
        Seq::empty()
    }) + seq![c.messages] + (if c.right_sidebar is Some {
        seq![c.right_sidebar->0]
    } else {
        Seq::empty()
    })
}

/// Share the transcript's row out among the transcript and its sidebars. It has
/// the row for itself where there are none.
pub fn frame_columns(p: &FramePlan, row: Rect) -> (r: Columns)
    requires
        row.fits(),
    ensures
        r.left_sidebar is Some <==> p.left_sidebar > 0,
        r.right_sidebar is Some <==> p.right_sidebar > 0,
        p.left_sidebar == 0 && p.right_sidebar == 0 ==> r.messages == row,
        p.left_sidebar > 0 || p.right_sidebar > 0 ==> is_split(
            columns_of(r),
            row,
            column_parts_of(*p),
            Axis::Columns,
        ),
{
    if p.left_sidebar == 0 && p.right_sidebar == 0 {
        return Columns { left_sidebar: None, messages: row, right_sidebar: None };
    }
    let parts = split_area(row, &column_parts(p), Axis::Columns);
    let r = if p.left_sidebar > 0 {
        Columns {
            left_sidebar: Some(parts[0]),
            messages: parts[1],
            right_sidebar: if p.right_sidebar > 0 {
                Some(parts[2])
            } else {
                None
            },
        }
    } else {
        Columns { left_sidebar: None, messages: parts[0], right_sidebar: Some(parts[1]) }
    };
    assert(columns_of(r) =~= parts@);
    r
}

// ── what is drawn on top ────────────────────────────────────────────────

/// Something that is drawn on top of the frame.
#[derive(Debug, Clone, Copy, PartialEq, Eq, Structural)]
pub enum Overlay {
    Palette,
    ThemePicker,
    ModelPicker,
    SessionPicker,
    BashPicker,
    TaskPanel,
    Teammates,
    Toasts,
    Mention,
    Diagnostics,
    Help,
    TranscriptSearch,
    PromptSearch,
    SlashCommands,
    Approval,
    Question,
    Elicitation,
    RewriteProposal,
}

/// What is open.
#[derive(Debug, Clone, Copy)]
pub struct OpenOverlays {
    pub palette: bool,
    pub theme_picker: bool,
    pub model_picker: bool,
    pub session_picker: bool,
    pub bash_picker: bool,
    pub task_panel: bool,
    pub teammates: bool,
    pub toasts: bool,
    pub mention: bool,
    pub mention_candidates: bool,
    pub diagnostic_panel: bool,
    pub has_diagnostics: bool,
    pub help: bool,
    pub transcript_search: bool,
    pub prompt_search: bool,
    pub slash_prefix: bool,
    pub approval: bool,
    pub question: bool,
    pub elicitation: bool,
    pub rewrite_proposal: bool,
}

/// Everything that can be drawn on top, from the bottom up, with whether it is.
pub open spec fn stack(o: OpenOverlays) -> Seq<(bool, Overlay)> {
    seq![
        (o.palette, Overlay::Palette),
        (o.theme_picker, Overlay::ThemePicker),
        (o.model_picker, Overlay::ModelPicker),
        (o.session_picker, Overlay::SessionPicker),
        (o.bash_picker, Overlay::BashPicker),
        (o.task_panel, Overlay::TaskPanel),
        (o.teammates, Overlay::Teammates),
        (o.toasts, Overlay::Toasts),
        (o.mention && o.mention_candidates, Overlay::Mention),
        (o.diagnostic_panel && o.has_diagnostics, Overlay::Diagnostics),
        (o.help, Overlay::Help),
        (o.transcript_search, Overlay::TranscriptSearch),
        (o.prompt_search, Overlay::PromptSearch),
        (o.slash_prefix, Overlay::SlashCommands),
        (o.approval, Overlay::Approval),
        (o.question, Overlay::Question),
        (o.elicitation, Overlay::Elicitation),
        (o.rewrite_proposal, Overlay::RewriteProposal),
    ]
}

/// Those that are drawn.
pub open spec fn drawn(all: Seq<(bool, Overlay)>) -> Seq<Overlay>
    decreases all.len(),
{
    if all.len() == 0 {
        Seq::empty()
    } else if all.last().0 {
        drawn(all.drop_last()).push(all.last().1)
    } else {
        drawn(all.drop_last())
    }
}

/// What is drawn on top of the frame, from the bottom up.
pub fn overlays(o: &OpenOverlays) -> (r: Vec<Overlay>)
    ensures
        r@ == drawn(stack(*o)),
{
    let all: Vec<(bool, Overlay)> = vec![
        (o.palette, Overlay::Palette),
        (o.theme_picker, Overlay::ThemePicker),
        (o.model_picker, Overlay::ModelPicker),
        (o.session_picker, Overlay::SessionPicker),
        (o.bash_picker, Overlay::BashPicker),
        (o.task_panel, Overlay::TaskPanel),
        (o.teammates, Overlay::Teammates),
        (o.toasts, Overlay::Toasts),
        (o.mention && o.mention_candidates, Overlay::Mention),
        (o.diagnostic_panel && o.has_diagnostics, Overlay::Diagnostics),
        (o.help, Overlay::Help),
        (o.transcript_search, Overlay::TranscriptSearch),
        (o.prompt_search, Overlay::PromptSearch),
        (o.slash_prefix, Overlay::SlashCommands),
        (o.approval, Overlay::Approval),
        (o.question, Overlay::Question),
        (o.elicitation, Overlay::Elicitation),
        (o.rewrite_proposal, Overlay::RewriteProposal),
    ];
    assert(all@ =~= stack(*o));
    let mut out: Vec<Overlay> = Vec::new();
    let mut i: usize = 0;
    assert(all@.take(0) =~= Seq::<(bool, Overlay)>::empty());
    while i < all.len()
        invariant
            i <= all@.len(),
            out@ == drawn(all@.take(i as int)),
        decreases all@.len() - i,
    {
        assert(all@.take(i + 1).drop_last() =~= all@.take(i as int));
        if all[i].0 {
            out.push(all[i].1);
        }
        i += 1;
    }
    assert(all@.take(i as int) =~= all@);
    out
}

/// A proposed prompt wins over everything else: where there is one, it is on
/// top.
pub proof fn law_proposal_is_on_top(o: OpenOverlays)
    requires
        o.rewrite_proposal,
    ensures
        drawn(stack(o)).len() > 0,
        drawn(stack(o)).last() == Overlay::RewriteProposal,
{
    assert(stack(o).last() == (true, Overlay::RewriteProposal));
}

proof fn lemma_drawn_has(all: Seq<(bool, Overlay)>, x: Overlay)
    ensures
        drawn(all).contains(x) <==> exists|i: int| 0 <= i < all.len() && #[trigger] all[i] == (true, x),
    decreases all.len(),
{
    if all.len() > 0 {
        let front = all.drop_last();
        lemma_drawn_has(front, x);
        let before = drawn(front);
        let now = drawn(all);
        if before.contains(x) {
            let i = choose|i: int| 0 <= i < front.len() && #[trigger] front[i] == (true, x);
            assert(all[i] == (true, x));
            let j = choose|j: int| 0 <= j < before.len() && before[j] == x;
            assert(now[j] == x);
        }
        if all.last() == (true, x) {
            assert(all[all.len() - 1] == (true, x));
            assert(now[now.len() - 1] == x);
        }
        if now.contains(x) && !before.contains(x) {
            let j = choose|j: int| 0 <= j < now.len() && now[j] == x;
            if j < before.len() {
                assert(before[j] == x);
            }
            assert(all[all.len() - 1] == (true, x));
        }
        if exists|i: int| 0 <= i < all.len() && #[trigger] all[i] == (true, x) {
            let i = choose|i: int| 0 <= i < all.len() && #[trigger] all[i] == (true, x);
            if i < front.len() {
                assert(front[i] == (true, x));
            }
        }
    }
}

/// How far up in the stack an overlay lies.
pub open spec fn height_in_stack(x: Overlay) -> int {
    match x {
        Overlay::Palette => 0,
        Overlay::ThemePicker => 1,
        Overlay::ModelPicker => 2,
        Overlay::SessionPicker => 3,
        Overlay::BashPicker => 4,
        Overlay::TaskPanel => 5,
        Overlay::Teammates => 6,
        Overlay::Toasts => 7,
        Overlay::Mention => 8,
        Overlay::Diagnostics => 9,
        Overlay::Help => 10,
        Overlay::TranscriptSearch => 11,
        Overlay::PromptSearch => 12,
        Overlay::SlashCommands => 13,
        Overlay::Approval => 14,
        Overlay::Question => 15,
        Overlay::Elicitation => 16,
        Overlay::RewriteProposal => 17,
    }
}

/// An overlay is to be seen: it was opened, and has something to show.
pub open spec fn is_open(o: OpenOverlays, x: Overlay) -> bool {
    match x {
        Overlay::Palette => o.palette,
        Overlay::ThemePicker => o.theme_picker,
        Overlay::ModelPicker => o.model_picker,
        Overlay::SessionPicker => o.session_picker,
        Overlay::BashPicker => o.bash_picker,
        Overlay::TaskPanel => o.task_panel,
        Overlay::Teammates => o.teammates,
        Overlay::Toasts => o.toasts,
        Overlay::Mention => o.mention && o.mention_candidates,
        Overlay::Diagnostics => o.diagnostic_panel && o.has_diagnostics,
        Overlay::Help => o.help,
        Overlay::TranscriptSearch => o.transcript_search,
        Overlay::PromptSearch => o.prompt_search,
        Overlay::SlashCommands => o.slash_prefix,
        Overlay::Approval => o.approval,
        Overlay::Question => o.question,
        Overlay::Elicitation => o.elicitation,
        Overlay::RewriteProposal => o.rewrite_proposal,
    }
}

proof fn lemma_heights_differ(a: Overlay, b: Overlay)
    requires
        height_in_stack(a) == height_in_stack(b),
    ensures
        a == b,
{
}

#[verifier::rlimit(60)]
#[verifier::spinoff_prover]
proof fn lemma_entries_are_open(o: OpenOverlays, i: int)
    requires
        0 <= i < 18,
    ensures
        is_open(o, stack(o)[i].1) == stack(o)[i].0,
{
    let all = stack(o);
    if i < 6 {
        assert(i == 0 || i == 1 || i == 2 || i == 3 || i == 4 || i == 5);
    } else if i < 12 {
        assert(i == 6 || i == 7 || i == 8 || i == 9 || i == 10 || i == 11);
    } else {
        assert(i == 12 || i == 13 || i == 14 || i == 15 || i == 16 || i == 17);
    }
}

proof fn lemma_one_overlay(o: OpenOverlays, i: int)
    requires
        0 <= i < 18,
    ensures
        drawn(stack(o)).contains(stack(o)[i].1) <==> stack(o)[i].0,
        height_in_stack(stack(o)[i].1) == i,
{
    let all = stack(o);
    let x = all[i].1;
    lemma_drawn_has(all, x);
    assert(forall|j: int| 0 <= j < 18 ==> height_in_stack((#[trigger] all[j]).1) == j);
    if all[i].0 {
        assert(all[i] == (true, x));
    }
    if drawn(all).contains(x) {
        let j = choose|j: int| 0 <= j < all.len() && #[trigger] all[j] == (true, x);
        assert(height_in_stack(all[j].1) == j);
        assert(height_in_stack(all[i].1) == i);
    }
}

/// Exactly the overlays that are open are drawn, each over those that lie below it.
pub proof fn law_open_overlays_are_drawn(o: OpenOverlays, x: Overlay)
    ensures
        drawn(stack(o)).contains(x) <==> is_open(o, x),
{
    let i = height_in_stack(x);
    lemma_one_overlay(o, i);
    lemma_entries_are_open(o, i);
    lemma_heights_differ(x, stack(o)[i].1);
}

/// Whatever keeps the session busy shows the spinner, and nothing else does.
pub proof fn law_spinner_shows_while_busy(s: FrameState)
    requires
        !s.in_task_view,
    ensures
        s.is_streaming || s.compacting || s.pipeline_busy || s.turn_started || s.any_alive_agent ==> plan_of(s).spinner
            == 2 && plan_of(s).show_spinner,
        !s.is_streaming && !s.compacting && !s.pipeline_busy && !s.turn_started && !s.any_alive_agent ==> plan_of(
            s,
        ).spinner == 0 && !plan_of(s).show_spinner,
{
}

/// The input grows with its text by a row for a row, up to eight; findings take a row
/// while they are new, and tasks have rows while there are any and the screen is high.
pub proof fn law_parts_grow_with_what_they_hold(s: FrameState)
    requires
        !s.in_task_view,
    ensures
        s.input_lines <= 6 ==> plan_of(s).input == s.input_lines + 2,
        s.input_lines > 6 ==> plan_of(s).input == 8,
        plan_of(s).diagnostics == (if s.new_diagnostics > 0 {
            1u16
        } else {
            0u16
        }),
        s.open_tasks == 0 && s.recently_done == 0 ==> plan_of(s).pinned_tasks == 0,
        s.open_tasks > 0 && s.height > 10 ==> plan_of(s).pinned_tasks >= 2,
        s.session_sidebar ==> plan_of(s).left_sidebar >= 20,
        !s.session_sidebar ==> plan_of(s).left_sidebar == 0,
        s.info_sidebar && s.width >= 120 ==> plan_of(s).right_sidebar >= 32,
        !s.info_sidebar || s.width < 120 ==> plan_of(s).right_sidebar == 0,
{
}

/// The pinned list shows nothing on a very low screen, two tasks on a low one, up to four
/// on a high one, and never fewer on a higher screen.
pub proof fn law_higher_screens_pin_more(height: int, higher: int)
    requires
        0 <= height <= higher,
    ensures
        pin_cap(height) <= pin_cap(higher) <= 4,
        height <= 10 ==> pin_cap(height) == 0,
        10 < height <= 18 ==> pin_cap(height) == 2,
        height == 19 ==> pin_cap(height) == 3,
        height >= 20 ==> pin_cap(height) == 4,
{
}

/// The list of sessions takes a fifth of the width, from 20 columns to 32, and none where
/// it is closed or a task is looked at.
pub proof fn law_sessions_take_a_fifth(s: FrameState)
    ensures
        s.session_sidebar && !s.in_task_view ==> 20 <= left_columns(s) <= 32,
        s.session_sidebar && !s.in_task_view && 100 <= s.width <= 160 ==> left_columns(s) == s.width / 5,
        s.session_sidebar && !s.in_task_view && s.width >= 165 ==> left_columns(s) == 32,
        !s.session_sidebar || s.in_task_view ==> left_columns(s) == 0,
{
}

/// The overview needs 120 columns; from 140 on it takes a sixth of them, from 36 columns
/// to 48.
pub proof fn law_the_overview_needs_a_wide_screen(s: FrameState)
    ensures
        s.width < 120 || !s.info_sidebar || s.in_task_view ==> right_columns(s) == 0,
        s.info_sidebar && !s.in_task_view && 120 <= s.width < 140 ==> right_columns(s) == 32,
        s.info_sidebar && !s.in_task_view && s.width >= 140 ==> 36 <= right_columns(s) <= 48,
        s.info_sidebar && !s.in_task_view && 216 <= s.width <= 288 ==> right_columns(s) == s.width / 6,
{
}

} // verus!

//! The decisions at the start of a session.
use vstd::prelude::*;

use crate::json::Json;
use crate::paths::{is_same_path, same_path};
use crate::queue::TurnState;
use crate::session_history::{exported_messages, messages_from_export};
use crate::slicing::{group_texts, texts};
use crate::status::PermissionMode;
use crate::text::{cat3, same_text};
use crate::time::Instant;
use crate::transcript::{
    group_models, message_models, plain_message, ChatMessage, MessageModel, PartModel, Role,
};

verus! {

broadcast use {group_texts, group_models};

// ── settings ────────────────────────────────────────────────────────────

/// The mode in which tools may act: what was asked for, but nothing is asked at
/// all where permissions are skipped.
pub fn startup_permission_mode(
    current: PermissionMode,
    requested: Option<PermissionMode>,
    skip_permissions: bool,
) -> (r: PermissionMode)
    ensures
        r == (if skip_permissions {
            PermissionMode::BypassPermissions
        } else {
            match requested {
                Some(mode) => mode,
                None => current,
            }
        }),
{
    if skip_permissions {
        PermissionMode::BypassPermissions
    } else {
        match requested {
            Some(mode) => mode,
            None => current,
        }
    }
}

/// The settings for remote control.
#[derive(Debug, Clone, Copy, PartialEq, Eq, Structural)]
pub struct RemoteControlConfig {
    pub disabled: bool,
    pub auto_start: bool,
    pub port: u16,
}

/// The port on which remote control starts, where it does: it was asked for on
/// the command line or in the settings, and not forbidden there.
pub fn remote_control_port(asked: bool, config: Option<RemoteControlConfig>, default_port: u16) -> (r: Option<u16>)
    ensures
        r == (match config {
            Some(rc) => if (asked || rc.auto_start) && !rc.disabled {
                Some(rc.port)
            } else {
                None
            },
            None => if asked {
                Some(default_port)
            } else {
                None
            },
        }),
{
    match config {
        Some(rc) => if (asked || rc.auto_start) && !rc.disabled {
            Some(rc.port)
        } else {
            None
        },
        None => if asked {
            Some(default_port)
        } else {
            None
        },
    }
}

/// The path is in the list.
pub open spec fn lists_path(dirs: Seq<Seq<char>>, path: Seq<char>) -> bool {
    exists|i: int| 0 <= i < dirs.len() && same_path(#[trigger] dirs[i], path)
}

/// `dirs` with those of `more` that are new.
pub open spec fn with_new_dirs(dirs: Seq<Seq<char>>, more: Seq<Seq<char>>) -> Seq<Seq<char>>
    decreases more.len(),
{
    if more.len() == 0 {
        dirs
    } else {
        let before = with_new_dirs(dirs, more.drop_last());
        if lists_path(before, more.last()) {
            before
        } else {
            before.push(more.last())
        }
    }
}

fn has_path(dirs: &Vec<String>, path: &str) -> (r: bool)
    ensures
        r == lists_path(texts(dirs@), path@),
{
    let mut i: usize = 0;
    while i < dirs.len()
        invariant
            i <= dirs@.len(),
            forall|j: int| 0 <= j < i ==> !same_path(#[trigger] texts(dirs@)[j], path@),
        decreases dirs@.len() - i,
    {
        assert(texts(dirs@)[i as int] == dirs@[i as int]@);
        if is_same_path(dirs[i].as_str(), path) {
            return true;
        }
        i += 1;
    }
    false
}

/// Add the directories of the settings to those of the command line; none twice.
pub fn add_directories(dirs: &mut Vec<String>, more: &Vec<String>)
    ensures
        texts(final(dirs)@) == with_new_dirs(texts(old(dirs)@), texts(more@)),
{
    let ghost start = texts(dirs@);
    let ghost all = texts(more@);
    let mut i: usize = 0;
    assert(start =~= with_new_dirs(start, all.take(0)));
    while i < more.len()
        invariant
            i <= more@.len(),
            all == texts(more@),
            texts(dirs@) == with_new_dirs(start, all.take(i as int)),
        decreases more@.len() - i,
    {
        assert(all.take(i + 1).drop_last() =~= all.take(i as int));
        if !has_path(dirs, more[i].as_str()) {
            dirs.push(more[i].clone());
        }
        i += 1;
    }
    assert(all.take(i as int) =~= all);
}

/// Whether a switch of the environment is on.
pub fn is_switched_on(value: Option<&str>) -> (r: bool)
    ensures
        r == (match value {
            Some(v) => v@ == "1"@ || v@ == "true"@,
            None => false,
        }),
{
    match value {
        Some(v) => same_text(v, "1") || same_text(v, "true"),
        None => false,
    }
}

/// What is known when the program starts.
#[derive(Debug, Clone, Copy)]
pub struct StartupFacts {
    pub advisor_enabled: bool,
    pub has_local_advisor: bool,
    pub council_from_env: bool,
    pub council_in_config: Option<bool>,
    pub rewrite_configured: bool,
    pub rewrite_enabled: bool,
    /// The first-run help is switched on.
    pub onboarding_gate: bool,
    pub sessions_empty: bool,
    pub show_startup_banner: bool,
    pub nudge_gate: bool,
    pub nudge_seen: bool,
    pub slate_enabled: bool,
    pub cross_session_history: bool,
}

/// What the program does when it starts.
#[derive(Debug, Clone, Copy, PartialEq, Eq, Structural)]
pub struct StartupPlan {
    pub advisor_enabled: bool,
    pub council_verdict: bool,
    pub prompt_rewrite: bool,
    pub show_help: bool,
    pub show_auto_nudge: bool,
    pub route_by_class: bool,
    pub load_history: bool,
}

/// Decide what the program does when it starts.
pub fn plan_startup(f: &StartupFacts) -> (r: StartupPlan)
    ensures
        r == (StartupPlan {
            advisor_enabled: f.advisor_enabled || f.has_local_advisor,
            council_verdict: f.council_from_env || f.council_in_config == Some(true),
            prompt_rewrite: f.rewrite_configured && f.rewrite_enabled,
            show_help: f.onboarding_gate && f.sessions_empty,
            show_auto_nudge: f.show_startup_banner && f.nudge_gate && !f.nudge_seen,
            route_by_class: f.slate_enabled,
            load_history: f.cross_session_history,
        }),
{
    let configured = match f.council_in_config {
        Some(on) => on,
        None => false,
    };
    StartupPlan {
        advisor_enabled: f.advisor_enabled || f.has_local_advisor,
        council_verdict: f.council_from_env || configured,
        prompt_rewrite: f.rewrite_configured && f.rewrite_enabled,
        show_help: f.onboarding_gate && f.sessions_empty,
        show_auto_nudge: f.show_startup_banner && f.nudge_gate && !f.nudge_seen,
        route_by_class: f.slate_enabled,
        load_history: f.cross_session_history,
    }
}

/// The message of the one-time notice about the default mode.
pub fn auto_nudge_message() -> (r: ChatMessage)
    ensures
        crate::transcript::message_model(r) == plain_message(
            Role::Assistant,
            seq![
                PartModel::Text(
                    "ℹ️ Auto mode is now the default permission mode. Use /permissions to change."@,
                ),
            ],
        ),
{
    ChatMessage::assistant(
        "ℹ️ Auto mode is now the default permission mode. Use /permissions to change.".to_owned(),
    )
}

// ── resuming ────────────────────────────────────────────────────────────

/// The session to continue.
#[derive(Debug)]
pub struct ContinuedSession {
    pub id: Option<String>,
    /// The session belongs to another directory.
    pub foreign: bool,
}

/// Choose the session to continue: the last one of this directory, else the last
/// one of all.
pub fn choose_continued(for_cwd: Option<String>, most_recent: Option<String>) -> (r: ContinuedSession)
    ensures
        for_cwd is Some ==> r.id == for_cwd && !r.foreign,
        for_cwd is None ==> r.id == most_recent && r.foreign == (most_recent is Some),
{
    match for_cwd {
        Some(id) => ContinuedSession { id: Some(id), foreign: false },
        None => {
            let foreign = most_recent.is_some();
            ContinuedSession { id: most_recent, foreign }
        },
    }
}

/// The notice that another directory's session is continued.
pub open spec fn foreign_words() -> Seq<char> {
    "No session for this directory — continued the most recent session from another project. Use `--resume <id>` or start fresh if that's not what you wanted."@
}

/// The notice that another directory's session is continued, where one is.
pub fn foreign_session_notice(chosen: &ContinuedSession) -> (r: Option<&'static str>)
    ensures
        r is Some == chosen.foreign,
        r matches Some(t) ==> t@ == foreign_words(),
{
    if chosen.foreign {
        Some(
            "No session for this directory — continued the most recent session from another project. Use `--resume <id>` or start fresh if that's not what you wanted.",
        )
    } else {
        None
    }
}

/// Whether the session's own task list is opened: only without a project, whose
/// list lives on across sessions.
pub fn opens_session_tasks(in_git_repo: bool) -> (r: bool)
    ensures
        r == !in_git_repo,
{
    !in_git_repo
}

/// How the user wants to begin.
#[derive(Debug)]
pub enum StartupSession {
    Fresh,
    /// The last session goes on.
    Continue(ContinuedSession),
    /// That session goes on.
    Resume(String),
    /// That session's conversation goes on in a session of its own.
    Fork(String),
}

/// A session that was read.
#[derive(Debug)]
pub struct LoadedSession {
    pub messages: Vec<ChatMessage>,
    pub model: Option<String>,
}

/// What a session begins with.
#[derive(Debug)]
pub struct StartedSession {
    /// The conversation so far.
    pub messages: Vec<ChatMessage>,
    pub session_id: Option<String>,
    /// The session's own task list is opened.
    pub open_session_tasks: bool,
    /// The goal of the session is picked up again.
    pub restore_goal: bool,
    /// The model that the session was using.
    pub model: Option<String>,
    pub notice: Option<&'static str>,
}

/// A new session, which goes on with the messages that are there.
pub open spec fn is_fresh(s: StartedSession, so_far: Seq<ChatMessage>) -> bool {
    s.messages@ == so_far && s.session_id is None && !s.open_session_tasks && !s.restore_goal && s.model is None
        && s.notice is None
}

/// The session `id` goes on.
pub open spec fn goes_on(s: StartedSession, id: String, loaded: LoadedSession, in_git_repo: bool, foreign: bool) -> bool {
    &&& s.messages == loaded.messages
    &&& s.session_id == Some(id)
    &&& s.open_session_tasks == !in_git_repo
    &&& s.restore_goal
    &&& s.model == loaded.model
    &&& s.notice is Some == foreign
    &&& s.notice matches Some(t) ==> t@ == foreign_words()
}

/// A session `id` of its own begins with those messages.
pub open spec fn branches_off(s: StartedSession, id: String, messages: Seq<MessageModel>) -> bool {
    &&& message_models(s.messages@) == messages
    &&& s.session_id == Some(id)
    &&& !s.open_session_tasks
    &&& !s.restore_goal
    &&& s.model is None
    &&& s.notice is None
}

/// The session begins as the user wants, with the messages that are there at the
/// start. A session that could not be read is a new one; only a fork then looks
/// for an export, whose messages follow those.
pub open spec fn is_start(
    s: StartedSession,
    so_far: Seq<ChatMessage>,
    wanted: StartupSession,
    loaded: Option<LoadedSession>,
    export: Option<Json>,
    new_id: String,
    in_git_repo: bool,
) -> bool {
    match (wanted, loaded) {
        (StartupSession::Fresh, _) => is_fresh(s, so_far),
        (StartupSession::Continue(chosen), Some(l)) => match chosen.id {
            Some(id) => goes_on(s, id, l, in_git_repo, chosen.foreign),
            None => is_fresh(s, so_far),
        },
        (StartupSession::Continue(_), None) => is_fresh(s, so_far),
        (StartupSession::Resume(id), Some(l)) => goes_on(s, id, l, in_git_repo, false),
        (StartupSession::Resume(_), None) => is_fresh(s, so_far),
        (StartupSession::Fork(_), Some(l)) => branches_off(s, new_id, message_models(l.messages@)),
        (StartupSession::Fork(_), None) => match export {
            Some(e) => branches_off(s, new_id, message_models(so_far) + exported_messages(e)),
            None => is_fresh(s, so_far),
        },
    }
}

fn fresh_session(so_far: Vec<ChatMessage>) -> (r: StartedSession)
    ensures
        is_fresh(r, so_far@),
{
    StartedSession {
        messages: so_far,
        session_id: None,
        open_session_tasks: false,
        restore_goal: false,
        model: None,
        notice: None,
    }
}

/// Begin a session as the user wants: `so_far` are the messages that are there
/// already, `loaded` is the session that was wanted, where it could be read,
/// `export` what stands in its export, and `new_id` the name that a new session
/// would get.
pub fn start_session(
    so_far: Vec<ChatMessage>,
    wanted: StartupSession,
    loaded: Option<LoadedSession>,
    export: &Option<Json>,
    new_id: String,
    in_git_repo: bool,
) -> (r: StartedSession)
    ensures
        is_start(r, so_far@, wanted, loaded, *export, new_id, in_git_repo),
{
    match (wanted, loaded) {
        (StartupSession::Continue(chosen), Some(l)) => {
            let notice = foreign_session_notice(&chosen);
            match chosen.id {
                Some(id) => StartedSession {
                    messages: l.messages,
                    session_id: Some(id),
                    open_session_tasks: opens_session_tasks(in_git_repo),
                    restore_goal: true,
                    model: l.model,
                    notice,
                },
                None => fresh_session(so_far),
            }
        },
        (StartupSession::Resume(id), Some(l)) => StartedSession {
            messages: l.messages,
            session_id: Some(id),
            open_session_tasks: opens_session_tasks(in_git_repo),
            restore_goal: true,
            model: l.model,
            notice: None,
        },
        (StartupSession::Fork(_), Some(l)) => StartedSession {
            messages: l.messages,
            session_id: Some(new_id),
            open_session_tasks: false,
            restore_goal: false,
            model: None,
            notice: None,
        },
        (StartupSession::Fork(_), None) => match export {
            Some(e) => StartedSession {
                messages: with_exported(so_far, e),
                session_id: Some(new_id),
                open_session_tasks: false,
                restore_goal: false,
                model: None,
                notice: None,
            },
            None => fresh_session(so_far),
        },
        _ => fresh_session(so_far),
    }
}

fn with_exported(so_far: Vec<ChatMessage>, export: &Json) -> (r: Vec<ChatMessage>)
    ensures
        message_models(r@) == message_models(so_far@) + exported_messages(*export),
{
    let mut out = so_far;
    let mut more = messages_from_export(export);
    let ghost added = more@;
    out.append(&mut more);
    assert(message_models(out@) =~= message_models(so_far@) + message_models(added));
    out
}

/// The provider and the model of a restored session: where no provider is known
/// to serve the saved model, the model changes and the provider stays.
pub fn restored_model(
    provider: String,
    model: String,
    saved: Option<String>,
    resolved: Option<(String, String)>,
) -> (r: (String, String))
    ensures
        r == (match (saved, resolved) {
            (None, _) => (provider, model),
            (Some(_), Some(pair)) => pair,
            (Some(m), None) => (provider, m),
        }),
{
    match (saved, resolved) {
        (None, _) => (provider, model),
        (Some(_), Some(pair)) => pair,
        (Some(m), None) => (provider, m),
    }
}

/// The title that the terminal gets at the start.
pub open spec fn startup_title(project: Option<String>) -> Seq<char> {
    "\u{1b}]0;jfc \u{2014} "@ + (match project {
        Some(p) => p@,
        None => "jfc"@,
    }) + "\u{7}"@
}

/// The sequence that sets the terminal's title at the start.
pub fn startup_title_sequence(project: &Option<String>) -> (r: String)
    ensures
        r@ == startup_title(*project),
{
    let name = match project {
        Some(p) => p.as_str(),
        None => "jfc",
    };
    cat3("\u{1b}]0;jfc \u{2014} ", name, "\u{7}")
}

/// The session in which the first prompt is asked: the one that goes on, or else
/// a new one.
pub fn session_in_use(current: Option<String>, new_id: String) -> (r: String)
    ensures
        r == (match current {
            Some(id) => id,
            None => new_id,
        }),
{
    match current {
        Some(id) => id,
        None => new_id,
    }
}

/// The turn after a prompt was submitted: it and an empty answer stand behind the
/// messages, and the answer is awaited.
pub open spec fn is_asked(after: TurnState, before: TurnState, prompt: Seq<char>, now: Instant, total_cost: u64) -> bool {
    &&& message_models(after.messages@) == message_models(before.messages@).push(
        plain_message(Role::User, seq![PartModel::Text(prompt)]),
    ).push(plain_message(Role::Assistant, seq![PartModel::Text(""@)]))
    &&& after.total_user_turns == before.total_user_turns + 1
    &&& after.streaming_assistant_idx == Some((before.messages@.len() + 1) as usize)
    &&& after == (TurnState {
        messages: after.messages,
        total_user_turns: after.total_user_turns,
        streaming_assistant_idx: after.streaming_assistant_idx,
        is_streaming: true,
        streaming_started_at: Some(now),
        last_stream_event_at: Some(now),
        streaming_last_token_at: Some(now),
        turn_started_at: Some(now),
        turn_start_cost: total_cost,
        last_usage_output: 0,
        usage_apply_baseline: (0, 0, 0, 0),
        ..before
    })
}

/// Submit the prompt that came with the command line: it and an empty answer go
/// behind the messages, and the answer is streamed.
pub fn submit_initial_prompt(s: &mut TurnState, prompt: String, now: Instant, total_cost: u64)
    requires
        old(s).total_user_turns < usize::MAX,
        old(s).messages@.len() < usize::MAX,
    ensures
        is_asked(*final(s), *old(s), prompt@, now, total_cost),
{
    let assistant_idx: usize = s.messages.len() + 1;
    s.messages.push(ChatMessage::user(prompt));
    s.total_user_turns = s.total_user_turns + 1;
    s.messages.push(ChatMessage::assistant("".to_owned()));
    s.streaming_assistant_idx = Some(assistant_idx);
    s.is_streaming = true;
    s.streaming_started_at = Some(now);
    s.last_stream_event_at = Some(now);
    s.streaming_last_token_at = Some(now);
    s.turn_started_at = Some(now);
    s.turn_start_cost = total_cost;
    s.last_usage_output = 0;
    s.usage_apply_baseline = (0, 0, 0, 0);
}

proof fn lemma_with_new_dirs(dirs: Seq<Seq<char>>, more: Seq<Seq<char>>)
    ensures
        with_new_dirs(dirs, more).len() >= dirs.len(),
        with_new_dirs(dirs, more).take(dirs.len() as int) == dirs,
        forall|i: int| 0 <= i < more.len() ==> lists_path(with_new_dirs(dirs, more), #[trigger] more[i]),
    decreases more.len(),
{
    let after = with_new_dirs(dirs, more);
    if more.len() == 0 {
        assert(after.take(dirs.len() as int) =~= dirs);
    } else {
        let front = more.drop_last();
        lemma_with_new_dirs(dirs, front);
        let before = with_new_dirs(dirs, front);
        assert(after.take(dirs.len() as int) =~= before.take(dirs.len() as int));
        assert forall|i: int| 0 <= i < more.len() implies lists_path(after, #[trigger] more[i]) by {
            if i < front.len() {
                assert(lists_path(before, front[i]));
                let k = choose|k: int| 0 <= k < before.len() && same_path(#[trigger] before[k], front[i]);
                assert(after[k] == before[k]);
            } else if !lists_path(before, more.last()) {
                assert(same_path(after[before.len() as int], more[i]));
            }
        }
    }
}

/// Every directory of the settings is in the list afterwards, behind those that
/// were there before.
pub proof fn law_directories_are_added(dirs: Seq<Seq<char>>, more: Seq<Seq<char>>, i: int)
    requires
        0 <= i < more.len(),
    ensures
        lists_path(with_new_dirs(dirs, more), more[i]),
        with_new_dirs(dirs, more).take(dirs.len() as int) == dirs,
{
    lemma_with_new_dirs(dirs, more);
}

/// Whoever skips permissions is asked nothing, whatever else was said; otherwise what
/// was asked for holds, and what was set where nothing was.
pub proof fn law_permission_mode_is_as_asked_for(
    current: PermissionMode,
    requested: Option<PermissionMode>,
    skip_permissions: bool,
    r: PermissionMode,
)
    requires
        call_ensures(startup_permission_mode, (current, requested, skip_permissions), r),
    ensures
        skip_permissions ==> r == PermissionMode::BypassPermissions,
        !skip_permissions && requested is Some ==> r == requested->0,
        !skip_permissions && requested is None ==> r == current,
{
}

/// Remote control starts only where it was asked for, and never where it is forbidden;
/// the settings' own port comes before the usual one.
pub proof fn law_remote_control_is_never_forced(
    asked: bool,
    config: Option<RemoteControlConfig>,
    default_port: u16,
    r: Option<u16>,
)
    requires
        call_ensures(remote_control_port, (asked, config, default_port), r),
    ensures
        config matches Some(rc) ==> rc.disabled ==> r is None,
        !asked && (config matches Some(rc) ==> !rc.auto_start) ==> r is None,
        config matches Some(rc) ==> r is Some ==> r->0 == rc.port,
        config is None && asked ==> r == Some(default_port),
        config matches Some(rc) ==> !rc.disabled && (asked || rc.auto_start) ==> r is Some,
{
}

/// The last session of this directory goes on, whatever others there are; one of another
/// directory only where this one has none, and then it is said so.
pub proof fn law_sessions_of_this_directory_come_first(
    for_cwd: Option<String>,
    most_recent: Option<String>,
    r: ContinuedSession,
)
    requires
        call_ensures(choose_continued, (for_cwd, most_recent), r),
    ensures
        for_cwd is Some ==> r.id == for_cwd && !r.foreign,
        for_cwd is None ==> r.id == most_recent,
        r.foreign <==> for_cwd is None && most_recent is Some,
{
}

/// A session that goes on keeps its model; the provider changes only to one that is
/// known to serve it.
pub proof fn law_restored_sessions_keep_their_model(
    provider: String,
    model: String,
    saved: Option<String>,
    resolved: Option<(String, String)>,
    r: (String, String),
)
    requires
        call_ensures(restored_model, (provider, model, saved, resolved), r),
    ensures
        saved is None ==> r == (provider, model),
        saved is Some && resolved is None ==> r == (provider, saved->0),
        saved is Some && resolved is Some ==> r == resolved->0,
{
}

/// Each convenience of the start needs its own switch: the rewriting of prompts both to
/// be set up and switched on, the help a first run, the hint one that was not seen yet.
pub proof fn law_start_follows_the_switches(f: StartupFacts, r: StartupPlan)
    requires
        call_ensures(plan_startup, (&f,), r),
    ensures
        r.prompt_rewrite ==> f.rewrite_configured && f.rewrite_enabled,
        f.rewrite_configured && f.rewrite_enabled ==> r.prompt_rewrite,
        r.show_help <==> f.onboarding_gate && f.sessions_empty,
        r.show_auto_nudge ==> !f.nudge_seen && f.nudge_gate && f.show_startup_banner,
        !f.nudge_seen && f.nudge_gate && f.show_startup_banner ==> r.show_auto_nudge,
        f.has_local_advisor ==> r.advisor_enabled,
        f.advisor_enabled ==> r.advisor_enabled,
        !f.has_local_advisor && !f.advisor_enabled ==> !r.advisor_enabled,
        f.council_from_env ==> r.council_verdict,
        f.council_in_config == Some(true) ==> r.council_verdict,
        r.council_verdict ==> f.council_from_env || f.council_in_config == Some(true),
        r.load_history == f.cross_session_history,
        r.route_by_class == f.slate_enabled,
{
}

/// A session that is resumed goes on where it was: with its messages, its id and its
/// model. A fork has the same conversation under a new id. Without anything to go on
/// with, the conversation so far stays as it is.
pub proof fn law_started_sessions_hold_the_conversation(
    s: StartedSession,
    so_far: Seq<ChatMessage>,
    wanted: StartupSession,
    loaded: Option<LoadedSession>,
    export: Option<Json>,
    new_id: String,
    in_git_repo: bool,
)
    requires
        is_start(s, so_far, wanted, loaded, export, new_id, in_git_repo),
    ensures
        wanted is Fresh ==> s.messages@ == so_far && s.session_id is None,
        wanted matches StartupSession::Resume(id) ==> loaded is Some ==> s.messages == loaded->0.messages && s.session_id
            == Some(id) && s.model == loaded->0.model && s.restore_goal && s.notice is None,
        wanted matches StartupSession::Continue(c) ==> loaded is Some && c.id is Some ==> s.messages
            == loaded->0.messages && s.session_id == c.id && (s.notice is Some <==> c.foreign),
        wanted is Fork && loaded is Some ==> message_models(s.messages@) == message_models(loaded->0.messages@)
            && s.session_id == Some(new_id) && !s.restore_goal,
        wanted is Fork && loaded is None && export is None ==> s.messages@ == so_far && s.session_id is None,
        wanted is Fork && loaded is None && export is Some ==> s.session_id == Some(new_id)
            && message_models(s.messages@).len() >= so_far.len() && message_models(s.messages@).take(
            so_far.len() as int,
        ) == message_models(so_far),
        wanted is Resume && loaded is None ==> s.messages@ == so_far && s.session_id is None,
{
    if wanted is Fork && loaded is None && export is Some {
        let all = message_models(so_far) + exported_messages(export->0);
        assert(all.take(so_far.len() as int) =~= message_models(so_far));
    }
}

/// The title of the terminal names the project.
pub proof fn law_title_names_the_project(project: String)
    ensures
        crate::slicing::has_text(startup_title(Some(project)), project@),
{
    let front = "\u{1b}]0;jfc \u{2014} "@;
    crate::showing::lemma_has_in_sum(front, project@, project@);
    crate::showing::lemma_has_in_sum(front + project@, "\u{7}"@, project@);
}

/// A prompt that is submitted stands behind all that was said, word for word, and the
/// answer that is awaited right behind it; the messages before stay.
pub proof fn law_submitted_prompts_await_their_answer(
    after: TurnState,
    before: TurnState,
    prompt: Seq<char>,
    now: Instant,
    total_cost: u64,
    i: int,
)
    requires
        is_asked(after, before, prompt, now, total_cost),
        before.messages@.len() + 1 <= usize::MAX,
    ensures
        ({
            let msgs = message_models(after.messages@);
            let n = before.messages@.len() as int;
            &&& after.messages@.len() == n + 2
            &&& msgs[n].role == Role::User && msgs[n].parts == seq![PartModel::Text(prompt)]
            &&& after.streaming_assistant_idx == Some((n + 1) as usize)
            &&& msgs[n + 1].role == Role::Assistant
            &&& msgs[n + 1].parts.len() == 1 && (msgs[n + 1].parts[0] matches PartModel::Text(t) && t.len() == 0)
            &&& 0 <= i < n ==> msgs[i] == message_models(before.messages@)[i]
        }),
        after.is_streaming,
        after.turn_started_at == Some(now),
        after.turn_start_cost == total_cost,
        after.queued_prompts == before.queued_prompts,
{
    reveal_strlit("");
    assert(message_models(after.messages@).len() == after.messages@.len());
    assert(message_models(before.messages@).len() == before.messages@.len());
}

/// A session that runs is kept: a new name is used only where there is none.
pub proof fn law_running_sessions_keep_their_name(id: String, new_id: String, r: String)
    ensures
        call_ensures(session_in_use, (Some(id), new_id), r) ==> r == id,
        call_ensures(session_in_use, (None, new_id), r) ==> r == new_id,
{
}

/// Tasks of a session are kept apart only outside a repository.
pub proof fn law_repositories_share_their_tasks(in_git_repo: bool, r: bool)
    requires
        call_ensures(opens_session_tasks, (in_git_repo,), r),
    ensures
        r != in_git_repo,
{
}

/// A switch is on only where it is set to `1` or `true`.
pub proof fn law_switches_are_set_by_hand(value: Option<&str>, r: bool)
    requires
        call_ensures(is_switched_on, (value,), r),
    ensures
        value is None ==> !r,
        value is Some && value->0@ == "1"@ ==> r,
        value is Some && value->0@ == "true"@ ==> r,
        value is Some && value->0@ != "1"@ && value->0@ != "true"@ ==> !r,
{
}

} // verus!

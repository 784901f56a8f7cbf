//! Spawning a teammate from a task call.
//!
//! A task call that carries both a name and a team name starts a lasting
//! teammate in place of a one-shot subagent.
use vstd::prelude::*;

use crate::slicing::{group_texts, opt_text};
use crate::text::{ascii_lower, cat2, cat3, cat6, chars_of, same_text};

verus! {

broadcast use group_texts;

/// What a task call asks for.
#[derive(Debug)]
pub struct TaskInput {
    pub description: String,
    pub prompt: String,
    pub subagent_type: Option<String>,
    pub name: Option<String>,
    pub team_name: Option<String>,
    pub mode: Option<String>,
    pub parent_task_id: Option<String>,
}

impl TaskInput {
    /// The call asks for a teammate.
    pub open spec fn asks_for_teammate(self) -> bool {
        self.name is Some && self.team_name is Some
    }

    /// Whether the call asks for a teammate: it carries a name and a team name.
    pub fn is_teammate_spawn(&self) -> (r: bool)
        ensures
            r == self.asks_for_teammate(),
    {
        self.name.is_some() && self.team_name.is_some()
    }
}

/// A kind of agent that is known by name.
#[derive(Debug)]
pub struct AgentDef {
    pub name: String,
    pub max_input_tokens: Option<u64>,
}

// ── which kind of agent ─────────────────────────────────────────────────

/// The texts are equal but for the case of ASCII letters.
pub open spec fn same_but_case(a: Seq<char>, b: Seq<char>) -> bool {
    a.len() == b.len() && forall|i: int|
        0 <= i < a.len() ==> ascii_lower(#[trigger] a[i]) == ascii_lower(b[i])
}

fn ascii_code(c: char) -> (r: u32)
    ensures
        r == ascii_lower(c) as u32,
{
    if 'A' <= c && c <= 'Z' {
        c as u32 + 32
    } else {
        c as u32
    }
}

fn eq_ignore_ascii_case(a: &str, b: &str) -> (r: bool)
    ensures
        r == same_but_case(a@, b@),
{
    let x = chars_of(a);
    let y = chars_of(b);
    if x.len() != y.len() {
        return false;
    }
    let mut i: usize = 0;
    while i < x.len()
        invariant
            x@ == a@,
            y@ == b@,
            x@.len() == y@.len(),
            i <= x@.len(),
            forall|j: int| 0 <= j < i ==> ascii_lower(#[trigger] a@[j]) == ascii_lower(b@[j]),
        decreases x@.len() - i,
    {
        if ascii_code(x[i]) != ascii_code(y[i]) {
            assert(ascii_lower(a@[i as int]) != ascii_lower(b@[i as int]));
            return false;
        }
        i += 1;
    }
    true
}

/// The first agent of that name at or after `from`.
pub open spec fn def_position(agents: Seq<AgentDef>, name: Seq<char>, from: int) -> Option<int>
    decreases agents.len() - from,
{
    if from < 0 || from >= agents.len() {
        None
    } else if same_but_case(agents[from].name@, name) {
        Some(from)
    } else {
        def_position(agents, name, from + 1)
    }
}

/// The kind of agent that a call asks for.
pub open spec fn wanted_agent(input: TaskInput, agents: Seq<AgentDef>) -> Option<int> {
    match opt_text(input.subagent_type) {
        Some(name) => def_position(agents, name, 0),
        None => None,
    }
}

/// The kind of agent that a call asks for, by name without regard to case.
pub fn agent_for<'a>(input: &TaskInput, agents: &'a Vec<AgentDef>) -> (r: Option<&'a AgentDef>)
    ensures
        match wanted_agent(*input, agents@) {
            Some(i) => 0 <= i < agents@.len() && r == Some(&agents@[i]),
            None => r is None,
        },
{
    let name = match &input.subagent_type {
        Some(name) => name,
        None => {
            return None;
        },
    };
    let mut i: usize = 0;
    while i < agents.len()
        invariant
            i <= agents@.len(),
            opt_text(input.subagent_type) == Some(name@),
            def_position(agents@, name@, 0) == def_position(agents@, name@, i as int),
        decreases agents@.len() - i,
    {
        if eq_ignore_ascii_case(agents[i].name.as_str(), name.as_str()) {
            return Some(&agents[i]);
        }
        i += 1;
    }
    None
}

// ── names ───────────────────────────────────────────────────────────────

/// The id of a teammate: `name@team`.
pub open spec fn agent_id_of(name: Seq<char>, team: Seq<char>) -> Seq<char> {
    name + "@"@ + team
}

/// The id of a teammate.
pub fn make_agent_id(name: &str, team: &str) -> (r: String)
    ensures
        r@ == agent_id_of(name@, team@),
{
    cat3(name, "@", team)
}

/// The id of the background task in which a teammate runs.
pub open spec fn runner_id_of(agent_id: Seq<char>) -> Seq<char> {
    "teammate-"@ + agent_id
}

/// The id of the background task in which a teammate runs.
pub fn teammate_task_id(agent_id: &str) -> (r: String)
    ensures
        r@ == runner_id_of(agent_id@),
{
    cat2("teammate-", agent_id)
}

// ── the report ──────────────────────────────────────────────────────────

/// The texts of pairs.
pub open spec fn pairs(v: Seq<(String, String)>) -> Seq<(Seq<char>, Seq<char>)> {
    v.map_values(|p: (String, String)| (p.0@, p.1@))
}

/// The name of what `serde_json::to_string_pretty` returns for an object with
/// these members, put in one after the other.
pub uninterp spec fn pretty_json(members: Seq<(Seq<char>, Seq<char>)>) -> Seq<char>;

/// `serde_json::to_string_pretty` of an object whose members are these texts.
#[verifier::external_body]
fn pretty_object(members: &Vec<(String, String)>) -> (r: String)
    ensures
        r@ == pretty_json(pairs(members@)),
{
    let object: serde_json::Map<String, serde_json::Value> = members.iter().map(
        |(k, v)| (k.clone(), serde_json::Value::String(v.clone())),
    ).collect();
    serde_json::to_string_pretty(&object).unwrap_or_default()
}

/// What the report says in words.
pub open spec fn spawn_message(agent_id: Seq<char>, name: Seq<char>, team: Seq<char>) -> Seq<char> {
    "Spawned successfully.\nagent_id: "@ + agent_id + "\nname: "@ + name + "\nteam_name: "@ + (team
        + "\nThe agent is now running and will receive instructions via mailbox."@)
}

/// The members of the report.
pub open spec fn report_members(agent_id: Seq<char>, name: Seq<char>, team: Seq<char>, color: Seq<char>) -> Seq<
    (Seq<char>, Seq<char>),
> {
    seq![
        ("status"@, "teammate_spawned"@),
        ("teammate_id"@, agent_id),
        ("name"@, name),
        ("team_name"@, team),
        ("color"@, color),
        ("message"@, spawn_message(agent_id, name, team)),
    ]
}

/// The members of the report on a teammate.
pub fn report_fields(agent_id: &str, name: &str, team: &str, color: &str) -> (r: Vec<(String, String)>)
    ensures
        pairs(r@) == report_members(agent_id@, name@, team@, color@),
{
    let message = cat6(
        "Spawned successfully.\nagent_id: ",
        agent_id,
        "\nname: ",
        name,
        "\nteam_name: ",
        cat2(team, "\nThe agent is now running and will receive instructions via mailbox.").as_str(),
    );
    let mut out: Vec<(String, String)> = Vec::new();
    out.push(("status".to_owned(), "teammate_spawned".to_owned()));
    out.push(("teammate_id".to_owned(), agent_id.to_owned()));
    out.push(("name".to_owned(), name.to_owned()));
    out.push(("team_name".to_owned(), team.to_owned()));
    out.push(("color".to_owned(), color.to_owned()));
    out.push(("message".to_owned(), message));
    assert(pairs(out@) =~= report_members(agent_id@, name@, team@, color@));
    out
}

/// The report on a teammate, as the tool's result.
pub fn spawn_report(agent_id: &str, name: &str, team: &str, color: &str) -> (r: String)
    ensures
        r@ == pretty_json(report_members(agent_id@, name@, team@, color@)),
{
    pretty_object(&report_fields(agent_id, name, team, color))
}

// ── the plan ────────────────────────────────────────────────────────────

/// All that is needed to start a teammate and to tell the others.
#[derive(Debug)]
pub struct TeammateSpawn {
    pub agent_id: String,
    pub name: String,
    pub team_name: String,
    pub color: String,
    pub agent_type: Option<String>,
    pub model: String,
    /// The teammate has to have its plans approved.
    pub plan_mode_required: bool,
    pub mode: Option<String>,
    pub parent_session_id: String,
    pub prompt: String,
    pub description: String,
    /// The background task in which the teammate runs.
    pub runner_task_id: String,
    pub runner_description: String,
    pub max_input_tokens: Option<u64>,
    pub parent_task_id: Option<String>,
    /// The result of the task call.
    pub report: String,
}

/// What comes of a task call.
#[derive(Debug)]
pub enum SpawnPlan {
    /// The call does not ask for a teammate.
    NotATeammate,
    /// No model could be found; the call fails with this.
    Refused(String),
    Spawn(TeammateSpawn),
}

fn clone_opt(s: &Option<String>) -> (r: Option<String>)
    ensures
        r == *s,
{
    match s {
        Some(t) => Some(t.clone()),
        None => None,
    }
}

/// The text, or nothing where it is missing.
pub open spec fn or_empty(s: Option<Seq<char>>) -> Seq<char> {
    match s {
        Some(t) => t,
        None => Seq::empty(),
    }
}

fn text_or_empty(s: &Option<String>) -> (r: String)
    ensures
        r@ == or_empty(opt_text(*s)),
{
    match s {
        Some(t) => t.clone(),
        None => String::new(),
    }
}

/// What it takes to start the teammate that a call asks for.
pub open spec fn is_spawn_of(
    s: TeammateSpawn,
    input: TaskInput,
    agents: Seq<AgentDef>,
    session: Option<Seq<char>>,
    color: Seq<char>,
    model: Seq<char>,
) -> bool {
    let name = or_empty(opt_text(input.name));
    let team = or_empty(opt_text(input.team_name));
    &&& s.name@ == name
    &&& s.team_name@ == team
    &&& s.agent_id@ == agent_id_of(name, team)
    &&& s.color@ == color
    &&& s.agent_type == input.subagent_type
    &&& s.model@ == model
    &&& s.plan_mode_required == (opt_text(input.mode) == Some("plan"@))
    &&& s.mode == input.mode
    &&& s.parent_session_id@ == or_empty(session)
    &&& s.prompt@ == input.prompt@
    &&& s.description@ == input.description@
    &&& s.runner_task_id@ == runner_id_of(agent_id_of(name, team))
    &&& s.runner_description@ == "spawn teammate: "@ + name
    &&& s.max_input_tokens == (match wanted_agent(input, agents) {
        Some(i) => agents[i].max_input_tokens,
        None => None,
    })
    &&& s.parent_task_id == input.parent_task_id
    &&& s.report@ == pretty_json(report_members(agent_id_of(name, team), name, team, color))
}

/// What comes of a task call, with the colour that the teammate gets and the
/// model that was found for it.
pub fn try_spawn_teammate(
    input: &TaskInput,
    agents: &Vec<AgentDef>,
    session: &Option<String>,
    color: String,
    model: Result<String, String>,
) -> (r: SpawnPlan)
    ensures
        match r {
            SpawnPlan::NotATeammate => !input.asks_for_teammate(),
            SpawnPlan::Refused(e) => input.asks_for_teammate() && model == Err::<String, String>(e),
            SpawnPlan::Spawn(s) => input.asks_for_teammate() && model is Ok && is_spawn_of(
                s,
                *input,
                agents@,
                opt_text(*session),
                color@,
                model->Ok_0@,
            ),
        },
{
    if !input.is_teammate_spawn() {
        return SpawnPlan::NotATeammate;
    }
    let model = match model {
        Ok(model) => model,
        Err(error) => {
            return SpawnPlan::Refused(error);
        },
    };
    let name = text_or_empty(&input.name);
    let team_name = text_or_empty(&input.team_name);
    let agent_id = make_agent_id(name.as_str(), team_name.as_str());
    let report = spawn_report(agent_id.as_str(), name.as_str(), team_name.as_str(), color.as_str());
    let plan_mode_required = match &input.mode {
        Some(mode) => same_text(mode.as_str(), "plan"),
        None => false,
    };
    let max_input_tokens = match agent_for(input, agents) {
        Some(def) => def.max_input_tokens,
        None => None,
    };
    let runner_task_id = teammate_task_id(agent_id.as_str());
    let runner_description = cat2("spawn teammate: ", name.as_str());
    SpawnPlan::Spawn(
        TeammateSpawn {
            agent_id,
            name,
            team_name,
            color,
            agent_type: clone_opt(&input.subagent_type),
            model,
            plan_mode_required,
            mode: clone_opt(&input.mode),
            parent_session_id: text_or_empty(session),
            prompt: input.prompt.clone(),
            description: input.description.clone(),
            runner_task_id,
            runner_description,
            max_input_tokens,
            parent_task_id: clone_opt(&input.parent_task_id),
            report,
        },
    )
}

/// Teammates whose names hold no `@` have different ids unless both their names
/// and their teams are equal.
pub proof fn law_agent_ids_differ(name: Seq<char>, team: Seq<char>, other: Seq<char>, other_team: Seq<char>)
    requires
        !name.contains('@'),
        !other.contains('@'),
        agent_id_of(name, team) == agent_id_of(other, other_team),
    ensures
        name == other,
        team == other_team,
{
    reveal_strlit("@");
    let a = agent_id_of(name, team);
    assert(a[name.len() as int] == '@');
    assert(a[other.len() as int] == '@');
    if name.len() < other.len() {
        assert(other[name.len() as int] == '@');
    }
    if other.len() < name.len() {
        assert(name[other.len() as int] == '@');
    }
    assert(name =~= a.take(name.len() as int));
    assert(other =~= a.take(name.len() as int));
    assert(team =~= a.skip(name.len() as int + 1));
    assert(other_team =~= a.skip(name.len() as int + 1));
}

proof fn lemma_def_position(agents: Seq<AgentDef>, name: Seq<char>, from: int)
    requires
        0 <= from <= agents.len(),
    ensures
        match def_position(agents, name, from) {
            Some(i) => from <= i < agents.len() && same_but_case(agents[i].name@, name) && forall|j: int|
                from <= j < i ==> !same_but_case((#[trigger] agents[j]).name@, name),
            None => forall|j: int|
                from <= j < agents.len() ==> !same_but_case((#[trigger] agents[j]).name@, name),
        },
    decreases agents.len() - from,
{
    if from < agents.len() {
        lemma_def_position(agents, name, from + 1);
    }
}

/// The definition that a call asks for is the first of that name, whatever its case; an
/// agent that is defined under its own name is always found.
pub proof fn law_defined_agents_are_found(input: TaskInput, agents: Seq<AgentDef>, k: int)
    requires
        0 <= k < agents.len(),
        opt_text(input.subagent_type) == Some(agents[k].name@),
    ensures
        wanted_agent(input, agents) matches Some(i) && 0 <= i <= k && same_but_case(agents[i].name@, agents[k].name@),
{
    lemma_def_position(agents, agents[k].name@, 0);
    assert(same_but_case(agents[k].name@, agents[k].name@));
}

/// A spawn carries the request unchanged: the prompt and the description to the
/// teammate, its name, team, model and colour, and a plan mode exactly where the call
/// asks for one.
pub proof fn law_spawns_carry_the_request(
    s: TeammateSpawn,
    input: TaskInput,
    agents: Seq<AgentDef>,
    session: Option<Seq<char>>,
    color: Seq<char>,
    model: Seq<char>,
)
    requires
        input.asks_for_teammate(),
        is_spawn_of(s, input, agents, session, color, model),
    ensures
        s.prompt@ == input.prompt@,
        s.description@ == input.description@,
        s.name@ == input.name->0@,
        s.team_name@ == input.team_name->0@,
        s.model@ == model,
        s.color@ == color,
        s.agent_type == input.subagent_type,
        s.parent_task_id == input.parent_task_id,
        session is Some ==> s.parent_session_id@ == session->0,
        s.plan_mode_required <==> input.mode is Some && input.mode->0@ == "plan"@,
        crate::slicing::has_text(s.agent_id@, s.name@),
        crate::slicing::has_text(s.agent_id@, s.team_name@),
        crate::slicing::has_text(s.runner_task_id@, s.agent_id@),
        crate::slicing::has_text(s.runner_description@, s.name@),
        (forall|k: int|
            0 <= k < agents.len() ==> !same_but_case((#[trigger] agents[k]).name@, or_empty(
                opt_text(input.subagent_type),
            ))) ==> s.max_input_tokens is None,
{
    crate::showing::lemma_has_itself(s.name@);
    crate::showing::lemma_has_in_sum(s.name@, "@"@, s.name@);
    crate::showing::lemma_has_in_sum(s.name@ + "@"@, s.team_name@, s.name@);
    crate::showing::lemma_has_in_sum("teammate-"@, s.agent_id@, s.name@);
    crate::showing::lemma_has_in_sum("spawn teammate: "@, s.name@, s.name@);
    if input.subagent_type is Some {
        lemma_def_position(agents, input.subagent_type->0@, 0);
    }
}

/// The report of a spawn tells the id, the name, the team and the colour, and its
/// message says the first three again.
pub proof fn law_reports_tell_who_was_spawned(agent_id: Seq<char>, name: Seq<char>, team: Seq<char>, color: Seq<char>)
    ensures
        report_members(agent_id, name, team, color).contains(("teammate_id"@, agent_id)),
        report_members(agent_id, name, team, color).contains(("name"@, name)),
        report_members(agent_id, name, team, color).contains(("team_name"@, team)),
        report_members(agent_id, name, team, color).contains(("color"@, color)),
        crate::slicing::has_text(spawn_message(agent_id, name, team), agent_id),
        crate::slicing::has_text(spawn_message(agent_id, name, team), name),
        crate::slicing::has_text(spawn_message(agent_id, name, team), team),
{
    let m = report_members(agent_id, name, team, color);
    assert(m[1] == ("teammate_id"@, agent_id));
    assert(m[2] == ("name"@, name));
    assert(m[3] == ("team_name"@, team));
    assert(m[4] == ("color"@, color));
    let a = "Spawned successfully.\nagent_id: "@;
    let end = team + "\nThe agent is now running and will receive instructions via mailbox."@;
    crate::showing::lemma_has_in_sum(a, agent_id, agent_id);
    crate::showing::lemma_has_in_sum(a + agent_id, "\nname: "@, agent_id);
    let b = a + agent_id + "\nname: "@;
    crate::showing::lemma_has_in_sum(b, name, agent_id);
    crate::showing::lemma_has_in_sum(b + name, "\nteam_name: "@, agent_id);
    crate::showing::lemma_has_in_sum(b + name, "\nteam_name: "@, name);
    let c = b + name + "\nteam_name: "@;
    crate::showing::lemma_has_in_sum(c, end, agent_id);
    crate::showing::lemma_has_in_sum(c, end, name);
    crate::showing::lemma_has_itself(team);
    crate::showing::lemma_has_in_sum(
        team,
        "\nThe agent is now running and will receive instructions via mailbox."@,
        team,
    );
    crate::showing::lemma_has_in_sum(c, end, team);
}

} // verus!

use jfc::effort::{resolve_effort_for_model, EffortConfig, EffortLayer};
use jfc::event_loop::{
    burst_has_room, prioritize_terminal_events, session_state, AppEvent, FrameGate, SessionState, UiEvent,
};
use jfc::text_map::TextMap;
use jfc::time::{Duration, Instant};

#[test]
fn terminal_events_are_prioritized_within_burst_robust() {
    let mut events: Vec<AppEvent<&str, &str>> = vec![
        AppEvent::Engine("first"),
        AppEvent::Ui(UiEvent::Tick),
        AppEvent::Ui(UiEvent::Term("esc")),
        AppEvent::Engine("second"),
    ];
    prioritize_terminal_events(&mut events);
    assert!(matches!(&events[0], AppEvent::Ui(UiEvent::Term(_))));
    assert!(matches!(&events[1], AppEvent::Engine("first")));
    assert!(matches!(&events[2], AppEvent::Ui(UiEvent::Tick)));
    assert!(matches!(&events[3], AppEvent::Engine("second")));
    assert!(events[2].is_tick() && !events[1].is_tick());
    assert!(events[0].is_terminal_input());
}

const MODEL: &str = "anthropic/opus-4-7";
const BARE: &str = "opus-4-7";

fn cfg_with(default_effort: Option<&str>, agents: &[(&str, &str)]) -> EffortConfig {
    let mut cfg = EffortConfig {
        default: EffortLayer { ultracode: None, reasoning_effort: default_effort.map(String::from) },
        agents: TextMap::new(),
    };
    for (name, effort) in agents {
        cfg.agents.insert(
            (*name).to_string(),
            EffortLayer { ultracode: None, reasoning_effort: Some((*effort).to_string()) },
        );
    }
    cfg
}

#[test]
fn falls_back_to_default_when_no_agent_match_normal() {
    let cfg = cfg_with(Some("high"), &[]);
    assert_eq!(resolve_effort_for_model(&cfg, MODEL), Some("high".to_string()));
}

#[test]
fn exact_qualified_match_wins_over_default_normal() {
    let cfg = cfg_with(Some("low"), &[(MODEL, "max")]);
    assert_eq!(resolve_effort_for_model(&cfg, MODEL), Some("max".to_string()));
}

#[test]
fn bare_model_match_wins_over_default_normal() {
    let cfg = cfg_with(Some("low"), &[(BARE, "xhigh")]);
    assert_eq!(resolve_effort_for_model(&cfg, MODEL), Some("xhigh".to_string()));
}

#[test]
fn returns_none_when_nothing_configured_robust() {
    let cfg = cfg_with(None, &[]);
    assert_eq!(resolve_effort_for_model(&cfg, MODEL), None);
}

#[test]
fn ultracode_default_forces_xhigh_normal() {
    let mut cfg = cfg_with(Some("low"), &[(BARE, "medium")]);
    cfg.default.ultracode = Some(true);
    assert_eq!(
        resolve_effort_for_model(&cfg, MODEL),
        Some("xhigh".to_string()),
        "ultracode must force xhigh"
    );
}

#[test]
fn ultracode_agent_forces_xhigh_normal() {
    let mut cfg = cfg_with(Some("low"), &[]);
    cfg.agents.insert(
        BARE.into(),
        EffortLayer { ultracode: Some(true), reasoning_effort: Some("medium".into()) },
    );
    assert_eq!(resolve_effort_for_model(&cfg, MODEL), Some("xhigh".to_string()));
}

#[test]
fn ultracode_agent_false_opts_out_of_default_robust() {
    let mut cfg = cfg_with(Some("low"), &[]);
    cfg.default.ultracode = Some(true);
    cfg.agents.insert(BARE.into(), EffortLayer { ultracode: Some(false), ..EffortLayer::default() });
    assert_eq!(
        resolve_effort_for_model(&cfg, MODEL),
        None,
        "explicit agent ultracode=false must opt out of [default] ultracode"
    );
}

#[test]
fn ultracode_unset_uses_normal_effort_precedence_robust() {
    let cfg = cfg_with(Some("high"), &[]);
    assert_eq!(resolve_effort_for_model(&cfg, MODEL), Some("high".to_string()));
}

#[test]
fn frames_wait_for_their_budget_but_typing_does_not() {
    let start = Instant::at_nanos(0);
    let mut gate = FrameGate::new(start);
    assert!(!gate.decide(true, false, start));
    assert!(gate.decide(false, true, start));
    assert!(!gate.decide(false, false, start.checked_add(Duration::from_secs(1)).unwrap()));
    assert!(gate.decide(true, false, start.checked_add(Duration::from_secs(1)).unwrap()));
}

#[test]
fn bursts_end() {
    assert!(burst_has_room(0));
    assert!(!burst_has_room(1_000_000));
    assert_eq!(session_state(true, true), SessionState::Running);
}

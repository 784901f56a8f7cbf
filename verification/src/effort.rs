//! How hard a model is asked to think.
use vstd::prelude::*;

use crate::slicing::{group_texts, opt_text, pieces, split_char, texts};
use crate::text_map::TextMap;

verus! {

broadcast use group_texts;

/// What the configuration says about one model, or about all of them.
#[derive(Debug)]
pub struct EffortLayer {
    pub ultracode: Option<bool>,
    pub reasoning_effort: Option<String>,
}

impl Default for EffortLayer {
    fn default() -> (r: Self)
        ensures
            r.ultracode is None,
            r.reasoning_effort is None,
    {
        EffortLayer { ultracode: None, reasoning_effort: None }
    }
}

/// The part of the configuration that decides about effort.
#[derive(Debug)]
pub struct EffortConfig {
    pub default: EffortLayer,
    pub agents: TextMap<EffortLayer>,
}

/// A model's name without its provider.
pub open spec fn bare_name(model: Seq<char>) -> Seq<char> {
    pieces(model, '/', 0).last()
}

fn bare_model(model: &str) -> (r: String)
    ensures
        r@ == bare_name(model@),
{
    let parts = split_char(model, '/');
    assert(texts(parts@).last() == parts@.last()@);
    parts[parts.len() - 1].clone()
}

/// The switch of a layer.
pub open spec fn switch_of(agents: TextMap<EffortLayer>, name: Seq<char>) -> Option<bool> {
    if agents@.contains_key(name) {
        agents@[name].ultracode
    } else {
        None
    }
}

/// The effort of a layer.
pub open spec fn effort_of(agents: TextMap<EffortLayer>, name: Seq<char>) -> Option<String> {
    if agents@.contains_key(name) {
        agents@[name].reasoning_effort
    } else {
        None
    }
}

/// The first value, from the narrowest layer to the widest.
pub open spec fn first_of<A>(a: Option<A>, b: Option<A>, c: Option<A>) -> Option<A> {
    if a is Some {
        a
    } else if b is Some {
        b
    } else {
        c
    }
}

/// The effort for a model. The switch of the narrowest layer that sets it
/// decides alone: on asks for the highest effort, off leaves it to the server.
/// Without a switch the narrowest layer that sets an effort counts.
pub open spec fn effort_for(cfg: EffortConfig, model: Seq<char>) -> Option<Seq<char>> {
    let bare = bare_name(model);
    match first_of(switch_of(cfg.agents, model), switch_of(cfg.agents, bare), cfg.default.ultracode) {
        Some(true) => Some("xhigh"@),
        Some(false) => None,
        None => opt_text(
            first_of(effort_of(cfg.agents, model), effort_of(cfg.agents, bare), cfg.default.reasoning_effort),
        ),
    }
}

fn layer_switch(agents: &TextMap<EffortLayer>, name: &str) -> (r: Option<bool>)
    ensures
        r == switch_of(*agents, name@),
{
    match agents.get(name) {
        Some(layer) => layer.ultracode,
        None => None,
    }
}

fn layer_effort(agents: &TextMap<EffortLayer>, name: &str) -> (r: Option<String>)
    ensures
        r == effort_of(*agents, name@),
{
    match agents.get(name) {
        Some(layer) => match &layer.reasoning_effort {
            Some(e) => Some(e.clone()),
            None => None,
        },
        None => None,
    }
}

/// Choose the effort for `model`: the model's own block, then the one under its
/// bare name, then the default.
pub fn resolve_effort_for_model(cfg: &EffortConfig, model: &str) -> (r: Option<String>)
    ensures
        opt_text(r) == effort_for(*cfg, model@),
{
    let bare = bare_model(model);
    let switch = match layer_switch(&cfg.agents, model) {
        Some(b) => Some(b),
        None => match layer_switch(&cfg.agents, bare.as_str()) {
            Some(b) => Some(b),
            None => cfg.default.ultracode,
        },
    };
    if let Some(on) = switch {
        return if on {
            Some("xhigh".to_owned())
        } else {
            None
        };
    }
    if let Some(e) = layer_effort(&cfg.agents, model) {
        return Some(e);
    }
    if let Some(e) = layer_effort(&cfg.agents, bare.as_str()) {
        return Some(e);
    }
    match &cfg.default.reasoning_effort {
        Some(e) => Some(e.clone()),
        None => None,
    }
}

/// A model's own switch decides, whatever the wider layers say.
pub proof fn law_narrow_switch_decides(cfg: EffortConfig, model: Seq<char>, on: bool)
    requires
        switch_of(cfg.agents, model) == Some(on),
    ensures
        effort_for(cfg, model) == (if on {
            Some("xhigh"@)
        } else {
            None
        }),
{
}

/// Where no layer switches the effort, the model's own effort is asked for, then
/// that of its bare name, then the default; where nothing is set, none is.
pub proof fn law_narrow_effort_decides(cfg: EffortConfig, model: Seq<char>)
    requires
        switch_of(cfg.agents, model) is None,
        switch_of(cfg.agents, bare_name(model)) is None,
        cfg.default.ultracode is None,
    ensures
        cfg.agents@.contains_key(model) && cfg.agents@[model].reasoning_effort is Some ==> effort_for(cfg, model)
            == Some(cfg.agents@[model].reasoning_effort->0@),
        !cfg.agents@.contains_key(model) && cfg.agents@.contains_key(bare_name(model))
            && cfg.agents@[bare_name(model)].reasoning_effort is Some ==> effort_for(cfg, model) == Some(
            cfg.agents@[bare_name(model)].reasoning_effort->0@,
        ),
        !cfg.agents@.contains_key(model) && !cfg.agents@.contains_key(bare_name(model)) ==> effort_for(cfg, model)
            == opt_text(cfg.default.reasoning_effort),
{
}

/// A model without a layer of its own, and without one for its bare name, goes by the
/// default alone: whatever the other models ask for, its effort stays the same.
pub proof fn law_other_models_do_not_matter(cfg: EffortConfig, other: EffortConfig, model: Seq<char>)
    requires
        !cfg.agents@.contains_key(model),
        !cfg.agents@.contains_key(bare_name(model)),
        !other.agents@.contains_key(model),
        !other.agents@.contains_key(bare_name(model)),
        cfg.default == other.default,
    ensures
        effort_for(cfg, model) == effort_for(other, model),
        cfg.default.ultracode == Some(true) ==> effort_for(cfg, model) == Some("xhigh"@),
        cfg.default.ultracode == Some(false) ==> effort_for(cfg, model) is None,
{
}

proof fn lemma_last_piece(model: Seq<char>, from: int)
    requires
        0 <= from <= model.len(),
    ensures
        ({
            let last = pieces(model, '/', from).last();
            &&& from + last.len() <= model.len()
            &&& last == model.skip(model.len() - last.len())
            &&& from + last.len() < model.len() ==> model[model.len() - last.len() - 1] == '/'
        }),
    decreases model.len() - from,
{
    crate::slicing::lemma_first_index(model, '/', from);
    let end = crate::slicing::first_index(model, '/', from);
    if 0 <= from <= end < model.len() {
        lemma_last_piece(model, end + 1);
        let rest = pieces(model, '/', end + 1);
        crate::showing::law_splitting_is_undone(model, '/', end + 1);
        assert(pieces(model, '/', from).last() == rest.last());
    } else {
        assert(pieces(model, '/', from).last() =~= model.skip(from));
    }
}

/// The bare name of a model is what stands behind the last slash of its name, or the
/// whole name where there is none.
pub proof fn law_bare_name_stands_behind_the_last_slash(model: Seq<char>)
    ensures
        ({
            let bare = bare_name(model);
            &&& bare.len() <= model.len()
            &&& bare == model.skip(model.len() - bare.len())
            &&& !bare.contains('/')
            &&& bare.len() < model.len() ==> model[model.len() - bare.len() - 1] == '/'
        }),
{
    lemma_last_piece(model, 0);
    crate::showing::law_splitting_is_undone(model, '/', 0);
    let all = pieces(model, '/', 0);
    assert(!all[all.len() - 1].contains('/'));
}

} // verus!

//! What providers and servers report, and where it is kept.
use vstd::prelude::*;

use crate::sidebar::{LspServer, McpServer};
use crate::status::QuotaSnapshot;
use crate::text_map::TextMap;

verus! {

/// A finding of a compiler or a language server.
#[derive(Debug, Clone)]
pub struct DiagnosticEntry {
    pub file: String,
    pub line: u32,
    pub message: String,
    pub is_error: bool,
}

/// What the provider's status page says, or why it could not be read.
#[derive(Debug)]
pub struct StatusUpdate {
    pub snapshot: Option<String>,
    pub error: Option<String>,
}

/// What providers and servers report.
#[derive(Debug)]
pub enum ProviderEvent {
    McpUpdated(Vec<McpServer>),
    LspUpdated(Vec<LspServer>),
    DiagnosticsUpdated(Vec<DiagnosticEntry>),
    ModelsLoaded { provider: String, models: Vec<String> },
    ProfileLoaded { seat_tier: Option<String>, subscription_type: Option<String>, email: Option<String> },
    AnthropicSnapshotUpdated(Option<QuotaSnapshot>),
    ClaudeStatusUpdated(StatusUpdate),
}

/// What is kept of it.
#[derive(Debug)]
pub struct ProviderState {
    pub mcp_servers: Vec<McpServer>,
    pub lsp_servers: Vec<LspServer>,
    pub diagnostics: Vec<DiagnosticEntry>,
    pub provider_models: TextMap<Vec<String>>,
    pub seat_tier: Option<String>,
    pub subscription_type: Option<String>,
    pub account_email: Option<String>,
    pub account_snapshot: Option<QuotaSnapshot>,
    pub service_status: Option<String>,
    pub service_status_error: Option<String>,
}

/// What else an event asks for.
#[derive(Debug, Clone, Copy, PartialEq, Eq, Structural)]
pub struct ProviderFollowUp {
    /// Share the findings with the requests to come.
    pub publish_diagnostics: bool,
    /// The size of the context may have changed.
    pub sync_context_window: bool,
    /// The list of models may have changed.
    pub refresh_models: bool,
}

/// The state after an event, but for the models.
pub open spec fn settled(s: ProviderState, ev: ProviderEvent) -> ProviderState {
    match ev {
        ProviderEvent::McpUpdated(servers) => ProviderState { mcp_servers: servers, ..s },
        ProviderEvent::LspUpdated(servers) => ProviderState { lsp_servers: servers, ..s },
        ProviderEvent::DiagnosticsUpdated(entries) => ProviderState { diagnostics: entries, ..s },
        ProviderEvent::ModelsLoaded { provider, models } => s,
        ProviderEvent::ProfileLoaded { seat_tier, subscription_type, email } => ProviderState {
            seat_tier,
            subscription_type,
            account_email: email,
            ..s
        },
        ProviderEvent::AnthropicSnapshotUpdated(snapshot) => ProviderState { account_snapshot: snapshot, ..s },
        ProviderEvent::ClaudeStatusUpdated(update) => if update.snapshot is Some {
            ProviderState { service_status: update.snapshot, service_status_error: None, ..s }
        } else if update.error is Some {
            ProviderState { service_status_error: update.error, ..s }
        } else {
            s
        },
    }
}

/// The models by provider after an event.
pub open spec fn models_after(s: ProviderState, ev: ProviderEvent) -> Map<Seq<char>, Vec<String>> {
    match ev {
        ProviderEvent::ModelsLoaded { provider, models } => s.provider_models@.insert(provider@, models),
        _ => s.provider_models@,
    }
}

/// What an event asks for.
pub open spec fn follow_up(ev: ProviderEvent) -> ProviderFollowUp {
    ProviderFollowUp {
        publish_diagnostics: ev is DiagnosticsUpdated,
        sync_context_window: ev is ModelsLoaded,
        refresh_models: ev is ModelsLoaded || ev is ProfileLoaded,
    }
}

/// Keep what an event reports.
pub fn handle_provider_event(s: &mut ProviderState, ev: ProviderEvent) -> (r: ProviderFollowUp)
    ensures
        is_settled(*final(s), *old(s), ev),
        r == follow_up(ev),
{
    let none = ProviderFollowUp { publish_diagnostics: false, sync_context_window: false, refresh_models: false };
    match ev {
        ProviderEvent::McpUpdated(servers) => {
            s.mcp_servers = servers;
            none
        },
        ProviderEvent::LspUpdated(servers) => {
            s.lsp_servers = servers;
            none
        },
        ProviderEvent::DiagnosticsUpdated(entries) => {
            s.diagnostics = entries;
            ProviderFollowUp { publish_diagnostics: true, ..none }
        },
        ProviderEvent::ModelsLoaded { provider, models } => {
            s.provider_models.insert(provider, models);
            ProviderFollowUp { sync_context_window: true, refresh_models: true, ..none }
        },
        ProviderEvent::ProfileLoaded { seat_tier, subscription_type, email } => {
            s.seat_tier = seat_tier;
            s.subscription_type = subscription_type;
            s.account_email = email;
            ProviderFollowUp { refresh_models: true, ..none }
        },
        ProviderEvent::AnthropicSnapshotUpdated(snapshot) => {
            s.account_snapshot = snapshot;
            none
        },
        ProviderEvent::ClaudeStatusUpdated(update) => {
            if update.snapshot.is_some() {
                s.service_status = update.snapshot;
                s.service_status_error = None;
            } else if update.error.is_some() {
                s.service_status_error = update.error;
            }
            none
        },
    }
}

/// A failed look at the status page keeps what was last known of it.
pub proof fn law_status_survives_an_error(s: ProviderState, update: StatusUpdate)
    requires
        update.snapshot is None,
    ensures
        settled(s, ProviderEvent::ClaudeStatusUpdated(update)).service_status == s.service_status,
{
}

/// The state after an event.
pub open spec fn is_settled(after: ProviderState, before: ProviderState, ev: ProviderEvent) -> bool {
    &&& after == (ProviderState { provider_models: after.provider_models, ..settled(before, ev) })
    &&& after.provider_models@ == models_after(before, ev)
}

/// What an event brings is known afterwards, whatever was known before.
pub proof fn law_news_is_taken_over(after: ProviderState, before: ProviderState, ev: ProviderEvent)
    requires
        is_settled(after, before, ev),
    ensures
        match ev {
            ProviderEvent::McpUpdated(servers) => after.mcp_servers == servers,
            ProviderEvent::LspUpdated(servers) => after.lsp_servers == servers,
            ProviderEvent::DiagnosticsUpdated(entries) => after.diagnostics == entries,
            ProviderEvent::ModelsLoaded { provider, models } => after.provider_models@.contains_key(provider@)
                && after.provider_models@[provider@] == models,
            ProviderEvent::ProfileLoaded { seat_tier, subscription_type, email } => after.seat_tier == seat_tier
                && after.subscription_type == subscription_type && after.account_email == email,
            ProviderEvent::AnthropicSnapshotUpdated(snapshot) => after.account_snapshot == snapshot,
            ProviderEvent::ClaudeStatusUpdated(update) => (update.snapshot is Some ==> after.service_status
                == update.snapshot && after.service_status_error is None) && (update.snapshot is None
                && update.error is Some ==> after.service_status_error == update.error),
        },
{
}

/// An event changes only what it speaks of: a part of the state that differs
/// afterwards was changed by an event of its own.
pub proof fn law_news_changes_nothing_else(after: ProviderState, before: ProviderState, ev: ProviderEvent, other: Seq<char>)
    requires
        is_settled(after, before, ev),
    ensures
        after.mcp_servers != before.mcp_servers ==> ev is McpUpdated,
        after.lsp_servers != before.lsp_servers ==> ev is LspUpdated,
        after.diagnostics != before.diagnostics ==> ev is DiagnosticsUpdated,
        after.seat_tier != before.seat_tier ==> ev is ProfileLoaded,
        after.subscription_type != before.subscription_type ==> ev is ProfileLoaded,
        after.account_email != before.account_email ==> ev is ProfileLoaded,
        after.account_snapshot != before.account_snapshot ==> ev is AnthropicSnapshotUpdated,
        after.service_status != before.service_status ==> ev is ClaudeStatusUpdated,
        after.service_status_error != before.service_status_error ==> ev is ClaudeStatusUpdated,
        !(ev is ModelsLoaded && ev->provider@ == other) ==> after.provider_models@.contains_key(other)
            == before.provider_models@.contains_key(other),
        !(ev is ModelsLoaded && ev->provider@ == other) && before.provider_models@.contains_key(other)
            ==> after.provider_models@[other] == before.provider_models@[other],
{
}

/// Whoever depends on what changed is told: requests of new findings, and the list of
/// models of anything that may change it.
pub proof fn law_news_is_passed_on(ev: ProviderEvent)
    ensures
        ev is DiagnosticsUpdated ==> follow_up(ev).publish_diagnostics,
        ev is ModelsLoaded ==> follow_up(ev).sync_context_window && follow_up(ev).refresh_models,
        ev is ProfileLoaded ==> follow_up(ev).refresh_models,
        ev is McpUpdated || ev is LspUpdated || ev is AnthropicSnapshotUpdated || ev is ClaudeStatusUpdated ==> !follow_up(
            ev,
        ).publish_diagnostics && !follow_up(ev).sync_context_window && !follow_up(ev).refresh_models,
{
}

} // verus!

//! What the information sidebar tells: every session, share, model, server, teammate
//! and change has its place in it.
use vstd::prelude::*;

use crate::fitting::{grouped, law_aligning_adds_only_space, left_aligned, right_aligned, shortened};
use crate::order::{rank_order, sorted};
use crate::pinned::Row;
use crate::showing::{lemma_has_in_sum, lemma_has_itself, lemma_row_has, row_text, shows};
use crate::sidebar::{
    all_use_rows, body_row, change_counts, change_rows, context_rows, detail_tone, file_rows, least, less,
    level_bar, lower_rows, lsp_row, lsp_rows, mcp_row, mcp_rows, member_rows, middle_rows, minus,
    model_use_rows, plugin_detail_lines, scrolled, session_rows, share_label, share_row, share_rows,
    sidebar_rows, spark_bars, state_shares, team_rows, title_of, titled, upper_rows, usage_rows, window_size,
    ContextGauge, ContextShare, DiffStats, LspServer, LspStatus, McpServer, McpStatus, ModelUseRow, SessionMeta,
    SidebarState, TeamMember, TeamView, TEAM_LEAD_NAME,
};
use crate::plugin_health::{detail_health, plugin_details};
use crate::slicing::{has_suffix, has_text, texts};
use crate::styled::{row1, Style, Tone};
use crate::text::decimal;
use crate::time::Instant;

verus! {

proof fn lemma_rows_in_sum(a: Seq<Row>, b: Seq<Row>, row: Row)
    ensures
        a.contains(row) ==> (a + b).contains(row),
        b.contains(row) ==> (a + b).contains(row),
{
    if a.contains(row) {
        let i = choose|i: int| 0 <= i < a.len() && a[i] == row;
        assert((a + b)[i] == row);
    }
    if b.contains(row) {
        let i = choose|i: int| 0 <= i < b.len() && b[i] == row;
        assert((a + b)[a.len() + i] == row);
    }
}

proof fn lemma_suffix_is_had(s: Seq<char>, w: Seq<char>)
    requires
        has_suffix(s, w),
    ensures
        has_text(s, w),
{
}

// ── the session ─────────────────────────────────────────────────────────

/// A session is known by its title, and by its id where it has none.
pub proof fn law_sessions_are_known_by_their_title(metas: Seq<SessionMeta>, id: Seq<char>, from: int, k: int)
    requires
        0 <= from,
        forall|i: int, j: int| 0 <= i < j < metas.len() ==> (#[trigger] metas[i]).id@ != (#[trigger] metas[j]).id@,
    ensures
        from <= k < metas.len() && metas[k].id@ == id ==> title_of(metas, id, from) == metas[k].display_title@,
        (forall|i: int| from <= i < metas.len() ==> (#[trigger] metas[i]).id@ != id) ==> title_of(metas, id, from) == id,
    decreases metas.len() - from,
{
    if from < metas.len() {
        if metas[from].id@ != id {
            law_sessions_are_known_by_their_title(metas, id, from + 1, k);
        } else if from < k < metas.len() {
            assert(metas[from].id@ != metas[k].id@);
        }
    }
}

/// The sidebar names the session that is open, by its title and by its id.
pub proof fn law_open_session_is_named(s: SidebarState, width: u16, now: Instant)
    requires
        s.current_session_id is Some,
        s.current_session_id->0@.len() > 0,
    ensures
        shows(
            sidebar_rows(s, width, now),
            shortened(title_of(s.session_meta@, s.current_session_id->0@, 0), width as nat),
        ),
        shows(sidebar_rows(s, width, now), shortened(s.current_session_id->0@, less(width, 2))),
{
    let own = session_rows(s.current_session_id, s.session_meta@, width);
    let all = sidebar_rows(s, width, now);
    assert(all[1] == own[1]);
    assert(all[2] == own[2]);
    let title = shortened(title_of(s.session_meta@, s.current_session_id->0@, 0), width as nat);
    let id = shortened(s.current_session_id->0@, less(width, 2));
    lemma_has_itself(title);
    lemma_row_has(all[1], 0, title);
    lemma_has_in_sum("  "@, id, id);
    lemma_row_has(all[2], 0, id);
}

// ── the context ─────────────────────────────────────────────────────────

/// The tokens that are used and the size of the context are shown in full.
pub proof fn law_use_of_the_context_is_shown(gauge: ContextGauge, shares: Seq<ContextShare>, cells: Seq<usize>, width: u16)
    ensures
        has_text(row_text(context_rows(gauge, shares, cells, width)[0]), decimal(gauge.percent as nat) + "%"@),
        row_text(context_rows(gauge, shares, cells, width)[1]) == grouped(gauge.total_tokens as nat) + " / "@ + grouped(
            window_size(gauge.context_window) as nat,
        ),
{
    let rows = context_rows(gauge, shares, cells, width);
    let n = decimal(gauge.percent as nat);
    let p = crate::fitting::padded(n, 4);
    law_aligning_adds_only_space(n, 4);
    let front = p.take(p.len() - n.len());
    assert(p.subrange(p.len() - n.len(), p.len() as int) =~= n);
    assert(p =~= front + n);
    assert(" "@ + p + "%"@ =~= (" "@ + front) + (n + "%"@));
    lemma_has_in_sum(" "@ + front, n + "%"@, n + "%"@);
    lemma_row_has(rows[0], 1, n + "%"@);
    let row = rows[1];
    assert(row.drop_last() =~= Seq::empty());
    assert(row_text(row.drop_last()) =~= Seq::<char>::empty());
    assert(row_text(row) =~= row[0].0);
}

proof fn lemma_aligned_has(value: Seq<char>, width: nat)
    ensures
        has_text(right_aligned(value, width), value),
        has_text(left_aligned(value, width), value),
{
    law_aligning_adds_only_space(value, width);
    lemma_suffix_is_had(right_aligned(value, width), value);
    assert(crate::slicing::occurs_at(left_aligned(value, width), value, 0));
}

proof fn lemma_share_columns(i: int, share: ContextShare, total: nat, width: u16)
    ensures
        share_row(i, share, total, width).len() == 4,
        share_row(i, share, total, width)[1].0 == right_aligned(
            grouped(share.tokens as nat),
            least(9, minus(width as nat, least(7, width as nat) + 1)),
        ),
        share.tokens * 100 <= u64::MAX ==> share_row(i, share, total, width)[3].0 == right_aligned(
            "("@ + decimal((share.tokens * 100) as nat / total) + "%)"@,
            least(7, width as nat),
        ),
        width >= 17 ==> share_row(i, share, total, width)[0].0 == left_aligned(
            shortened(share_label(i), (width - 17) as nat),
            (width - 17) as nat,
        ),
{
}

/// Every share has a row with its tokens.
pub proof fn law_every_share_has_its_row(shares: Seq<ContextShare>, total: nat, width: u16, i: int)
    requires
        0 <= i < shares.len(),
    ensures
        share_rows(shares, total, width).len() == shares.len(),
        has_text(row_text(share_rows(shares, total, width)[i]), grouped(shares[i].tokens as nat)),
{
    let row = share_row(i, shares[i], total, width);
    assert(share_rows(shares, total, width)[i] == row);
    let token_width = least(9, minus(width as nat, least(7, width as nat) + 1));
    let tokens = grouped(shares[i].tokens as nat);
    lemma_aligned_has(tokens, token_width);
    lemma_share_columns(i, shares[i], total, width);
    lemma_row_has(row, 1, tokens);
}

/// The part of a share is that of its tokens in the whole, in percent.
pub proof fn law_every_share_tells_its_part(share: ContextShare, total: nat, width: u16, i: int)
    requires
        share.tokens * 100 <= u64::MAX,
        total > 0,
    ensures
        has_text(
            row_text(share_row(i, share, total, width)),
            "("@ + decimal((share.tokens * 100) as nat / total) + "%)"@,
        ),
{
    let row = share_row(i, share, total, width);
    let percent = "("@ + decimal((share.tokens * 100) as nat / total) + "%)"@;
    lemma_aligned_has(percent, least(7, width as nat));
    lemma_share_columns(i, share, total, width);
    lemma_row_has(row, 3, percent);
}

/// A share is named where the sidebar is wide enough for its name.
pub proof fn law_every_share_is_named(share: ContextShare, total: nat, width: u16, i: int)
    requires
        share_label(i).len() + 17 <= width,
    ensures
        has_text(row_text(share_row(i, share, total, width)), share_label(i)),
{
    let row = share_row(i, share, total, width);
    let label = share_label(i);
    let label_width = (width - 17) as nat;
    assert(shortened(label, label_width) == label);
    lemma_aligned_has(label, label_width);
    lemma_share_columns(i, share, total, width);
    lemma_row_has(row, 0, label);
}

/// A higher level is a higher bar, and the latest levels are the ones that are shown.
pub proof fn law_bars_rise_with_their_levels(levels: Seq<u8>, width: u16, a: u8, b: u8)
    ensures
        a < b <= 7 ==> level_bar(a) < level_bar(b),
        spark_bars(levels, width).len() == least(width as nat, levels.len()),
        levels.len() > 0 && width > 0 ==> spark_bars(levels, width).last() == level_bar(levels.last()),
{
}

// ── models ──────────────────────────────────────────────────────────────

proof fn lemma_use_rows_has(models: Seq<ModelUseRow>, width: u16, k: int, r: int)
    requires
        0 <= k < models.len(),
        0 <= r < model_use_rows(models[k], width).len(),
    ensures
        all_use_rows(models, width).contains(model_use_rows(models[k], width)[r]),
    decreases models.len(),
{
    let front = models.drop_last();
    let row = model_use_rows(models[k], width)[r];
    if k < front.len() {
        lemma_use_rows_has(front, width, k, r);
    } else {
        assert(model_use_rows(models.last(), width).contains(row));
    }
    lemma_rows_in_sum(all_use_rows(front, width), model_use_rows(models.last(), width), row);
}

/// Every model that was used has its rows: its name, what went in and came out, what the
/// cache took, and what it cost.
pub proof fn law_every_model_has_its_use(models: Seq<ModelUseRow>, total_cost: Option<String>, width: u16, k: int, r: int)
    requires
        0 <= k < models.len(),
        0 <= r < model_use_rows(models[k], width).len(),
    ensures
        usage_rows(models, total_cost, width).contains(model_use_rows(models[k], width)[r]),
        total_cost is Some ==> shows(usage_rows(models, total_cost, width), total_cost->0@),
{
    let order = sorted(models, rank_order::<ModelUseRow>());
    crate::order::law_sorted_is_a_permutation(models, rank_order::<ModelUseRow>());
    vstd::seq_lib::to_multiset_contains(models, models[k]);
    vstd::seq_lib::to_multiset_contains(order, models[k]);
    assert(models.contains(models[k]));
    let o = choose|o: int| 0 <= o < order.len() && order[o] == models[k];
    lemma_use_rows_has(order, width, o, r);
    let row = model_use_rows(models[k], width)[r];
    let body = all_use_rows(order, width);
    let i = choose|i: int| 0 <= i < body.len() && body[i] == row;
    let all = usage_rows(models, total_cost, width);
    assert(all[i + 1] == row);
    if total_cost is Some {
        let t = total_cost->0@;
        let last = all[body.len() + 1int];
        assert(last == row1("Total cost: "@ + t, Style::in_tone(Tone::TextMuted)));
        lemma_has_in_sum("Total cost: "@, t, t);
        lemma_row_has(last, 0, t);
    }
}

/// The rows of a model hold its figures.
pub proof fn law_model_rows_hold_the_figures(m: ModelUseRow, width: u16)
    ensures
        has_text(row_text(model_use_rows(m, width)[0]), shortened(m.model_name@, less(width, 2))),
        has_text(row_text(model_use_rows(m, width)[1]), grouped(m.input_tokens as nat) + " in, "@),
        has_text(row_text(model_use_rows(m, width)[1]), grouped(m.output_tokens as nat) + " out"@),
        m.cache_read_tokens > 0 || m.cache_write_tokens > 0 ==> has_text(
            row_text(model_use_rows(m, width)[2]),
            grouped(m.cache_read_tokens as nat) + " cache read, "@,
        ) && has_text(row_text(model_use_rows(m, width)[2]), grouped(m.cache_write_tokens as nat) + " write"@),
        m.cost is Some ==> has_text(row_text(model_use_rows(m, width).last()), m.cost->0@),
{
    let rows = model_use_rows(m, width);
    let name = shortened(m.model_name@, less(width, 2));
    lemma_has_in_sum(" "@, name, name);
    lemma_has_in_sum(" "@ + name, ":"@, name);
    lemma_row_has(rows[0], 0, name);
    lemma_two_counts(grouped(m.input_tokens as nat), " in, "@, grouped(m.output_tokens as nat), " out"@);
    lemma_row_has(rows[1], 0, grouped(m.input_tokens as nat) + " in, "@);
    lemma_row_has(rows[1], 0, grouped(m.output_tokens as nat) + " out"@);
    if m.cache_read_tokens > 0 || m.cache_write_tokens > 0 {
        lemma_two_counts(
            grouped(m.cache_read_tokens as nat),
            " cache read, "@,
            grouped(m.cache_write_tokens as nat),
            " write"@,
        );
        lemma_row_has(rows[2], 0, grouped(m.cache_read_tokens as nat) + " cache read, "@);
        lemma_row_has(rows[2], 0, grouped(m.cache_write_tokens as nat) + " write"@);
    }
    if m.cost is Some {
        let c = m.cost->0@;
        lemma_has_in_sum("  $"@, c, c);
        lemma_has_in_sum("  $"@ + c, " spent"@, c);
        lemma_row_has(rows.last(), 0, c);
    }
}

proof fn lemma_two_counts(a: Seq<char>, b: Seq<char>, c: Seq<char>, d: Seq<char>)
    ensures
        has_text("  "@ + a + b + c + d, a + b),
        has_text("  "@ + a + b + c + d, c + d),
{
    let all = "  "@ + a + b + c + d;
    let w = a + b;
    let v = c + d;
    assert(all =~= "  "@ + w + v);
    lemma_has_in_sum("  "@, w, w);
    lemma_has_in_sum("  "@ + w, v, w);
    lemma_has_in_sum("  "@ + w, v, v);
}

// ── servers ─────────────────────────────────────────────────────────────

/// Every server has its row: those for languages with whether they are active, the
/// others in the colour of their state.
pub proof fn law_every_server_is_listed(lsp: Seq<LspServer>, mcp: Seq<McpServer>, width: u16, k: int)
    ensures
        0 <= k < lsp.len() ==> lsp_rows(lsp, width).contains(lsp_row(lsp[k], width)) && has_text(
            row_text(lsp_row(lsp[k], width)),
            shortened(lsp[k].name@, less(width, 12)),
        ) && has_suffix(
            row_text(lsp_row(lsp[k], width)),
            if lsp[k].status == LspStatus::Active {
                "Active"@
            } else {
                "Inactive"@
            },
        ),
        0 <= k < mcp.len() ==> mcp_rows(mcp, width).contains(mcp_row(mcp[k], width)) && has_text(
            row_text(mcp_row(mcp[k], width)),
            shortened(mcp[k].name@, less(width, 2)),
        ) && mcp_row(mcp[k], width)[0].1 == Style::in_tone(
            match mcp[k].status {
                McpStatus::Connected => Tone::Success,
                McpStatus::Connecting => Tone::Warning,
                McpStatus::Disabled => Tone::TextMuted,
                McpStatus::Error => Tone::Error,
            },
        ),
{
    if 0 <= k < lsp.len() {
        let row = lsp_row(lsp[k], width);
        assert(lsp_rows(lsp, width)[k + 1] == row);
        let name = shortened(lsp[k].name@, less(width, 12));
        lemma_has_itself(name);
        lemma_row_has(row, 1, name);
        let t = row_text(row);
        let w = row.last().0;
        assert(t == row_text(row.drop_last()) + w);
        assert(t.subrange(t.len() - w.len(), t.len() as int) =~= w);
    }
    if 0 <= k < mcp.len() {
        let row = mcp_row(mcp[k], width);
        assert(mcp_rows(mcp, width)[k + 1] == row);
        let name = shortened(mcp[k].name@, less(width, 2));
        lemma_has_itself(name);
        lemma_row_has(row, 1, name);
    }
}

// ── the team and the changes ────────────────────────────────────────────

proof fn lemma_member_rows_has(members: Seq<TeamMember>, k: int)
    requires
        0 <= k < members.len(),
        members[k].name@ != TEAM_LEAD_NAME@,
    ensures
        exists|i: int|
            0 <= i < member_rows(members).len() && (#[trigger] member_rows(members)[i]).len() == 2 && member_rows(
                members,
            )[i][1].0 == members[k].name@,
    decreases members.len(),
{
    let front = members.drop_last();
    let before = member_rows(front);
    let all = member_rows(members);
    if k < front.len() {
        lemma_member_rows_has(front, k);
        let i = choose|i: int|
            0 <= i < before.len() && (#[trigger] before[i]).len() == 2 && before[i][1].0 == members[k].name@;
        assert(all[i] == before[i]);
    } else {
        let i = before.len() as int;
        assert(all[i].len() == 2 && all[i][1].0 == members[k].name@);
    }
}

/// While a team is at work, the sidebar names it and every teammate.
pub proof fn law_team_is_named(team: TeamView, k: int)
    requires
        team.active,
        0 <= k < team.teammates@.len(),
        team.teammates@[k].name@ != TEAM_LEAD_NAME@,
    ensures
        shows(team_rows(team), team.teammates@[k].name@),
        team.team_name is Some ==> shows(team_rows(team), team.team_name->0@),
{
    let members = team.teammates@;
    let all = team_rows(team);
    lemma_member_rows_has(members, k);
    let own = member_rows(members);
    let i = choose|i: int|
        0 <= i < own.len() && (#[trigger] own[i]).len() == 2 && own[i][1].0 == members[k].name@;
    let off: int = if team.team_name is Some {
        2
    } else {
        1
    };
    assert(all[off + i] == own[i]);
    lemma_has_itself(members[k].name@);
    lemma_row_has(own[i], 1, members[k].name@);
    if team.team_name is Some {
        let n = team.team_name->0@;
        assert(all[1] == row1("  "@ + n, Style::in_tone(Tone::TextSecondary)));
        lemma_has_in_sum("  "@, n, n);
        lemma_row_has(all[1], 0, n);
    }
}

/// The changes are counted: the files, and the lines that came and went. Of the files
/// the first three are named, and of more than three it is said how many follow.
pub proof fn law_changes_are_counted(d: DiffStats, width: u16, k: int)
    requires
        d.total_files > 0,
    ensures
        shows(change_rows(d, width), decimal(d.total_files as nat) + " file(s)"@),
        shows(change_rows(d, width), "+"@ + decimal(d.additions as nat)),
        shows(change_rows(d, width), "-"@ + decimal(d.deletions as nat)),
        0 <= k < d.files@.len() && k < 3 ==> shows(change_rows(d, width), shortened(d.files@[k]@, less(width, 4))),
        d.files@.len() > 3 ==> shows(change_rows(d, width), "+"@ + decimal((d.files@.len() - 3) as nat) + " more"@),
{
    let all = change_rows(d, width);
    let counts = change_counts(d);
    assert(all[1] == counts);
    let files = decimal(d.total_files as nat) + " file(s)"@;
    let adds = "+"@ + decimal(d.additions as nat);
    let dels = "-"@ + decimal(d.deletions as nat);
    lemma_has_itself(files);
    lemma_has_itself(adds);
    lemma_has_itself(dels);
    lemma_row_has(counts, 0, files);
    lemma_row_has(counts, 2, adds);
    lemma_row_has(counts, 4, dels);
    let named = file_rows(texts(d.files@), width);
    if 0 <= k < d.files@.len() && k < 3 {
        let name = shortened(d.files@[k]@, less(width, 4));
        assert(all[2 + k] == named[k]);
        assert(all[2 + k][1].0 == name);
        lemma_has_itself(name);
        lemma_row_has(all[2 + k], 1, name);
    }
    if d.files@.len() > 3 {
        lemma_more_files(decimal((d.files@.len() - 3) as nat));
        let row = all[2int + named.len()];
        lemma_row_has(row, 0, "+"@ + decimal((d.files@.len() - 3) as nat) + " more"@);
    }
}

proof fn lemma_more_files(n: Seq<char>)
    ensures
        has_text("  … +"@ + n + " more"@, "+"@ + n + " more"@),
{
    reveal_strlit("  … +");
    reveal_strlit("+");
    let all = "  … +"@ + n + " more"@;
    let w = "+"@ + n + " more"@;
    assert(all.subrange(4, all.len() as int) =~= w);
    assert(crate::slicing::occurs_at(all, w, 4));
}

/// Everything that is known of the plugins stands in the sidebar.
pub proof fn law_plugin_details_are_in_the_sidebar(s: SidebarState, width: u16, now: Instant, k: int)
    requires
        0 <= k < plugin_details(
            s.plugins.health,
            s.plugins.reload_report,
            s.plugins.runtime_action_descriptors@,
        ).len(),
    ensures
        shows(
            sidebar_rows(s, width, now),
            shortened(
                plugin_details(
                    s.plugins.health,
                    s.plugins.reload_report,
                    s.plugins.runtime_action_descriptors@,
                )[k].0,
                less(width, 2),
            ),
        ),
{
    let details = plugin_details(s.plugins.health, s.plugins.reload_report, s.plugins.runtime_action_descriptors@);
    let health = detail_health(s.plugins.health, s.plugins.reload_report);
    let lines = plugin_detail_lines(details, health, width);
    let own = titled("Plugins"@, lines);
    let row = body_row(details[k].0, width, detail_tone(details[k].1, health));
    let lower = lower_rows(s, width);
    assert(own[k + 1] == row);
    assert(lower[k + 1] == row);
    let above = upper_rows(s, width) + middle_rows(s, width, now);
    let all = sidebar_rows(s, width, now);
    assert(all[above.len() + (k + 1)] == row);
    let text = shortened(details[k].0, less(width, 2));
    lemma_has_in_sum("  "@, text, text);
    lemma_row_has(row, 0, text);
}

/// The parts of the sidebar all stand in it: the session and the context above, the
/// models and the servers in the middle, the team and the changes below.
pub proof fn law_sidebar_holds_all_its_parts(s: SidebarState, width: u16, now: Instant, row: Row)
    ensures
        context_rows(s.gauge, state_shares(s), s.share_cells@, width).contains(row) ==> sidebar_rows(
            s,
            width,
            now,
        ).contains(row),
        usage_rows(s.model_rows@, s.total_cost, width).contains(row) ==> sidebar_rows(s, width, now).contains(row),
        lsp_rows(s.lsp_servers@, width).contains(row) ==> sidebar_rows(s, width, now).contains(row),
        mcp_rows(s.mcp_servers@, width).contains(row) ==> sidebar_rows(s, width, now).contains(row),
        team_rows(s.team).contains(row) ==> sidebar_rows(s, width, now).contains(row),
        change_rows(s.diff, width).contains(row) ==> sidebar_rows(s, width, now).contains(row),
{
    let upper = upper_rows(s, width);
    let middle = middle_rows(s, width, now);
    let lower = lower_rows(s, width);
    lemma_upper_has(s, width, row);
    lemma_middle_has_parts(s, width, now, row);
    lemma_lower_has(s, width, row);
    lemma_rows_in_sum(upper, middle, row);
    lemma_rows_in_sum(upper + middle, lower, row);
}

proof fn lemma_upper_has(s: SidebarState, width: u16, row: Row)
    ensures
        context_rows(s.gauge, state_shares(s), s.share_cells@, width).contains(row) ==> upper_rows(s, width).contains(
            row,
        ),
{
    let a = session_rows(s.current_session_id, s.session_meta@, width);
    let b = context_rows(s.gauge, state_shares(s), s.share_cells@, width);
    let rest = upper_rows(s, width).skip((a + b).len() as int);
    assert(upper_rows(s, width) =~= a + b + rest);
    lemma_rows_in_sum(a, b, row);
    lemma_rows_in_sum(a + b, rest, row);
}

proof fn lemma_middle_has_parts(s: SidebarState, width: u16, now: Instant, row: Row)
    ensures
        usage_rows(s.model_rows@, s.total_cost, width).contains(row) ==> middle_rows(s, width, now).contains(row),
        lsp_rows(s.lsp_servers@, width).contains(row) ==> middle_rows(s, width, now).contains(row),
        mcp_rows(s.mcp_servers@, width).contains(row) ==> middle_rows(s, width, now).contains(row),
{
    let u = usage_rows(s.model_rows@, s.total_cost, width);
    let l = lsp_rows(s.lsp_servers@, width);
    let m = mcp_rows(s.mcp_servers@, width);
    let all = middle_rows(s, width, now);
    let front = all.take(all.len() - u.len() - l.len() - m.len());
    assert(all =~= front + u + l + m);
    lemma_rows_in_sum(front, u, row);
    lemma_rows_in_sum(front + u, l, row);
    lemma_rows_in_sum(front + u + l, m, row);
}

proof fn lemma_lower_has(s: SidebarState, width: u16, row: Row)
    ensures
        team_rows(s.team).contains(row) ==> lower_rows(s, width).contains(row),
        change_rows(s.diff, width).contains(row) ==> lower_rows(s, width).contains(row),
{
    let t = team_rows(s.team);
    let c = change_rows(s.diff, width);
    let all = lower_rows(s, width);
    let front = all.take(all.len() - t.len() - c.len());
    assert(all =~= front + t + c);
    lemma_rows_in_sum(front, t, row);
    lemma_rows_in_sum(front + t, c, row);
}

/// The sidebar never scrolls past its last row, and as far as it is asked to before that.
pub proof fn law_sidebar_scrolls_in_range(row_count: nat, height: u16, scroll: u16)
    requires
        row_count < 65536,
        height > 0,
    ensures
        scrolled(row_count, height, scroll) <= scroll,
        row_count > height ==> scrolled(row_count, height, scroll) + height <= row_count,
        row_count <= height ==> scrolled(row_count, height, scroll) == 0,
        scroll + height <= row_count ==> scrolled(row_count, height, scroll) == scroll,
{
}

} // verus!

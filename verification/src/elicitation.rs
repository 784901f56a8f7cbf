//! The dialog in which a tool server asks the user for input.
//!
//! It is either a form, with a field for each property of a schema, or a link
//! that the user visits.
use vstd::prelude::*;

use crate::json::{get_str, text_member, Json};
use crate::layout::{
    centre, centred, clamp_u16, clamped, is_split, minus, smaller, split_area, Axis, Part, Rect,
};
use crate::pinned::Row;
use crate::showing::{lemma_has_in_sum, lemma_has_itself, lemma_middle_has, lemma_row_has, shows};
use crate::slicing::{group_texts, has_prefix, has_text, opt_text, texts};
use crate::styled::{
    group_rows, line1, line2, push_lines, row1, row2, rows, span, spans_of, Line, Span, Style,
    Tone,
};
use crate::text::{cat2, cat3, cat5, char_count, count_text, decimal, same_text};
use crate::text_map::TextMap;

verus! {

broadcast use {group_texts, group_rows};

/// What is asked for.
#[derive(Debug)]
pub enum ElicitationKind {
    Form { message: String, schema: Json },
    Url { message: String, url: String },
}

/// A request for input.
#[derive(Debug)]
pub struct PendingElicitation {
    pub server_name: String,
    pub kind: ElicitationKind,
}

/// What has been typed into the form so far.
#[derive(Debug)]
pub struct ElicitationInputState {
    /// The text of each field that was typed into.
    pub values: TextMap<String>,
    /// The field that has the keyboard.
    pub active_field: Option<String>,
    /// The fields in the order in which the keyboard steps through them.
    pub field_order: Vec<String>,
}

/// The properties of a schema.
pub open spec fn properties(schema: Json) -> Option<Seq<(String, Json)>> {
    match schema.member("properties"@) {
        Some(p) => p.members(),
        None => None,
    }
}

/// The names of properties.
pub open spec fn names_of(props: Seq<(String, Json)>) -> Seq<Seq<char>> {
    props.map_values(|p: (String, Json)| p.0@)
}

fn schema_properties(schema: &Json) -> (r: Option<&Vec<(String, Json)>>)
    ensures
        match r {
            Some(v) => properties(*schema) == Some(v@),
            None => properties(*schema) is None,
        },
{
    match schema.get("properties") {
        Some(p) => p.as_object(),
        None => None,
    }
}

/// The position of a name.
pub open spec fn name_position(names: Seq<Seq<char>>, name: Seq<char>, from: int) -> Option<int>
    decreases names.len() - from,
{
    if from < 0 || from >= names.len() {
        None
    } else if names[from] == name {
        Some(from)
    } else {
        name_position(names, name, from + 1)
    }
}

fn position_of(names: &Vec<String>, name: &str) -> (r: Option<usize>)
    ensures
        match r {
            Some(i) => name_position(texts(names@), name@, 0) == Some(i as int) && i < names@.len(),
            None => name_position(texts(names@), name@, 0) is None,
        },
{
    let ghost all = texts(names@);
    let mut i: usize = 0;
    while i < names.len()
        invariant
            i <= names@.len(),
            all == texts(names@),
            name_position(all, name@, 0) == name_position(all, name@, i as int),
        decreases names@.len() - i,
    {
        assert(all[i as int] == names@[i as int]@);
        if same_text(names[i].as_str(), name) {
            return Some(i);
        }
        i += 1;
    }
    None
}

/// What the fields hold.
pub open spec fn typed(values: Map<Seq<char>, String>) -> Map<Seq<char>, Seq<char>> {
    values.map_values(|s: String| s@)
}

impl ElicitationInputState {
    /// What the fields hold.
    pub open spec fn typed(&self) -> Map<Seq<char>, Seq<char>> {
        typed(self.values@)
    }

    /// The fields in order.
    pub open spec fn fields(&self) -> Seq<Seq<char>> {
        texts(self.field_order@)
    }

    /// The text of a field; one that was not typed into is empty.
    pub open spec fn text_in(&self, name: Seq<char>) -> Seq<char> {
        text_of_field(self.typed(), name)
    }

    /// The form is empty and has the fields of the schema. The first one has the
    /// keyboard.
    pub open spec fn begins_for(self, schema: Json) -> bool {
        &&& self.fields() == (match properties(schema) {
            Some(props) => names_of(props),
            None => Seq::empty(),
        })
        &&& opt_text(self.active_field) == (if self.fields().len() == 0 {
            None
        } else {
            Some(self.fields()[0])
        })
        &&& self.typed() == Map::<Seq<char>, Seq<char>>::empty()
    }

    /// An empty form with the fields of the schema. The first one has the
    /// keyboard.
    pub fn from_schema(schema: &Json) -> (r: Self)
        ensures
            r.begins_for(*schema),
    {
        let mut field_order: Vec<String> = Vec::new();
        if let Some(props) = schema_properties(schema) {
            let ghost all = names_of(props@);
            let mut i: usize = 0;
            assert(texts(field_order@) =~= all.take(0));
            while i < props.len()
                invariant
                    i <= props@.len(),
                    all == names_of(props@),
                    texts(field_order@) == all.take(i as int),
                decreases props@.len() - i,
            {
                field_order.push(props[i].0.clone());
                assert(all.take(i + 1) =~= all.take(i as int).push(all[i as int]));
                i += 1;
            }
            assert(all.take(i as int) =~= all);
        }
        assert(texts(field_order@).len() == field_order@.len());
        let active_field = if field_order.len() > 0 {
            Some(field_order[0].clone())
        } else {
            None
        };
        let r = ElicitationInputState { values: TextMap::new(), active_field, field_order };
        assert(r.typed() =~= Map::<Seq<char>, Seq<char>>::empty());
        r
    }

    /// Give the keyboard to the next field; after the last comes the first.
    pub fn next_field(&mut self)
        ensures
            final(self).values == old(self).values,
            final(self).field_order == old(self).field_order,
            old(self).field_order@.len() == 0 ==> final(self).active_field == old(self).active_field,
            old(self).field_order@.len() > 0 ==> opt_text(final(self).active_field) == Some(
                next_name(old(self).fields(), opt_text(old(self).active_field)),
            ),
    {
        if self.field_order.len() == 0 {
            return;
        }
        let current: usize = match &self.active_field {
            Some(name) => match position_of(&self.field_order, name.as_str()) {
                Some(i) => i,
                None => 0,
            },
            None => 0,
        };
        let next: usize = if current + 1 < self.field_order.len() {
            current + 1
        } else {
            0
        };
        proof {
            let n = self.field_order@.len() as int;
            assert(next == (current + 1) % n) by {
                if current + 1 < n {
                    vstd::arithmetic::div_mod::lemma_small_mod((current + 1) as nat, n as nat);
                } else {
                    vstd::arithmetic::div_mod::lemma_mod_self_0(n);
                }
            }
        }
        self.active_field = Some(self.field_order[next].clone());
    }

    /// Type a character into the active field.
    pub fn type_char(&mut self, c: char)
        ensures
            final(self).active_field == old(self).active_field,
            final(self).field_order == old(self).field_order,
            final(self).typed() == with_char(old(self).typed(), opt_text(old(self).active_field), c),
    {
        let name = match &self.active_field {
            Some(name) => name.clone(),
            None => {
                return;
            },
        };
        let mut text = match self.values.get(name.as_str()) {
            Some(s) => s.clone(),
            None => String::new(),
        };
        assert(text@ =~= self.text_in(name@));
        text.push(c);
        self.values.insert(name, text);
        assert(self.typed() =~= old(self).typed().insert(name@, old(self).text_in(name@).push(c)));
    }

    /// Delete the last character of the active field.
    pub fn backspace(&mut self)
        ensures
            final(self).active_field == old(self).active_field,
            final(self).field_order == old(self).field_order,
            final(self).typed() == without_char(old(self).typed(), opt_text(old(self).active_field)),
    {
        let name = match &self.active_field {
            Some(name) => name.clone(),
            None => {
                return;
            },
        };
        let text = match self.values.get(name.as_str()) {
            Some(s) => s.clone(),
            None => {
                return;
            },
        };
        let cs = crate::text::chars_of(text.as_str());
        let keep: usize = if cs.len() > 0 {
            cs.len() - 1
        } else {
            0
        };
        let shorter = crate::text::text_between(&cs, 0, keep);
        assert(shorter@ =~= without_last(text@));
        self.values.insert(name, shorter);
        assert(self.typed() =~= old(self).typed().insert(name@, without_last(text@)));
    }

    /// What was typed, as an object: a text for each field that was typed into.
    pub fn to_json(&self) -> (r: Json)
        ensures
            r.members() is Some,
            names_of(r.members()->0) == names_in(self.values.items()),
            forall|i: int|
                0 <= i < self.values.items().len() ==> (#[trigger] r.members()->0[i]).1.text() == Some(
                    self.values.items()[i].1@,
                ),
    {
        let mut members: Vec<(String, Json)> = Vec::new();
        let ghost items = self.values.items();
        let mut i: usize = 0;
        while i < self.values.len()
            invariant
                items == self.values.items(),
                i <= items.len(),
                members@.len() == i,
                forall|j: int| 0 <= j < i ==> (#[trigger] members@[j]).0@ == items[j].0@,
                forall|j: int|
                    0 <= j < i ==> (#[trigger] members@[j]).1.text() == Some(items[j].1@),
            decreases items.len() - i,
        {
            let e = self.values.entry(i);
            members.push((e.0.clone(), Json::Text(e.1.clone())));
            i += 1;
        }
        assert(names_of(members@) =~= names_in(items));
        Json::Object(members)
    }
}

impl Default for ElicitationInputState {
    fn default() -> (r: Self)
        ensures
            r.typed() == Map::<Seq<char>, Seq<char>>::empty(),
            r.active_field is None,
            r.fields() == Seq::<Seq<char>>::empty(),
    {
        let r = ElicitationInputState {
            values: TextMap::new(),
            active_field: None,
            field_order: Vec::new(),
        };
        assert(r.typed() =~= Map::<Seq<char>, Seq<char>>::empty());
        r
    }
}

/// The names of entries.
pub open spec fn names_in(items: Seq<(String, String)>) -> Seq<Seq<char>> {
    items.map_values(|p: (String, String)| p.0@)
}

/// The text without its last character.
pub open spec fn without_last(s: Seq<char>) -> Seq<char> {
    if s.len() == 0 {
        s
    } else {
        s.drop_last()
    }
}

/// The text of a field; one that was not typed into is empty.
pub open spec fn text_of_field(typed: Map<Seq<char>, Seq<char>>, name: Seq<char>) -> Seq<char> {
    if typed.contains_key(name) {
        typed[name]
    } else {
        Seq::empty()
    }
}

/// The fields after a character was typed into the active one.
pub open spec fn with_char(typed: Map<Seq<char>, Seq<char>>, active: Option<Seq<char>>, c: char) -> Map<
    Seq<char>,
    Seq<char>,
> {
    match active {
        Some(name) => typed.insert(name, text_of_field(typed, name).push(c)),
        None => typed,
    }
}

/// The fields after the last character of the active one was deleted.
pub open spec fn without_char(typed: Map<Seq<char>, Seq<char>>, active: Option<Seq<char>>) -> Map<
    Seq<char>,
    Seq<char>,
> {
    match active {
        Some(name) => if typed.contains_key(name) {
            typed.insert(name, without_last(typed[name]))
        } else {
            typed
        },
        None => typed,
    }
}

/// The field after the active one. An unknown one counts as the first.
pub open spec fn next_name(fields: Seq<Seq<char>>, active: Option<Seq<char>>) -> Seq<char> {
    let current = match active {
        Some(name) => match name_position(fields, name, 0) {
            Some(i) => i,
            None => 0,
        },
        None => 0,
    };
    fields[(current + 1) % (fields.len() as int)]
}

/// Typing a character and deleting it leaves the text of every field as it was.
pub proof fn law_backspace_undoes_typing(
    typed: Map<Seq<char>, Seq<char>>,
    active: Option<Seq<char>>,
    c: char,
    name: Seq<char>,
)
    ensures
        text_of_field(without_char(with_char(typed, active, c), active), name) == text_of_field(typed, name),
        active is Some && typed.contains_key(active->0) ==> without_char(with_char(typed, active, c), active)
            == typed,
{
    if let Some(field) = active {
        let text = text_of_field(typed, field);
        assert(text.push(c).drop_last() =~= text);
        if typed.contains_key(field) {
            assert(typed.insert(field, text.push(c)).insert(field, text) =~= typed);
        }
    }
}

// ── the dialog ──────────────────────────────────────────────────────────

/// How many fields a schema has.
pub open spec fn field_count(schema: Json) -> nat {
    match properties(schema) {
        Some(props) => props.len(),
        None => 0,
    }
}

/// The size of the dialog. A form grows with its fields.
pub open spec fn dialog_size(kind: ElicitationKind, area: Rect) -> (int, int) {
    match kind {
        ElicitationKind::Form { schema, .. } => (
            clamped(area.width * 8 / 10, 60, 100),
            smaller(
                clamped((10 + field_count(schema) * 3) as int % 0x10000, 14, 30),
                minus(area.height as int, 4),
            ),
        ),
        ElicitationKind::Url { .. } => (
            clamped(area.width * 7 / 10, 60, 90),
            smaller(12, minus(area.height as int, 4)),
        ),
    }
}

/// Where the dialog stands.
pub fn dialog_area(kind: &ElicitationKind, area: Rect) -> (r: Rect)
    requires
        area.width * 8 <= u16::MAX,
    ensures
        r == centred(area, dialog_size(*kind, area).0, dialog_size(*kind, area).1),
{
    let most: u16 = area.height.saturating_sub(4);
    let (width, height) = match kind {
        ElicitationKind::Form { schema, .. } => {
            let fields: u128 = match schema_properties(schema) {
                Some(props) => props.len() as u128,
                None => 0,
            };
            let h: u16 = ((10 + fields * 3) % 0x10000) as u16;
            (clamp_u16(area.width * 8 / 10, 60, 100), clamp_u16(h, 14, 30))
        },
        ElicitationKind::Url { .. } => (clamp_u16(area.width * 7 / 10, 60, 90), 12),
    };
    centre(area, width, if height <= most {
        height
    } else {
        most
    })
}

/// The title: who asks, and how many more requests wait.
pub open spec fn title_text(server: Seq<char>, queued: nat) -> Seq<char> {
    if queued > 1 {
        " MCP Input Request · "@ + server + " ("@ + decimal((queued - 1) as nat) + "  queued) "@
    } else {
        " MCP Input Request · "@ + server + " "@
    }
}

/// The title of the dialog, with `queued` requests in the queue.
pub fn dialog_title(server: &str, queued: usize) -> (r: String)
    ensures
        r@ == title_text(server@, queued as nat),
{
    if queued > 1 {
        cat5(" MCP Input Request · ", server, " (", count_text(queued - 1).as_str(), "  queued) ")
    } else {
        cat3(" MCP Input Request · ", server, " ")
    }
}

/// A list of values holds the text.
pub open spec fn lists(items: Seq<Json>, name: Seq<char>) -> bool {
    exists|i: int| 0 <= i < items.len() && (#[trigger] items[i]).text() == Some(name)
}

/// The schema says that the field has to be filled in.
pub open spec fn is_required(schema: Json, name: Seq<char>) -> bool {
    match schema.member("required"@) {
        Some(list) => match list.items() {
            Some(items) => lists(items, name),
            None => false,
        },
        None => false,
    }
}

fn field_is_required(schema: &Json, name: &str) -> (r: bool)
    ensures
        r == is_required(*schema, name@),
{
    let items = match schema.get("required") {
        Some(list) => match list.as_array() {
            Some(items) => items,
            None => {
                return false;
            },
        },
        None => {
            return false;
        },
    };
    let mut i: usize = 0;
    while i < items.len()
        invariant
            i <= items@.len(),
            is_required(*schema, name@) == lists(items@, name@),
            forall|j: int| 0 <= j < i ==> (#[trigger] items@[j]).text() != Some(name@),
        decreases items@.len() - i,
    {
        if let Some(s) = items[i].as_str() {
            if same_text(s, name) {
                assert(items@[i as int].text() == Some(name@));
                return true;
            }
        }
        i += 1;
    }
    false
}

/// A text of the property, or what stands in for it.
pub open spec fn text_or(prop: Json, key: Seq<char>, other: Seq<char>) -> Seq<char> {
    match text_member(prop, key) {
        Some(s) => s,
        None => other,
    }
}

/// The rows of one field.
pub open spec fn field_rows(schema: Json, name: Seq<char>, prop: Json, state: ElicitationInputState) -> Seq<Row> {
    let required = is_required(schema, name);
    let active = opt_text(state.active_field) == Some(name);
    let description = text_or(prop, "description"@, ""@);
    let head = row2(
        if required {
            ("* "@ + name, Style::in_tone(Tone::Warning).made_bold())
        } else {
            ("  "@ + name, Style::in_tone(Tone::TextPrimary))
        },
        (" ("@ + text_or(prop, "type"@, "string"@) + ")"@, Style::in_tone(Tone::TextMuted)),
    );
    let about = if description.len() > 0 {
        seq![row1("  "@ + description, Style::in_tone(Tone::TextMuted))]
    } else {
        Seq::empty()
    };
    let value = row2(
        ("  > "@, Style::in_tone(Tone::TextMuted)),
        if active {
            (state.text_in(name) + "▏"@, Style::in_tone(Tone::Accent).made_bold().made_underlined())
        } else if state.text_in(name).len() == 0 {
            ("(empty)"@, Style::in_tone(Tone::TextPrimary))
        } else {
            (state.text_in(name), Style::in_tone(Tone::TextPrimary))
        },
    );
    seq![head] + about + seq![value, Seq::empty()]
}

fn empty_row() -> (r: Line)
    ensures
        r@ == Seq::<(Seq<char>, Style)>::empty(),
{
    Line { spans: Vec::new() }
}

/// The rows of one field: its name and type, what it is for, and what was
/// typed.
pub fn build_field_lines(schema: &Json, name: &str, prop: &Json, state: &ElicitationInputState) -> (r: Vec<Line>)
    ensures
        rows(r@) == field_rows(*schema, name@, *prop, *state),
{
    let required = field_is_required(schema, name);
    let active = match &state.active_field {
        Some(n) => same_text(n.as_str(), name),
        None => false,
    };
    let kind = match get_str(prop, "type") {
        Some(s) => s,
        None => "string",
    };
    let description = match get_str(prop, "description") {
        Some(s) => s,
        None => "",
    };
    let value = match state.values.get(name) {
        Some(s) => s.clone(),
        None => String::new(),
    };
    assert(value@ =~= state.text_in(name@));
    let label = if required {
        span(cat2("* ", name), Style::fg(Tone::Warning).bold())
    } else {
        span(cat2("  ", name), Style::fg(Tone::TextPrimary))
    };
    let mut out: Vec<Line> = Vec::new();
    out.push(line2(label, span(cat3(" (", kind, ")"), Style::fg(Tone::TextMuted))));
    if char_count(description) > 0 {
        out.push(line1(cat2("  ", description), Style::fg(Tone::TextMuted)));
    }
    let shown = if active {
        span(cat2(value.as_str(), "▏"), Style::fg(Tone::Accent).bold().underlined())
    } else if char_count(value.as_str()) == 0 {
        span("(empty)".to_owned(), Style::fg(Tone::TextPrimary))
    } else {
        span(value, Style::fg(Tone::TextPrimary))
    };
    out.push(line2(span("  > ".to_owned(), Style::fg(Tone::TextMuted)), shown));
    out.push(empty_row());
    assert(rows(out@) =~= field_rows(*schema, name@, *prop, *state));
    out
}

/// The rows of fields.
pub open spec fn fields_rows(schema: Json, props: Seq<(String, Json)>, state: ElicitationInputState) -> Seq<Row>
    decreases props.len(),
{
    if props.len() == 0 {
        Seq::empty()
    } else {
        fields_rows(schema, props.drop_last(), state) + field_rows(
            schema,
            props.last().0@,
            props.last().1,
            state,
        )
    }
}

/// The rows of the form.
pub open spec fn form_rows(schema: Json, state: ElicitationInputState) -> Seq<Row> {
    match properties(schema) {
        Some(props) => fields_rows(schema, props, state),
        None => seq![
            row1("(no schema provided — press Enter to accept)"@, Style::in_tone(Tone::TextMuted)),
        ],
    }
}

/// The rows of the form, field after field.
pub fn build_form_field_lines(schema: &Json, state: &ElicitationInputState) -> (r: Vec<Line>)
    ensures
        rows(r@) == form_rows(*schema, *state),
{
    let mut out: Vec<Line> = Vec::new();
    let props = match schema_properties(schema) {
        Some(props) => props,
        None => {
            out.push(
                line1(
                    "(no schema provided — press Enter to accept)".to_owned(),
                    Style::fg(Tone::TextMuted),
                ),
            );
            assert(rows(out@) =~= form_rows(*schema, *state));
            return out;
        },
    };
    let mut i: usize = 0;
    assert(rows(out@) =~= fields_rows(*schema, props@.take(0), *state));
    while i < props.len()
        invariant
            i <= props@.len(),
            rows(out@) == fields_rows(*schema, props@.take(i as int), *state),
        decreases props@.len() - i,
    {
        assert(props@.take(i + 1).drop_last() =~= props@.take(i as int));
        let more = build_field_lines(schema, props[i].0.as_str(), &props[i].1, state);
        push_lines(&mut out, more);
        i += 1;
    }
    assert(props@.take(i as int) =~= props@);
    out
}

/// A key and what it does.
pub open spec fn key_hint(key: Seq<char>, tone: Tone, what: Seq<char>) -> Row {
    seq![(key, Style::in_tone(tone).made_bold()), (what, Style::in_tone(Tone::TextMuted))]
}

fn push_key_hint(spans: &mut Vec<Span>, key: &str, tone: Tone, what: &str)
    ensures
        spans_of(final(spans)@) == spans_of(old(spans)@) + key_hint(key@, tone, what@),
{
    let ghost before = spans_of(spans@);
    spans.push(span(key.to_owned(), Style::fg(tone).bold()));
    spans.push(span(what.to_owned(), Style::fg(Tone::TextMuted)));
    assert(spans_of(spans@) =~= before + key_hint(key@, tone, what@));
}

/// The keys of the form.
pub open spec fn form_footer() -> Row {
    key_hint(" Tab "@, Tone::Accent, "next  "@) + key_hint(" Enter "@, Tone::Success, "accept  "@) + key_hint(
        " Esc "@,
        Tone::Error,
        "decline  "@,
    ) + key_hint(" q "@, Tone::Error, "cancel"@)
}

/// The keys of the form.
pub fn form_footer_line() -> (r: Line)
    ensures
        r@ == form_footer(),
{
    let mut spans: Vec<Span> = Vec::new();
    push_key_hint(&mut spans, " Tab ", Tone::Accent, "next  ");
    assert(spans_of(spans@) =~= key_hint(" Tab "@, Tone::Accent, "next  "@));
    push_key_hint(&mut spans, " Enter ", Tone::Success, "accept  ");
    push_key_hint(&mut spans, " Esc ", Tone::Error, "decline  ");
    push_key_hint(&mut spans, " q ", Tone::Error, "cancel");
    Line { spans }
}

/// The keys of the link dialog.
pub open spec fn url_footer() -> Row {
    key_hint(" Enter "@, Tone::Success, "dismiss  "@) + key_hint(" Esc "@, Tone::Error, "cancel"@)
}

/// The keys of the link dialog.
pub fn url_footer_line() -> (r: Line)
    ensures
        r@ == url_footer(),
{
    let mut spans: Vec<Span> = Vec::new();
    push_key_hint(&mut spans, " Enter ", Tone::Success, "dismiss  ");
    assert(spans_of(spans@) =~= key_hint(" Enter "@, Tone::Success, "dismiss  "@));
    push_key_hint(&mut spans, " Esc ", Tone::Error, "cancel");
    Line { spans }
}

// ── the dialog ──────────────────────────────────────────────────────────

/// The frame of the dialog.
#[derive(Debug)]
pub struct ElicitationDialog {
    pub area: Rect,
    pub title: String,
}

/// The frame of the dialog for the first request; none where nothing was asked.
pub fn elicitation(pending: &Vec<PendingElicitation>, screen: Rect) -> (r: Option<ElicitationDialog>)
    requires
        screen.width * 8 <= u16::MAX,
    ensures
        r is Some <==> pending@.len() > 0,
        r is Some ==> {
            &&& r->0.area == centred(
                screen,
                dialog_size(pending@[0].kind, screen).0,
                dialog_size(pending@[0].kind, screen).1,
            )
            &&& r->0.title@ == title_text(pending@[0].server_name@, pending@.len())
        },
{
    if pending.len() == 0 {
        return None;
    }
    let first = &pending[0];
    Some(
        ElicitationDialog {
            area: dialog_area(&first.kind, screen),
            title: dialog_title(first.server_name.as_str(), pending.len()),
        },
    )
}

/// What the rows of a form ask for: what the server says, the fields, the keys.
pub open spec fn form_parts() -> Seq<Part> {
    seq![Part::Length(3), Part::Min(1), Part::Length(2)]
}

/// A form, with the areas of its rows.
#[derive(Debug)]
pub struct FormView {
    pub areas: Vec<Rect>,
    pub message: Span,
    pub fields: Vec<Line>,
    pub footer: Line,
}

/// A form inside its frame.
pub fn render_form_elicitation(inner: Rect, message: &str, schema: &Json, state: &ElicitationInputState) -> (r: FormView)
    requires
        inner.fits(),
    ensures
        is_split(r.areas@, inner, form_parts(), Axis::Rows),
        r.message@ == (message@, Style::in_tone(Tone::TextPrimary)),
        rows(r.fields@) == form_rows(*schema, *state),
        r.footer@ == form_footer(),
{
    let parts = vec![Part::Length(3), Part::Min(1), Part::Length(2)];
    assert(parts@ =~= form_parts());
    FormView {
        areas: split_area(inner, &parts, Axis::Rows),
        message: span(message.to_owned(), Style::fg(Tone::TextPrimary)),
        fields: build_form_field_lines(schema, state),
        footer: form_footer_line(),
    }
}

/// What the rows of a link dialog ask for: what the server says, the link, what
/// to do, the keys.
pub open spec fn url_parts() -> Seq<Part> {
    seq![Part::Length(3), Part::Length(3), Part::Min(1), Part::Length(2)]
}

/// What to do with a link.
pub open spec fn url_words() -> Seq<char> {
    "Visit the URL above to complete this request.\nThe dialog will close automatically when the server confirms completion."@
}

/// A link dialog, with the areas of its rows.
#[derive(Debug)]
pub struct UrlView {
    pub areas: Vec<Rect>,
    pub message: Span,
    pub url: Span,
    pub instruction: Span,
    pub footer: Line,
}

/// A link dialog inside its frame.
pub fn render_url_elicitation(inner: Rect, message: &str, url: &str) -> (r: UrlView)
    requires
        inner.fits(),
    ensures
        is_split(r.areas@, inner, url_parts(), Axis::Rows),
        r.message@ == (message@, Style::in_tone(Tone::TextPrimary)),
        r.url@ == (url@, Style::in_tone(Tone::Accent).made_underlined()),
        r.instruction@ == (url_words(), Style::in_tone(Tone::TextMuted)),
        r.footer@ == url_footer(),
{
    let parts = vec![Part::Length(3), Part::Length(3), Part::Min(1), Part::Length(2)];
    assert(parts@ =~= url_parts());
    UrlView {
        areas: split_area(inner, &parts, Axis::Rows),
        message: span(message.to_owned(), Style::fg(Tone::TextPrimary)),
        url: span(url.to_owned(), Style::fg(Tone::Accent).underlined()),
        instruction: span(
            "Visit the URL above to complete this request.\nThe dialog will close automatically when the server confirms completion.".to_owned(),
            Style::fg(Tone::TextMuted),
        ),
        footer: url_footer_line(),
    }
}

/// The input once events were handled: where requests have come in, it begins
/// anew for the first one.
pub open spec fn begins_anew(before: nat, pending: Seq<PendingElicitation>) -> bool {
    pending.len() > before && pending.len() > 0
}

/// The input for the first request, where requests have come in: `before` waited
/// until now. Nothing where none has, and what was typed stays.
pub fn input_on_arrival(before: usize, pending: &Vec<PendingElicitation>) -> (r: Option<ElicitationInputState>)
    ensures
        r is Some <==> begins_anew(before as nat, pending@),
        r is Some ==> match pending@[0].kind {
            ElicitationKind::Form { schema, .. } => r->0.begins_for(schema),
            ElicitationKind::Url { .. } => {
                &&& r->0.typed() == Map::<Seq<char>, Seq<char>>::empty()
                &&& r->0.active_field is None
                &&& r->0.fields() == Seq::<Seq<char>>::empty()
            },
        },
{
    if pending.len() <= before {
        return None;
    }
    match &pending[0].kind {
        ElicitationKind::Form { schema, .. } => Some(ElicitationInputState::from_schema(schema)),
        ElicitationKind::Url { .. } => Some(ElicitationInputState::default()),
    }
}

/// A key that is typed lands at the end of the field that has the keyboard, and in no
/// other.
pub proof fn law_typing_reaches_only_the_active_field(
    typed: Map<Seq<char>, Seq<char>>,
    active: Seq<char>,
    other: Seq<char>,
    c: char,
)
    ensures
        text_of_field(with_char(typed, Some(active), c), active) == text_of_field(typed, active).push(c),
        other != active ==> text_of_field(with_char(typed, Some(active), c), other) == text_of_field(typed, other),
        other != active ==> text_of_field(without_char(typed, Some(active)), other) == text_of_field(typed, other),
        with_char(typed, None, c) == typed,
        without_char(typed, None) == typed,
{
}

proof fn lemma_name_position(names: Seq<Seq<char>>, k: int, from: int)
    requires
        0 <= from <= k < names.len(),
        forall|i: int, j: int| 0 <= i < j < names.len() ==> names[i] != names[j],
    ensures
        name_position(names, names[k], from) == Some(k),
    decreases k - from,
{
    if from < k {
        assert(names[from] != names[k]);
        lemma_name_position(names, k, from + 1);
    }
}

/// The keyboard steps from each field to the one behind it, and from the last to the
/// first.
pub proof fn law_fields_come_one_after_the_other(fields: Seq<Seq<char>>, k: int)
    requires
        0 <= k < fields.len(),
        forall|i: int, j: int| 0 <= i < j < fields.len() ==> fields[i] != fields[j],
    ensures
        k + 1 < fields.len() ==> next_name(fields, Some(fields[k])) == fields[k + 1],
        k + 1 == fields.len() ==> next_name(fields, Some(fields[k])) == fields[0],
{
    lemma_name_position(fields, k, 0);
    let n = fields.len() as int;
    if k + 1 < n {
        assert((k + 1) % n == k + 1) by (nonlinear_arith)
            requires
                0 <= k + 1 < n,
        ;
    } else {
        assert((k + 1) % n == 0) by (nonlinear_arith)
            requires
                k + 1 == n,
                n > 0,
        ;
    }
}

proof fn lemma_fields_rows_has(schema: Json, props: Seq<(String, Json)>, state: ElicitationInputState, k: int, r: int)
    requires
        0 <= k < props.len(),
        0 <= r < field_rows(schema, props[k].0@, props[k].1, state).len(),
    ensures
        fields_rows(schema, props, state).contains(field_rows(schema, props[k].0@, props[k].1, state)[r]),
    decreases props.len(),
{
    let front = props.drop_last();
    let row = field_rows(schema, props[k].0@, props[k].1, state)[r];
    let before = fields_rows(schema, front, state);
    let all = fields_rows(schema, props, state);
    if k < front.len() {
        lemma_fields_rows_has(schema, front, state, k, r);
        let i = choose|i: int| 0 <= i < before.len() && before[i] == row;
        assert(all[i] == row);
    } else {
        assert(all[before.len() + r] == row);
    }
}

/// Every field of a form is shown with its name, its description and what was typed into
/// it; a star marks exactly the fields that have to be filled in.
pub proof fn law_every_field_is_shown(schema: Json, props: Seq<(String, Json)>, state: ElicitationInputState, k: int)
    requires
        properties(schema) == Some(props),
        0 <= k < props.len(),
    ensures
        shows(form_rows(schema, state), props[k].0@),
        state.text_in(props[k].0@).len() > 0 ==> shows(form_rows(schema, state), state.text_in(props[k].0@)),
        text_or(props[k].1, "description"@, ""@).len() > 0 ==> shows(
            form_rows(schema, state),
            text_or(props[k].1, "description"@, ""@),
        ),
        is_required(schema, props[k].0@) <==> has_prefix(
            field_rows(schema, props[k].0@, props[k].1, state)[0][0].0,
            "* "@,
        ),
{
    let name = props[k].0@;
    let own = field_rows(schema, name, props[k].1, state);
    let all = form_rows(schema, state);
    let required = is_required(schema, name);
    lemma_fields_rows_has(schema, props, state, k, 0);
    let i = choose|i: int| 0 <= i < all.len() && all[i] == own[0];
    lemma_has_in_sum("* "@, name, name);
    lemma_has_in_sum("  "@, name, name);
    lemma_row_has(all[i], 0, name);
    let about = text_or(props[k].1, "description"@, ""@);
    if about.len() > 0 {
        lemma_fields_rows_has(schema, props, state, k, 1);
        let j = choose|j: int| 0 <= j < all.len() && all[j] == own[1];
        lemma_has_in_sum("  "@, about, about);
        lemma_row_has(all[j], 0, about);
    }
    let value = state.text_in(name);
    if value.len() > 0 {
        let at = own.len() - 2;
        lemma_fields_rows_has(schema, props, state, k, at);
        let j = choose|j: int| 0 <= j < all.len() && all[j] == own[at];
        lemma_has_itself(value);
        lemma_has_in_sum(value, "▏"@, value);
        lemma_row_has(all[j], 1, value);
    }
    reveal_strlit("* ");
    reveal_strlit("  ");
    let text = own[0][0].0;
    assert(text.subrange(0, 2) =~= if required {
        "* "@
    } else {
        "  "@
    });
    assert("* "@[0] != "  "@[0]);
}

/// The title names the server that asks, and how many others wait.
pub proof fn law_title_names_the_server(server: Seq<char>, queued: nat)
    ensures
        has_text(title_text(server, queued), server),
        queued > 1 ==> has_text(title_text(server, queued), " ("@ + decimal((queued - 1) as nat)),
{
    lemma_has_in_sum(" MCP Input Request · "@, server, server);
    let a = " MCP Input Request · "@ + server;
    if queued > 1 {
        let n = decimal((queued - 1) as nat);
        lemma_has_in_sum(a, " ("@, server);
        lemma_has_in_sum(a + " ("@, n, server);
        lemma_has_in_sum(a + " ("@ + n, "  queued) "@, server);
        lemma_middle_has(a, " ("@, n, "  queued) "@);
    } else {
        lemma_has_in_sum(a, " "@, server);
    }
}

/// A form that was just opened is empty and has the keyboard in its first field.
pub proof fn law_forms_begin_empty(state: ElicitationInputState, schema: Json, name: Seq<char>)
    requires
        state.begins_for(schema),
    ensures
        state.text_in(name).len() == 0,
        properties(schema) matches Some(props) ==> props.len() > 0 ==> opt_text(state.active_field) == Some(
            props[0].0@,
        ) && state.fields().len() == props.len(),
{
}

/// A dialog leaves a margin above and below, and is never wider than what is readable.
pub proof fn law_dialogs_keep_their_size(kind: ElicitationKind, area: Rect)
    ensures
        ({
            let (w, h) = dialog_size(kind, area);
            &&& 60 <= w <= 100
            &&& area.height >= 4 ==> h <= area.height - 4
            &&& area.height < 4 ==> h == 0
            &&& h <= 30
        }),
{
}

/// What was typed is dropped only where a request has newly arrived.
pub proof fn law_only_new_requests_begin_anew(before: nat, pending: Seq<PendingElicitation>, p: PendingElicitation)
    ensures
        !begins_anew(pending.len(), pending),
        begins_anew(pending.len(), pending.push(p)),
        begins_anew(before, pending) ==> pending.len() > before,
{
}

/// Every field has three rows, as long as the dialog is neither too low nor too high.
pub proof fn law_every_field_has_its_rows(message: String, schema: Json, area: Rect)
    ensures
        2 <= field_count(schema) <= 6 && area.height >= 34 ==> dialog_size(
            ElicitationKind::Form { message, schema },
            area,
        ).1 == 10 + 3 * field_count(schema),
        field_count(schema) < 2 && area.height >= 34 ==> dialog_size(
            ElicitationKind::Form { message, schema },
            area,
        ).1 == 14,
{
}

/// A dialog takes its share of the width, seven tenths for a link and eight for a form,
/// as far as it stays readable.
pub proof fn law_dialogs_take_their_share(kind: ElicitationKind, area: Rect)
    ensures
        kind is Url && 60 <= area.width * 7 / 10 <= 90 ==> dialog_size(kind, area).0 == area.width * 7 / 10,
        kind is Form && 60 <= area.width * 8 / 10 <= 100 ==> dialog_size(kind, area).0 == area.width * 8 / 10,
        kind is Url && area.height >= 16 ==> dialog_size(kind, area).1 == 12,
{
}

} // verus!

//! Copying: what of the conversation is copied, and the escape sequence that
//! carries it to the terminal's clipboard.
use vstd::prelude::*;
use vstd::string::*;
use vstd::utf8::*;

use crate::base64::{base64, base64_bytes, base64_encode};
use crate::bytes_len::{cut_at_bytes, cut_bytes, utf8_size};
use crate::showing::{lemma_has_in_sum, lemma_joined_has};
use crate::slicing::{group_texts, has_text, join, joined, opt_text, texts, trim_end, trimmed_end};
use crate::text::{cat2, cat3, cat4, char_count, chars_of};
use crate::transcript::{message_model, message_models, part_model, part_models, ChatMessage, MessageModel, MessagePart, PartModel, Role};

verus! {

broadcast use group_texts;

// ── what is copied ──────────────────────────────────────────────────────

/// The texts among the parts.
pub open spec fn text_parts(parts: Seq<PartModel>) -> Seq<Seq<char>>
    decreases parts.len(),
{
    if parts.len() == 0 {
        Seq::empty()
    } else {
        match parts.last() {
            PartModel::Text(t) => text_parts(parts.drop_last()).push(t),
            _ => text_parts(parts.drop_last()),
        }
    }
}

/// What a message says.
pub open spec fn body_of(m: MessageModel) -> Seq<char> {
    joined(text_parts(m.parts), "\n"@)
}

/// The texts among the parts, one below the other.
pub fn join_text_parts(parts: &Vec<MessagePart>) -> (r: String)
    ensures
        r@ == joined(text_parts(part_models(parts@)), "\n"@),
{
    let ghost all = part_models(parts@);
    let mut out: Vec<String> = Vec::new();
    let mut i: usize = 0;
    assert(texts(out@) =~= text_parts(all.take(0)));
    while i < parts.len()
        invariant
            i <= parts@.len(),
            all == part_models(parts@),
            texts(out@) == text_parts(all.take(i as int)),
        decreases parts@.len() - i,
    {
        assert(all.take(i + 1).drop_last() =~= all.take(i as int));
        assert(all.take(i + 1).last() == part_model(parts@[i as int]));
        if let MessagePart::Text(t) = &parts[i] {
            out.push(t.clone());
        }
        i += 1;
    }
    assert(all.take(i as int) =~= all);
    join(&out, "\n")
}

/// What the assistant said last.
pub open spec fn last_said(messages: Seq<MessageModel>) -> Option<Seq<char>>
    decreases messages.len(),
{
    if messages.len() == 0 {
        None
    } else if messages.last().role == Role::Assistant {
        Some(body_of(messages.last()))
    } else {
        last_said(messages.drop_last())
    }
}

/// What the assistant said last.
pub fn last_assistant_text(messages: &Vec<ChatMessage>) -> (r: Option<String>)
    ensures
        opt_text(r) == last_said(message_models(messages@)),
{
    let ghost all = message_models(messages@);
    let mut n: usize = messages.len();
    assert(all.take(n as int) =~= all);
    while n > 0
        invariant
            n <= messages@.len(),
            all == message_models(messages@),
            last_said(all) == last_said(all.take(n as int)),
        decreases n,
    {
        assert(all.take(n as int).drop_last() =~= all.take(n - 1));
        assert(all.take(n as int).last() == message_model(messages@[n - 1]));
        if messages[n - 1].role == Role::Assistant {
            return Some(join_text_parts(&messages[n - 1].parts));
        }
        n -= 1;
    }
    None
}

/// Who speaks, and what.
pub open spec fn chunk_of(m: MessageModel) -> Seq<char> {
    let label = match m.role {
        Role::User => "user"@,
        Role::Assistant => "assistant"@,
    };
    "["@ + label + "]\n"@ + body_of(m)
}

fn chunk(m: &ChatMessage, body: &str) -> (r: String)
    requires
        body@ == body_of(message_model(*m)),
    ensures
        r@ == chunk_of(message_model(*m)),
{
    let label = match m.role {
        Role::User => "user",
        Role::Assistant => "assistant",
    };
    cat4("[", label, "]\n", body)
}

/// The messages that say something, each with a blank line behind it.
pub open spec fn running_text(messages: Seq<MessageModel>) -> Seq<char>
    decreases messages.len(),
{
    if messages.len() == 0 {
        Seq::empty()
    } else if body_of(messages.last()).len() == 0 {
        running_text(messages.drop_last())
    } else {
        running_text(messages.drop_last()) + (chunk_of(messages.last()) + "\n\n"@)
    }
}

/// The whole conversation as text.
pub fn full_transcript_text(messages: &Vec<ChatMessage>) -> (r: String)
    ensures
        r@ == trimmed_end(running_text(message_models(messages@))),
{
    let ghost all = message_models(messages@);
    let mut out = String::new();
    let mut i: usize = 0;
    assert(out@ =~= running_text(all.take(0)));
    while i < messages.len()
        invariant
            i <= messages@.len(),
            all == message_models(messages@),
            out@ == running_text(all.take(i as int)),
        decreases messages@.len() - i,
    {
        assert(all.take(i + 1).drop_last() =~= all.take(i as int));
        assert(all.take(i + 1).last() == message_model(messages@[i as int]));
        let body = join_text_parts(&messages[i].parts);
        if char_count(body.as_str()) > 0 {
            let text = cat2(chunk(&messages[i], body.as_str()).as_str(), "\n\n");
            out.push_str(text.as_str());
        }
        i += 1;
    }
    assert(all.take(i as int) =~= all);
    trim_end(out.as_str())
}

/// The last `n` messages that say something, in order.
pub open spec fn last_chunks(messages: Seq<MessageModel>, n: nat) -> Seq<Seq<char>>
    decreases messages.len(),
{
    if messages.len() == 0 || n == 0 {
        Seq::empty()
    } else if body_of(messages.last()).len() == 0 {
        last_chunks(messages.drop_last(), n)
    } else {
        last_chunks(messages.drop_last(), (n - 1) as nat).push(chunk_of(messages.last()))
    }
}

fn turned(v: Vec<String>) -> (r: Vec<String>)
    ensures
        texts(r@) == texts(v@).reverse(),
{
    let mut rest = v;
    let mut out: Vec<String> = Vec::new();
    let ghost all = texts(v@);
    assert(texts(out@) =~= all.skip(rest@.len() as int).reverse());
    assert(all.take(rest@.len() as int) =~= texts(rest@));
    while rest.len() > 0
        invariant
            all == texts(v@),
            rest@.len() <= all.len(),
            texts(rest@) == all.take(rest@.len() as int),
            texts(out@) == all.skip(rest@.len() as int).reverse(),
        decreases rest@.len(),
    {
        let ghost n = rest@.len() as int;
        let ghost before = rest@;
        if let Some(s) = rest.pop() {
            assert(before =~= rest@.push(s));
            assert(all.take(n).last() == s@);
            out.push(s);
            assert(all.skip(n - 1).reverse() =~= all.skip(n).reverse().push(all[n - 1]));
            assert(all.take(n).drop_last() =~= all.take(n - 1));
            assert(texts(rest@) =~= texts(before).drop_last());
        }
    }
    assert(all.skip(0) =~= all);
    out
}

/// The last `n` messages that say something, as text.
pub fn tail_transcript_text(messages: &Vec<ChatMessage>, n: usize) -> (r: String)
    ensures
        r@ == joined(last_chunks(message_models(messages@), n as nat), "\n\n"@),
{
    let ghost all = message_models(messages@);
    let mut left: usize = n;
    let mut back: Vec<String> = Vec::new();
    let mut i: usize = messages.len();
    assert(all.take(i as int) =~= all);
    assert(last_chunks(all, n as nat) =~= last_chunks(all.take(i as int), left as nat) + texts(
        back@,
    ).reverse());
    while i > 0 && left > 0
        invariant
            i <= messages@.len(),
            all == message_models(messages@),
            last_chunks(all, n as nat) == last_chunks(all.take(i as int), left as nat) + texts(
                back@,
            ).reverse(),
        decreases i,
    {
        assert(all.take(i as int).drop_last() =~= all.take(i - 1));
        assert(all.take(i as int).last() == message_model(messages@[i - 1]));
        let body = join_text_parts(&messages[i - 1].parts);
        if char_count(body.as_str()) > 0 {
            let c = chunk(&messages[i - 1], body.as_str());
            let ghost before = texts(back@);
            let ghost rest = last_chunks(all.take(i - 1), (left - 1) as nat);
            back.push(c);
            assert(rest.push(c@) + before.reverse() =~= rest + before.push(c@).reverse());
            left -= 1;
        }
        i -= 1;
    }
    assert(last_chunks(all, n as nat) =~= texts(back@).reverse());
    join(&turned(back), "\n\n")
}

// ── the escape sequence ─────────────────────────────────────────────────

/// What stands between the program and the terminal.
#[derive(Debug, Clone, Copy, PartialEq, Eq, Structural)]
pub enum Multiplexer {
    Direct,
    Tmux,
    Screen,
}

/// What closes the sequence: a string terminator for kitty without a
/// multiplexer, a bell for all others.
pub open spec fn terminator(is_kitty: bool, in_mux: bool) -> Seq<char> {
    if is_kitty && !in_mux {
        "\x1b\\"@
    } else {
        "\x07"@
    }
}

/// What closes the sequence. Inside a multiplexer the string terminator would
/// close the wrapping instead.
pub fn osc52_terminator(is_kitty: bool, in_mux: bool) -> (r: &'static str)
    ensures
        r@ == terminator(is_kitty, in_mux),
{
    if is_kitty && !in_mux {
        "\x1b\\"
    } else {
        "\x07"
    }
}

/// `s` with every escape character doubled.
pub open spec fn escapes_doubled(s: Seq<char>) -> Seq<char>
    decreases s.len(),
{
    if s.len() == 0 {
        Seq::empty()
    } else if s.last() == '\x1b' {
        escapes_doubled(s.drop_last()).push('\x1b').push('\x1b')
    } else {
        escapes_doubled(s.drop_last()).push(s.last())
    }
}

fn double_escapes(s: &str) -> (r: String)
    ensures
        r@ == escapes_doubled(s@),
{
    let cs = chars_of(s);
    let mut out = String::new();
    let mut i: usize = 0;
    assert(out@ =~= escapes_doubled(cs@.take(0)));
    while i < cs.len()
        invariant
            i <= cs@.len(),
            out@ == escapes_doubled(cs@.take(i as int)),
        decreases cs@.len() - i,
    {
        assert(cs@.take(i + 1).drop_last() =~= cs@.take(i as int));
        if cs[i] == '\x1b' {
            out.push('\x1b');
            out.push('\x1b');
        } else {
            out.push(cs[i]);
        }
        i += 1;
    }
    assert(cs@.take(i as int) =~= s@);
    out
}

/// The sequence as the multiplexer passes it through.
pub open spec fn wrapped_for(seq: Seq<char>, mux: Multiplexer) -> Seq<char> {
    match mux {
        Multiplexer::Tmux => "\x1bPtmux;"@ + escapes_doubled(seq) + "\x1b\\"@,
        Multiplexer::Screen => "\x1bP"@ + seq + "\x1b\\"@,
        Multiplexer::Direct => seq,
    }
}

/// Wrap a sequence so that the multiplexer passes it through to the terminal.
pub fn wrap_for_multiplexer(seq: &str, mux: Multiplexer) -> (r: String)
    ensures
        r@ == wrapped_for(seq@, mux),
{
    match mux {
        Multiplexer::Tmux => cat3("\x1bPtmux;", double_escapes(seq).as_str(), "\x1b\\"),
        Multiplexer::Screen => cat3("\x1bP", seq, "\x1b\\"),
        Multiplexer::Direct => seq.to_owned(),
    }
}

/// Bytes that are copied at most. Terminals drop larger payloads.
pub const OSC52_MAX: u64 = 102400;

/// The text that is carried: as much as fits, cut between characters.
pub open spec fn carried(text: Seq<char>) -> Seq<char> {
    if utf8_size(text) > OSC52_MAX {
        cut_at_bytes(text, OSC52_MAX as nat)
    } else {
        text
    }
}

/// The sequence that puts a text on the clipboard.
pub open spec fn clipboard_sequence(text: Seq<char>, is_kitty: bool, mux: Multiplexer) -> Seq<char> {
    wrapped_for(
        "\x1b]52;c;"@ + base64(encode_utf8(carried(text))) + terminator(is_kitty, mux != Multiplexer::Direct),
        mux,
    )
}

/// The sequence that puts a text on the terminal's clipboard.
pub fn osc52_escape(text: &str, is_kitty: bool, mux: Multiplexer) -> (r: String)
    ensures
        r@ == clipboard_sequence(text@, is_kitty, mux),
{
    let payload = if crate::bytes_len::longer_than_bytes(text, OSC52_MAX) {
        cut_bytes(text, OSC52_MAX)
    } else {
        text.to_owned()
    };
    let encoded = base64_encode(payload.as_str().as_bytes());
    let in_mux = mux != Multiplexer::Direct;
    let escape = cat3("\x1b]52;c;", encoded.as_str(), osc52_terminator(is_kitty, in_mux));
    wrap_for_multiplexer(escape.as_str(), mux)
}

/// What the sequence carries never takes more than the limit, and decoding it
/// gives back the text, as far as it was carried.
pub proof fn law_clipboard_carries_the_text(text: Seq<char>)
    ensures
        utf8_size(carried(text)) <= OSC52_MAX,
        utf8_size(text) <= OSC52_MAX ==> carried(text) == text,
        carried(text).len() <= text.len(),
        carried(text) == text.take(carried(text).len() as int),
        decode_utf8(base64_bytes(base64(encode_utf8(carried(text))))) == carried(text),
{
    crate::bytes_len::law_cut_is_longest_fitting_prefix(text, OSC52_MAX as nat);
    crate::base64::law_base64_round_trip(encode_utf8(carried(text)));
    encode_utf8_decode_utf8(carried(text));
    assert(text.take(text.len() as int) =~= text);
}

/// `s` with every two escape characters that stand together made one, from the
/// end on.
pub open spec fn escapes_halved(s: Seq<char>) -> Seq<char>
    decreases s.len(),
{
    if s.len() == 0 {
        Seq::empty()
    } else if s.last() == '\x1b' && s.len() >= 2 {
        escapes_halved(s.take(s.len() - 2)).push('\x1b')
    } else {
        escapes_halved(s.drop_last()).push(s.last())
    }
}

/// Halving doubled escape characters gives back the text.
pub proof fn law_doubling_is_undone(s: Seq<char>)
    ensures
        escapes_halved(escapes_doubled(s)) == s,
    decreases s.len(),
{
    if s.len() == 0 {
        assert(escapes_halved(escapes_doubled(s)) =~= s);
    } else {
        let front = s.drop_last();
        law_doubling_is_undone(front);
        let d = escapes_doubled(front);
        assert(s =~= front.push(s.last()));
        if s.last() == '\x1b' {
            let t = d.push('\x1b').push('\x1b');
            assert(t.take(t.len() - 2) =~= d);
        } else {
            assert(d.push(s.last()).drop_last() =~= d);
        }
    }
}

proof fn lemma_text_parts_has(parts: Seq<PartModel>, k: int)
    requires
        0 <= k < parts.len(),
        parts[k] is Text,
    ensures
        text_parts(parts).contains(parts[k]->Text_0),
    decreases parts.len(),
{
    let front = parts.drop_last();
    let t = parts[k]->Text_0;
    if k < front.len() {
        lemma_text_parts_has(front, k);
        let i = choose|i: int| 0 <= i < text_parts(front).len() && text_parts(front)[i] == t;
        assert(text_parts(parts)[i] == t);
    } else {
        assert(text_parts(parts)[text_parts(front).len() as int] == t);
    }
}

/// Every text of a message stands in its body.
pub proof fn law_bodies_hold_every_text(m: MessageModel, k: int)
    requires
        0 <= k < m.parts.len(),
        m.parts[k] is Text,
    ensures
        has_text(body_of(m), m.parts[k]->Text_0),
{
    lemma_text_parts_has(m.parts, k);
    let all = text_parts(m.parts);
    let i = choose|i: int| 0 <= i < all.len() && all[i] == m.parts[k]->Text_0;
    lemma_joined_has(all, "\n"@, i);
}

/// The latest answer is what is copied: a new answer takes its place, and what the user
/// says afterwards does not.
pub proof fn law_the_latest_answer_is_copied(messages: Seq<MessageModel>, m: MessageModel)
    ensures
        m.role == Role::Assistant ==> last_said(messages.push(m)) == Some(body_of(m)),
        m.role == Role::User ==> last_said(messages.push(m)) == last_said(messages),
        messages.len() == 0 ==> last_said(messages) is None,
{
    assert(messages.push(m).drop_last() =~= messages);
}

proof fn lemma_running_text_has(messages: Seq<MessageModel>, k: int)
    requires
        0 <= k < messages.len(),
        body_of(messages[k]).len() > 0,
    ensures
        has_text(running_text(messages), chunk_of(messages[k])),
    decreases messages.len(),
{
    let front = messages.drop_last();
    let chunk = chunk_of(messages[k]);
    if k < front.len() {
        lemma_running_text_has(front, k);
        lemma_has_in_sum(running_text(front), chunk_of(messages.last()) + "\n\n"@, chunk);
    } else {
        lemma_has_in_sum(chunk, "\n\n"@, chunk);
        lemma_has_in_sum(running_text(front), chunk + "\n\n"@, chunk);
    }
}

/// The transcript holds what every message says, under the name of who said it.
pub proof fn law_transcripts_hold_every_message(messages: Seq<MessageModel>, k: int)
    requires
        0 <= k < messages.len(),
        body_of(messages[k]).len() > 0,
        !crate::text::is_space(body_of(messages[k]).last()),
    ensures
        has_text(
            trimmed_end(running_text(messages)),
            (if messages[k].role == Role::User {
                "[user]\n"@
            } else {
                "[assistant]\n"@
            }) + body_of(messages[k]),
        ),
{
    let all = running_text(messages);
    let chunk = chunk_of(messages[k]);
    lemma_running_text_has(messages, k);
    crate::showing::lemma_trimmed_end(all);
    let n = trimmed_end(all).len() as int;
    let i = choose|i: int| crate::slicing::occurs_at(all, chunk, i);
    let last = i + chunk.len() - 1;
    assert(all.subrange(i, i + chunk.len())[chunk.len() - 1] == all[last]);
    assert(chunk.last() == body_of(messages[k]).last());
    if last >= n {
        assert(crate::text::is_space(all.skip(n)[last - n]));
    }
    assert(trimmed_end(all).subrange(i, i + chunk.len()) =~= chunk);
    assert(crate::slicing::occurs_at(trimmed_end(all), chunk, i));
    reveal_strlit("[");
    reveal_strlit("]\n");
    reveal_strlit("user");
    reveal_strlit("assistant");
    reveal_strlit("[user]\n");
    reveal_strlit("[assistant]\n");
    assert("["@ + "user"@ + "]\n"@ =~= "[user]\n"@);
    assert("["@ + "assistant"@ + "]\n"@ =~= "[assistant]\n"@);
}

/// The tail of a transcript is made of the latest messages that say anything: one more
/// message comes in at its end, and at most so many as asked for are in it.
pub proof fn law_tails_hold_the_latest_messages(messages: Seq<MessageModel>, m: MessageModel, n: nat)
    requires
        body_of(m).len() > 0,
        n > 0,
    ensures
        last_chunks(messages.push(m), n).last() == chunk_of(m),
        last_chunks(messages.push(m), n).len() <= n,
        has_text(joined(last_chunks(messages.push(m), n), "\n\n"@), body_of(m)),
        last_chunks(messages.push(m), n).drop_last() == last_chunks(messages, (n - 1) as nat),
        n >= messages.len() ==> last_chunks(messages, n) == last_chunks(messages, messages.len()),
{
    assert(messages.push(m).drop_last() =~= messages);
    let all = last_chunks(messages.push(m), n);
    lemma_last_chunks_len(messages, (n - 1) as nat);
    lemma_last_chunks_all(messages, n);
    assert(all.drop_last() =~= last_chunks(messages, (n - 1) as nat));
    lemma_joined_has(all, "\n\n"@, all.len() - 1);
    let head = "["@ + (match m.role {
        Role::User => "user"@,
        Role::Assistant => "assistant"@,
    }) + "]\n"@;
    lemma_has_in_sum(head, body_of(m), body_of(m));
    crate::showing::lemma_has_trans(joined(all, "\n\n"@), chunk_of(m), body_of(m));
}

proof fn lemma_last_chunks_len(messages: Seq<MessageModel>, n: nat)
    ensures
        last_chunks(messages, n).len() <= n,
    decreases messages.len(),
{
    if messages.len() > 0 && n > 0 {
        lemma_last_chunks_len(messages.drop_last(), n);
        lemma_last_chunks_len(messages.drop_last(), (n - 1) as nat);
    }
}

proof fn lemma_last_chunks_all(messages: Seq<MessageModel>, n: nat)
    ensures
        n >= messages.len() ==> last_chunks(messages, n) == last_chunks(messages, messages.len()),
    decreases messages.len(),
{
    if messages.len() > 0 && n > 0 {
        let front = messages.drop_last();
        lemma_last_chunks_all(front, n);
        lemma_last_chunks_all(front, (n - 1) as nat);
        lemma_last_chunks_all(front, messages.len());
    }
}

/// A sequence reaches the terminal: as it is where nothing stands between, and wrapped
/// in what a multiplexer passes on.
pub proof fn law_multiplexers_pass_the_sequence_on(seq: Seq<char>)
    ensures
        wrapped_for(seq, Multiplexer::Direct) == seq,
        has_text(wrapped_for(seq, Multiplexer::Screen), seq),
        has_text(wrapped_for(seq, Multiplexer::Tmux), escapes_doubled(seq)),
        wrapped_for(seq, Multiplexer::Screen).len() == seq.len() + 4,
        wrapped_for(seq, Multiplexer::Tmux).len() == escapes_doubled(seq).len() + 9,
{
    reveal_strlit("\x1bPtmux;");
    reveal_strlit("\x1bP");
    reveal_strlit("\x1b\\");
    let a = "\x1bPtmux;"@ + escapes_doubled(seq);
    let b = "\x1bP"@ + seq;
    lemma_has_in_sum("\x1bPtmux;"@, escapes_doubled(seq), escapes_doubled(seq));
    lemma_has_in_sum(a, "\x1b\\"@, escapes_doubled(seq));
    lemma_has_in_sum("\x1bP"@, seq, seq);
    lemma_has_in_sum(b, "\x1b\\"@, seq);
}

/// What is sent to the clipboard is the text, encoded, whatever the terminal.
pub proof fn law_clipboard_gets_the_encoded_text(text: Seq<char>, is_kitty: bool)
    ensures
        has_text(clipboard_sequence(text, is_kitty, Multiplexer::Direct), base64(encode_utf8(carried(text)))),
        has_text(clipboard_sequence(text, is_kitty, Multiplexer::Screen), base64(encode_utf8(carried(text)))),
        clipboard_sequence(text, true, Multiplexer::Screen) == clipboard_sequence(
            text,
            false,
            Multiplexer::Screen,
        ),
{
    let code = base64(encode_utf8(carried(text)));
    let head = "\x1b]52;c;"@ + code;
    lemma_has_in_sum("\x1b]52;c;"@, code, code);
    lemma_has_in_sum(head, terminator(is_kitty, false), code);
    let direct = head + terminator(is_kitty, true);
    lemma_has_in_sum(head, terminator(is_kitty, true), code);
    let b = "\x1bP"@ + direct;
    lemma_has_in_sum("\x1bP"@, direct, code);
    lemma_has_in_sum(b, "\x1b\\"@, code);
}

} // verus!

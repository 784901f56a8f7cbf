//! What the terminal reports besides the mouse: keys, pasted text, and that the
//! window has come to the front.
use vstd::prelude::*;

use crate::slicing::{lines, lines_of, occurs_at, occurs_here, texts};
use crate::text::{cat3, cat5, char_count, chars_of, count_text, decimal, decimal_text};
use crate::tick::{clock_after, due};
use crate::time::Instant;

verus! {

// ── keys ────────────────────────────────────────────────────────────────

/// What happened to a key.
#[derive(Debug, Clone, Copy, PartialEq, Eq, Structural)]
pub enum KeyKind {
    Press,
    Repeat,
    Release,
}

/// What a key does.
#[derive(Debug, Clone, Copy, PartialEq, Eq, Structural)]
pub enum KeyRoute {
    /// It is typed.
    Type,
    /// It ends a recording that lasts as long as the key is held.
    EndRecording,
    Ignore,
}

/// What a key does. Only letting go of the bare space key ends a recording, and
/// only where there is a recorder.
pub fn key_route(kind: KeyKind, bare_space: bool, voice_enabled: bool, voice_ready: bool) -> (r: KeyRoute)
    ensures
        r == (if kind is Press || kind is Repeat {
            KeyRoute::Type
        } else if voice_enabled && voice_ready && bare_space {
            KeyRoute::EndRecording
        } else {
            KeyRoute::Ignore
        }),
{
    match kind {
        KeyKind::Press => KeyRoute::Type,
        KeyKind::Repeat => KeyRoute::Type,
        KeyKind::Release => if voice_enabled && voice_ready && bare_space {
            KeyRoute::EndRecording
        } else {
            KeyRoute::Ignore
        },
    }
}

// ── the window ──────────────────────────────────────────────────────────

/// When the window last came to the front, as far as that is remembered: once
/// in half a minute.
pub fn handle_focus_gained(last: Option<Instant>, now: Instant) -> (r: Option<Instant>)
    ensures
        r == clock_after(last, now, 30_000),
{
    if due(last, now, 30_000) {
        Some(now)
    } else {
        last
    }
}

// ── pasting ─────────────────────────────────────────────────────────────

/// `s` from `from` on, with every `what` replaced by `with`.
pub open spec fn replaced_from(s: Seq<char>, what: Seq<char>, with: Seq<char>, from: int) -> Seq<char>
    decreases s.len() - from,
{
    if from < 0 || from >= s.len() {
        Seq::empty()
    } else if what.len() > 0 && occurs_at(s, what, from) {
        with + replaced_from(s, what, with, from + what.len())
    } else {
        seq![s[from]] + replaced_from(s, what, with, from + 1)
    }
}

/// `s` with every `what` replaced by `with`.
fn replace_text(s: &str, what: &str, with: &str) -> (r: String)
    requires
        what@.len() > 0,
    ensures
        r@ == replaced_from(s@, what@, with@, 0),
{
    let cs = chars_of(s);
    let ws = chars_of(what);
    let n: usize = cs.len();
    let m: usize = ws.len();
    let mut out = String::new();
    let mut i: usize = 0;
    while i < n
        invariant
            i <= n,
            n == cs@.len(),
            m == ws@.len(),
            m > 0,
            cs@ == s@,
            ws@ == what@,
            out@ + replaced_from(s@, what@, with@, i as int) == replaced_from(s@, what@, with@, 0),
        decreases n - i,
    {
        let ghost rest = replaced_from(s@, what@, with@, i as int);
        let ghost head = out@;
        if m <= n - i && occurs_here(&cs, &ws, i) {
            out.push_str(with);
            i += m;
            assert(out@ + replaced_from(s@, what@, with@, i as int) =~= head + rest);
        } else {
            out.push(cs[i]);
            i += 1;
            assert(out@ + replaced_from(s@, what@, with@, i as int) =~= head + rest);
        }
    }
    assert(out@ + replaced_from(s@, what@, with@, i as int) =~= out@);
    out
}

/// A path in pasted text that leads to an image, and whether the image could be
/// read.
#[derive(Debug)]
pub struct PastedPath {
    pub path: String,
    pub readable: bool,
}

/// What stands for an image in the text.
pub open spec fn image_sign(id: nat) -> Seq<char> {
    "[Image #"@ + decimal(id) + "]"@
}

/// What stands for an image in the text.
pub fn image_chip(id: u64) -> (r: String)
    ensures
        r@ == image_sign(id as nat),
{
    cat3("[Image #", decimal_text(id).as_str(), "]")
}

/// The text with the paths of the images that could be read replaced by what
/// stands for them, and the number of the last image.
pub open spec fn with_images(text: Seq<char>, paths: Seq<PastedPath>, counter: nat) -> (Seq<char>, nat)
    decreases paths.len(),
{
    if paths.len() == 0 {
        (text, counter)
    } else {
        let (before, count) = with_images(text, paths.drop_last(), counter);
        if paths.last().readable {
            (replaced_from(before, paths.last().path@, image_sign(count + 1), 0), count + 1)
        } else {
            (before, count)
        }
    }
}

proof fn lemma_counter_bound(text: Seq<char>, paths: Seq<PastedPath>, counter: nat)
    ensures
        counter <= with_images(text, paths, counter).1 <= counter + paths.len(),
    decreases paths.len(),
{
    if paths.len() > 0 {
        lemma_counter_bound(text, paths.drop_last(), counter);
    }
}

fn attach_images(text: &str, paths: &Vec<PastedPath>, counter: u64) -> (r: (String, u64))
    requires
        counter + paths@.len() <= u64::MAX,
        forall|i: int| 0 <= i < paths@.len() ==> (#[trigger] paths@[i]).path@.len() > 0,
    ensures
        (r.0@, r.1 as nat) == with_images(text@, paths@, counter as nat),
{
    let mut out: String = text.to_owned();
    let mut count: u64 = counter;
    let mut i: usize = 0;
    while i < paths.len()
        invariant
            i <= paths@.len(),
            counter + paths@.len() <= u64::MAX,
            forall|j: int| 0 <= j < paths@.len() ==> (#[trigger] paths@[j]).path@.len() > 0,
            (out@, count as nat) == with_images(text@, paths@.take(i as int), counter as nat),
        decreases paths@.len() - i,
    {
        assert(paths@.take(i + 1).drop_last() =~= paths@.take(i as int));
        proof {
            lemma_counter_bound(text@, paths@.take(i as int), counter as nat);
        }
        if paths[i].readable {
            count += 1;
            let sign = image_chip(count);
            out = replace_text(out.as_str(), paths[i].path.as_str(), sign.as_str());
        }
        i += 1;
    }
    assert(paths@.take(i as int) =~= paths@);
    (out, count)
}

/// What has been pasted so far.
#[derive(Debug)]
pub struct PasteBoard {
    /// The number of the last image.
    pub image_counter: u64,
    /// The number of the last text that was put away.
    pub paste_counter: u64,
    /// What stands for a text that was put away, and the text.
    pub pasted_texts: Vec<(String, String)>,
}

/// The texts that were put away.
pub open spec fn put_away(v: Seq<(String, String)>) -> Seq<(Seq<char>, Seq<char>)> {
    v.map_values(|p: (String, String)| (p.0@, p.1@))
}

/// Lines of pasted text that are still shown in full.
pub const PASTE_LINE_THRESHOLD: usize = 8;

/// Characters of pasted text that are still shown in full.
pub const PASTE_CHAR_THRESHOLD: usize = 400;

/// The text is long.
pub open spec fn is_long(text: Seq<char>) -> bool {
    lines_of(text).len() > PASTE_LINE_THRESHOLD || text.len() > PASTE_CHAR_THRESHOLD
}

/// What stands for a text that was put away.
pub open spec fn paste_sign(id: nat, text: Seq<char>) -> Seq<char> {
    let label = if lines_of(text).len() > 1 {
        decimal(lines_of(text).len()) + " lines"@
    } else {
        decimal(text.len()) + " chars"@
    };
    "[Pasted #"@ + decimal(id) + " · "@ + label + "]"@
}

/// What stands for a text that was put away.
pub fn paste_chip(id: u64, text: &str) -> (r: String)
    ensures
        r@ == paste_sign(id as nat, text@),
{
    let n_lines: usize = lines(text).len();
    let n_chars: usize = char_count(text);
    let mut label: String = count_text(
        if n_lines > 1 {
            n_lines
        } else {
            n_chars
        },
    );
    if n_lines > 1 {
        label.push_str(" lines");
    } else {
        label.push_str(" chars");
    }
    cat5("[Pasted #", decimal_text(id).as_str(), " · ", label.as_str(), "]")
}

/// What a paste puts into the text that is being typed.
pub open spec fn typed_by_paste(
    b: PasteBoard,
    clipboard_image: bool,
    text: Seq<char>,
    paths: Seq<PastedPath>,
    collapse: bool,
) -> Seq<Seq<char>> {
    let first = b.image_counter as nat + (if clipboard_image {
        1nat
    } else {
        0nat
    });
    let shown = with_images(text, paths, first).0;
    (if clipboard_image {
        seq![image_sign(first)]
    } else {
        Seq::empty()
    }) + (if clipboard_image && shown.len() == 0 {
        Seq::empty()
    } else if collapse && is_long(shown) {
        seq![paste_sign(b.paste_counter as nat + 1, shown)]
    } else {
        seq![shown]
    })
}

/// The board after a paste: the images are counted, and a long text is put away under
/// its sign.
pub open spec fn is_board_after(
    after: PasteBoard,
    b: PasteBoard,
    clipboard_image: bool,
    text: Seq<char>,
    paths: Seq<PastedPath>,
    collapse: bool,
) -> bool {
    let first = b.image_counter as nat + (if clipboard_image {
        1nat
    } else {
        0nat
    });
    let (shown, count) = with_images(text, paths, first);
    let away = collapse && is_long(shown);
    &&& after.image_counter == count
    &&& after.paste_counter == b.paste_counter + (if away {
        1nat
    } else {
        0nat
    })
    &&& put_away(after.pasted_texts@) == if away {
        put_away(b.pasted_texts@).push((paste_sign(b.paste_counter as nat + 1, shown), shown))
    } else {
        put_away(b.pasted_texts@)
    }
}

/// Take up a paste: `clipboard_image` says that an image was in the clipboard,
/// `paths` are the paths of images in the text, and `collapse` that long texts
/// are to be put away. The result is what goes into the text that is being
/// typed, piece by piece.
pub fn handle_paste(
    b: &mut PasteBoard,
    clipboard_image: bool,
    text: &str,
    paths: &Vec<PastedPath>,
    collapse: bool,
) -> (r: Vec<String>)
    requires
        old(b).image_counter + paths@.len() + 1 <= u64::MAX,
        old(b).paste_counter < u64::MAX,
        forall|i: int| 0 <= i < paths@.len() ==> (#[trigger] paths@[i]).path@.len() > 0,
    ensures
        texts(r@) == typed_by_paste(*old(b), clipboard_image, text@, paths@, collapse),
        is_board_after(*final(b), *old(b), clipboard_image, text@, paths@, collapse),
{
    let ghost away_before = put_away(b.pasted_texts@);
    let mut out: Vec<String> = Vec::new();
    if clipboard_image {
        b.image_counter = b.image_counter + 1;
        out.push(image_chip(b.image_counter));
    }
    let (shown, count) = attach_images(text, paths, b.image_counter);
    b.image_counter = count;
    let n_chars: usize = char_count(shown.as_str());
    if !clipboard_image || n_chars > 0 {
        let n_lines: usize = lines(shown.as_str()).len();
        if collapse && (n_lines > PASTE_LINE_THRESHOLD || n_chars > PASTE_CHAR_THRESHOLD) {
            b.paste_counter = b.paste_counter + 1;
            let chip = paste_chip(b.paste_counter, shown.as_str());
            let ghost old_texts = b.pasted_texts@;
            out.push(chip.clone());
            b.pasted_texts.push((chip, shown));
            assert(put_away(b.pasted_texts@) =~= away_before.push(
                (chip@, shown@),
            ));
        } else {
            out.push(shown);
        }
    } else {
        proof {
            lemma_no_lines(shown@);
        }
    }
    assert(texts(out@) =~= typed_by_paste(*old(b), clipboard_image, text@, paths@, collapse));
    out
}

/// A text without characters has no lines.
proof fn lemma_no_lines(s: Seq<char>)
    requires
        s.len() == 0,
    ensures
        lines_of(s).len() == 0,
        !is_long(s),
{
}

/// Where no image could be read, the pasted text stays as it is.
pub proof fn law_text_without_images_is_kept(text: Seq<char>, paths: Seq<PastedPath>, counter: nat)
    requires
        forall|i: int| 0 <= i < paths.len() ==> !(#[trigger] paths[i]).readable,
    ensures
        with_images(text, paths, counter) == (text, counter),
    decreases paths.len(),
{
    if paths.len() > 0 {
        assert(forall|i: int| 0 <= i < paths.drop_last().len() ==> paths.drop_last()[i] == paths[i]);
        law_text_without_images_is_kept(text, paths.drop_last(), counter);
    }
}

/// How many of the paths can be read.
pub open spec fn readable_count(paths: Seq<PastedPath>) -> nat
    decreases paths.len(),
{
    if paths.len() == 0 {
        0
    } else {
        readable_count(paths.drop_last()) + (if paths.last().readable {
            1nat
        } else {
            0
        })
    }
}

proof fn lemma_with_images_counts(text: Seq<char>, paths: Seq<PastedPath>, counter: nat)
    ensures
        with_images(text, paths, counter).1 == counter + readable_count(paths),
    decreases paths.len(),
{
    if paths.len() > 0 {
        lemma_with_images_counts(text, paths.drop_last(), counter);
    }
}

/// Every image gets a number of its own, one after the other; those that cannot be read
/// get none.
pub proof fn law_images_are_numbered(
    after: PasteBoard,
    b: PasteBoard,
    clipboard_image: bool,
    text: Seq<char>,
    paths: Seq<PastedPath>,
    collapse: bool,
)
    requires
        is_board_after(after, b, clipboard_image, text, paths, collapse),
    ensures
        after.image_counter == b.image_counter + readable_count(paths) + (if clipboard_image {
            1nat
        } else {
            0
        }),
        clipboard_image ==> typed_by_paste(b, clipboard_image, text, paths, collapse)[0] == image_sign(
            b.image_counter as nat + 1,
        ),
{
    let first = b.image_counter as nat + (if clipboard_image {
        1nat
    } else {
        0nat
    });
    lemma_with_images_counts(text, paths, first);
}

/// A pasted text without images is never lost: it is typed as it is, or put away whole
/// under a sign that is typed in its place. What was put away before stays.
pub proof fn law_pasted_text_is_never_lost(
    after: PasteBoard,
    b: PasteBoard,
    text: Seq<char>,
    paths: Seq<PastedPath>,
    collapse: bool,
    i: int,
)
    requires
        is_board_after(after, b, false, text, paths, collapse),
        forall|i: int| 0 <= i < paths.len() ==> !(#[trigger] paths[i]).readable,
    ensures
        ({
            let typed = typed_by_paste(b, false, text, paths, collapse);
            let away = put_away(after.pasted_texts@);
            &&& typed.len() == 1
            &&& typed[0] == text || (away.len() > 0 && away.last() == (typed[0], text))
            &&& text.len() <= 400 && lines_of(text).len() <= 8 ==> typed[0] == text
            &&& !collapse ==> typed[0] == text
        }),
        0 <= i < b.pasted_texts@.len() ==> i < after.pasted_texts@.len() && put_away(after.pasted_texts@)[i] == put_away(
            b.pasted_texts@,
        )[i],
{
    law_text_without_images_is_kept(text, paths, b.image_counter as nat);
    assert(put_away(after.pasted_texts@).len() == after.pasted_texts@.len());
}

/// Replacing what does not occur changes nothing; what occurs is replaced where it
/// stands, and what stands around it stays.
pub proof fn law_replacing_keeps_the_rest(s: Seq<char>, what: Seq<char>, with: Seq<char>, from: int)
    requires
        0 <= from <= s.len(),
        forall|i: int| from <= i < s.len() ==> !#[trigger] occurs_at(s, what, i),
    ensures
        replaced_from(s, what, with, from) == s.skip(from),
    decreases s.len() - from,
{
    if from < s.len() {
        assert(!occurs_at(s, what, from));
        law_replacing_keeps_the_rest(s, what, with, from + 1);
        assert(s.skip(from) =~= seq![s[from]] + s.skip(from + 1));
    } else {
        assert(s.skip(from) =~= Seq::<char>::empty());
    }
}

/// The path of an image gives way to its sign, where it stands.
pub proof fn law_paths_give_way_to_signs(before: Seq<char>, path: Seq<char>, with: Seq<char>)
    requires
        path.len() > 0,
        forall|i: int| 0 <= i < before.len() ==> !#[trigger] occurs_at(before + path, path, i),
    ensures
        replaced_from(before + path, path, with, 0) == before + with,
{
    lemma_replaced_tail(before, path, with, 0);
    assert(before.skip(0) =~= before);
}

proof fn lemma_replaced_tail(before: Seq<char>, path: Seq<char>, with: Seq<char>, from: int)
    requires
        path.len() > 0,
        0 <= from <= before.len(),
        forall|i: int| 0 <= i < before.len() ==> !#[trigger] occurs_at(before + path, path, i),
    ensures
        replaced_from(before + path, path, with, from) == before.skip(from) + with,
    decreases before.len() - from,
{
    let s = before + path;
    if from < before.len() {
        assert(!occurs_at(s, path, from));
        lemma_replaced_tail(before, path, with, from + 1);
        assert(before.skip(from) =~= seq![before[from]] + before.skip(from + 1));
        assert(replaced_from(s, path, with, from) =~= before.skip(from) + with);
    } else {
        assert(s.subrange(from, from + path.len()) =~= path);
        assert(occurs_at(s, path, from));
        assert(replaced_from(s, path, with, s.len() as int) =~= Seq::<char>::empty());
        assert(before.skip(from) =~= Seq::<char>::empty());
        assert(replaced_from(s, path, with, from) =~= with);
        assert(before.skip(from) + with =~= with);
    }
}

/// A key that goes down is typed, always; a space that is let go ends a recording where
/// voice is ready, and any other key that is let go does nothing.
pub proof fn law_pressed_keys_are_typed(kind: KeyKind, bare_space: bool, voice_enabled: bool, voice_ready: bool, r: KeyRoute)
    requires
        call_ensures(key_route, (kind, bare_space, voice_enabled, voice_ready), r),
    ensures
        kind is Press || kind is Repeat ==> r is Type,
        kind is Release ==> !(r is Type),
        r is EndRecording ==> kind is Release && bare_space && voice_enabled && voice_ready,
        kind is Release && bare_space && voice_enabled && voice_ready ==> r is EndRecording,
{
}

} // verus!

//! Fitting text into columns.
use vstd::prelude::*;

use crate::slicing::{group_texts, pieces, repeat, repeated, split_char, texts};
use crate::text::{cat2, cat3, char_count, chars_of, decimal, decimal_text, digit, push_decimal, text_between};
use unicode_width::{UnicodeWidthChar, UnicodeWidthStr};

verus! {

broadcast use group_texts;

/// The character is one that ASCII shows.
pub open spec fn is_printed(c: char) -> bool {
    ' ' <= c && c <= '~'
}

/// The characters are all ones that ASCII shows.
pub open spec fn all_printed(s: Seq<char>) -> bool {
    forall|i: int| 0 <= i < s.len() ==> is_printed(#[trigger] s[i])
}

/// The name of what `UnicodeWidthStr::width` returns for the characters of a
/// string with more than ASCII shows.
pub uninterp spec fn wide_text_columns(s: Seq<char>) -> usize;

/// How many columns a text takes.
pub open spec fn text_columns(s: Seq<char>) -> usize {
    if all_printed(s) {
        s.len() as usize
    } else {
        wide_text_columns(s)
    }
}

/// `UnicodeWidthStr::width`: how many columns the string takes. Each character
/// that ASCII shows takes one.
#[verifier::external_body]
fn str_width(s: &str) -> (r: usize)
    ensures
        r == (if all_printed(s@) {
            s@.len() as usize
        } else {
            wide_text_columns(s@)
        }),
{
    UnicodeWidthStr::width(s)
}

/// The name of what `UnicodeWidthChar::width` returns for a character from U+00A0
/// on, none of which is a control.
pub uninterp spec fn wide_char_columns(c: char) -> usize;

/// How many columns a character takes; a control takes none.
pub open spec fn char_columns(c: char) -> Option<usize> {
    if is_printed(c) {
        Some(1)
    } else if c >= '\u{a0}' {
        Some(wide_char_columns(c))
    } else {
        None
    }
}

/// `UnicodeWidthChar::width`: how many columns the character takes, one for each
/// that ASCII shows, and nothing for a control character.
#[verifier::external_body]
fn char_width(c: char) -> (r: Option<usize>)
    ensures
        r == (if is_printed(c) {
            Some(1usize)
        } else if c >= '\u{a0}' {
            Some(wide_char_columns(c))
        } else {
            None
        }),
{
    UnicodeWidthChar::width(c)
}

/// How many columns `s` takes.
pub fn cell_width(s: &str) -> (r: usize)
    ensures
        r == text_columns(s@),
{
    str_width(s)
}

/// The columns of a character; a control character takes none.
pub open spec fn char_cells(c: char) -> usize {
    match char_columns(c) {
        Some(w) => w,
        None => 0,
    }
}

/// How many columns `c` takes; a control character takes none.
pub fn char_cell_width(c: char) -> (r: usize)
    ensures
        r == char_cells(c),
{
    match char_width(c) {
        Some(w) => w,
        None => 0,
    }
}

/// The columns of a character; a control character takes one.
pub open spec fn char_cells_shown(c: char) -> usize {
    match char_columns(c) {
        Some(w) => w,
        None => 1,
    }
}

/// How many columns `c` takes; a control character takes one.
pub fn shown_cell_width(c: char) -> (r: usize)
    ensures
        r == char_cells_shown(c),
{
    match char_width(c) {
        Some(w) => w,
        None => 1,
    }
}

// ── cutting ─────────────────────────────────────────────────────────────

/// `s` in at most `max` characters; the last one says that something is missing.
pub open spec fn shortened(s: Seq<char>, max: nat) -> Seq<char> {
    if s.len() <= max {
        s
    } else if max == 0 {
        Seq::empty()
    } else {
        s.take(max - 1) + "…"@
    }
}

/// `s` in at most `max` characters.
pub fn truncate_str(s: &str, max: usize) -> (r: String)
    ensures
        r@ == shortened(s@, max as nat),
{
    let cs = chars_of(s);
    if cs.len() <= max {
        s.to_owned()
    } else if max == 0 {
        String::new()
    } else {
        let head = text_between(&cs, 0, max - 1);
        assert(cs@.subrange(0, max - 1) =~= s@.take(max - 1));
        cat2(head.as_str(), "…")
    }
}

/// How many characters of `s` from `i` on fit into `room` columns, counted from
/// the front of `s`.
pub open spec fn fitting_end(s: Seq<char>, i: int, room: nat) -> int
    decreases s.len() - i,
{
    if i < 0 || i >= s.len() || char_cells(s[i]) > room {
        i
    } else {
        fitting_end(s, i + 1, (room - char_cells(s[i])) as nat)
    }
}

/// `s` in at most `max` columns; the last one says that something is missing.
pub open spec fn cut_to_cells(s: Seq<char>, max: nat) -> Seq<char> {
    if text_columns(s) <= max {
        s
    } else if max == 0 {
        Seq::empty()
    } else {
        s.take(fitting_end(s, 0, (max - 1) as nat)) + "…"@
    }
}

/// `s` in at most `max` columns.
pub fn truncate_cells(s: &str, max: usize) -> (r: String)
    ensures
        r@ == cut_to_cells(s@, max as nat),
{
    if cell_width(s) <= max {
        return s.to_owned();
    }
    if max == 0 {
        return String::new();
    }
    let cs = chars_of(s);
    let mut room: usize = max - 1;
    let mut i: usize = 0;
    while i < cs.len() && char_cell_width(cs[i]) <= room
        invariant
            i <= cs@.len(),
            cs@ == s@,
            fitting_end(s@, 0, (max - 1) as nat) == fitting_end(s@, i as int, room as nat),
        decreases cs@.len() - i,
    {
        room -= char_cell_width(cs[i]);
        i += 1;
    }
    let head = text_between(&cs, 0, i);
    assert(cs@.subrange(0, i as int) =~= s@.take(i as int));
    cat2(head.as_str(), "…")
}

/// A shortened text keeps within its limit.
pub proof fn law_shortened_fits(s: Seq<char>, max: nat)
    ensures
        shortened(s, max).len() <= max,
        s.len() <= max ==> shortened(s, max) == s,
{
    reveal_strlit("…");
}

// ── aligning ────────────────────────────────────────────────────────────

/// `value` moved to the right end of `width` columns.
pub open spec fn right_aligned(value: Seq<char>, width: nat) -> Seq<char> {
    if text_columns(value) >= width {
        value
    } else {
        repeated(" "@, (width - text_columns(value)) as nat) + value
    }
}

/// `value` filled up to `width` columns.
pub open spec fn left_aligned(value: Seq<char>, width: nat) -> Seq<char> {
    if text_columns(value) >= width {
        value
    } else {
        value + repeated(" "@, (width - text_columns(value)) as nat)
    }
}

/// Move `value` to the right end of `width` columns.
pub fn align_right(value: &str, width: usize) -> (r: String)
    ensures
        r@ == right_aligned(value@, width as nat),
{
    let value_width: usize = cell_width(value);
    if value_width >= width {
        value.to_owned()
    } else {
        cat2(repeat(" ", width - value_width).as_str(), value)
    }
}

/// Fill `value` up to `width` columns.
pub fn align_left(value: &str, width: usize) -> (r: String)
    ensures
        r@ == left_aligned(value@, width as nat),
{
    let value_width: usize = cell_width(value);
    if value_width >= width {
        value.to_owned()
    } else {
        cat2(value, repeat(" ", width - value_width).as_str())
    }
}

/// `value` moved to the right end of `width` characters.
pub open spec fn padded(value: Seq<char>, width: nat) -> Seq<char> {
    if value.len() >= width {
        value
    } else {
        repeated(" "@, (width - value.len()) as nat) + value
    }
}

/// Move `value` to the right end of `width` characters.
pub fn pad_left(value: &str, width: usize) -> (r: String)
    ensures
        r@ == padded(value@, width as nat),
{
    let len: usize = char_count(value);
    if len >= width {
        value.to_owned()
    } else {
        cat2(repeat(" ", width - len).as_str(), value)
    }
}

// ── numbers ─────────────────────────────────────────────────────────────

/// Three decimal digits.
pub open spec fn three_digits(n: nat) -> Seq<char> {
    seq![digit(n / 100 % 10), digit(n / 10 % 10), digit(n % 10)]
}

/// Decimal notation in groups of three digits.
pub open spec fn grouped(n: nat) -> Seq<char>
    decreases n,
{
    if n < 1000 {
        decimal(n)
    } else {
        grouped(n / 1000) + ","@ + three_digits(n % 1000)
    }
}

fn three_digit_text(n: u64) -> (r: String)
    requires
        n < 1000,
    ensures
        r@ == three_digits(n as nat),
{
    let mut out = String::new();
    push_decimal(&mut out, (n / 100) as u128);
    push_decimal(&mut out, (n / 10 % 10) as u128);
    push_decimal(&mut out, (n % 10) as u128);
    assert(decimal((n / 100) as nat) =~= seq![digit((n / 100) as nat)]);
    assert(decimal((n / 10 % 10) as nat) =~= seq![digit((n / 10 % 10) as nat)]);
    assert(decimal((n % 10) as nat) =~= seq![digit((n % 10) as nat)]);
    assert(n / 100 % 10 == n / 100);
    assert(out@ =~= three_digits(n as nat));
    out
}

/// Decimal notation in groups of three digits.
pub fn fmt_number(n: u64) -> (r: String)
    ensures
        r@ == grouped(n as nat),
    decreases n,
{
    if n < 1000 {
        decimal_text(n)
    } else {
        cat3(fmt_number(n / 1000).as_str(), ",", three_digit_text(n % 1000).as_str())
    }
}

// ── wrapping ────────────────────────────────────────────────────────────

/// The words of a list of pieces: those that are not empty.
pub open spec fn non_empty(parts: Seq<Seq<char>>) -> Seq<Seq<char>>
    decreases parts.len(),
{
    if parts.len() == 0 {
        parts
    } else if parts.last().len() == 0 {
        non_empty(parts.drop_last())
    } else {
        non_empty(parts.drop_last()).push(parts.last())
    }
}

/// `words` filled into lines of `width` characters, with `line` begun. A word
/// that is longer stands on a line of its own.
pub open spec fn filled(words: Seq<Seq<char>>, line: Seq<char>, width: nat) -> Seq<Seq<char>>
    decreases words.len(),
{
    if words.len() == 0 {
        if line.len() == 0 {
            Seq::empty()
        } else {
            seq![line]
        }
    } else if line.len() == 0 {
        filled(words.skip(1), words[0], width)
    } else if line.len() + 1 + words[0].len() <= width {
        filled(words.skip(1), line + " "@ + words[0], width)
    } else {
        seq![line] + filled(words.skip(1), words[0], width)
    }
}

/// The words of `s` filled into lines of `width` characters.
pub open spec fn wrapped(s: Seq<char>, width: nat) -> Seq<Seq<char>> {
    filled(non_empty(pieces(s, ' ', 0)), Seq::empty(), width)
}

fn words(s: &str) -> (r: Vec<String>)
    ensures
        texts(r@) == non_empty(pieces(s@, ' ', 0)),
{
    let parts = split_char(s, ' ');
    let ghost all = texts(parts@);
    let mut out: Vec<String> = Vec::new();
    let mut i: usize = 0;
    assert(texts(out@) =~= non_empty(all.take(0)));
    while i < parts.len()
        invariant
            i <= parts@.len(),
            all == texts(parts@),
            texts(out@) == non_empty(all.take(i as int)),
        decreases parts@.len() - i,
    {
        assert(all.take(i + 1).drop_last() =~= all.take(i as int));
        assert(all.take(i + 1).last() == parts@[i as int]@);
        if char_count(parts[i].as_str()) > 0 {
            out.push(parts[i].clone());
        }
        i += 1;
    }
    assert(all.take(i as int) =~= all);
    out
}

/// Fill the words of `s` into lines of `width` characters.
pub fn wrap_text_to_width(s: &str, width: usize) -> (r: Vec<String>)
    ensures
        texts(r@) == wrapped(s@, width as nat),
{
    let ws = words(s);
    let ghost all = texts(ws@);
    let mut out: Vec<String> = Vec::new();
    let mut line = String::new();
    let mut i: usize = 0;
    assert(all.skip(0) =~= all);
    assert(line@ =~= Seq::<char>::empty());
    assert(texts(out@) + filled(all.skip(0), line@, width as nat) =~= wrapped(s@, width as nat));
    while i < ws.len()
        invariant
            i <= ws@.len(),
            all == texts(ws@),
            texts(out@) + filled(all.skip(i as int), line@, width as nat) == wrapped(s@, width as nat),
        decreases ws@.len() - i,
    {
        let ghost before = texts(out@);
        let ghost rest = all.skip(i as int);
        assert(rest.skip(1) =~= all.skip(i + 1));
        assert(rest[0] == ws@[i as int]@);
        let len: u128 = char_count(line.as_str()) as u128;
        let more: u128 = char_count(ws[i].as_str()) as u128;
        if len == 0 {
            line = ws[i].clone();
        } else if len + 1 + more <= width as u128 {
            line = cat3(line.as_str(), " ", ws[i].as_str());
        } else {
            let ghost l = line@;
            out.push(line);
            line = ws[i].clone();
            assert(before.push(l) + filled(all.skip(i + 1), line@, width as nat) =~= before + (seq![l]
                + filled(all.skip(i + 1), line@, width as nat)));
        }
        i += 1;
    }
    assert(all.skip(i as int).len() == 0);
    if char_count(line.as_str()) > 0 {
        let ghost before = texts(out@);
        let ghost l = line@;
        out.push(line);
        assert(before.push(l) =~= before + seq![l]);
    } else {
        assert(texts(out@) + Seq::<Seq<char>>::empty() =~= texts(out@));
    }
    out
}

proof fn lemma_fitting_end(s: Seq<char>, i: int, room: nat)
    requires
        0 <= i <= s.len(),
    ensures
        i <= fitting_end(s, i, room) <= s.len(),
    decreases s.len() - i,
{
    if i < s.len() && char_cells(s[i]) <= room {
        lemma_fitting_end(s, i + 1, (room - char_cells(s[i])) as nat);
    }
}

/// A text that fits is shown whole; of another, the beginning is shown and a sign that
/// more follows.
pub proof fn law_fitting_texts_are_shown_whole(s: Seq<char>, max: nat)
    ensures
        text_columns(s) <= max ==> cut_to_cells(s, max) == s,
        text_columns(s) > max && max > 0 ==> cut_to_cells(s, max).len() > 0 && cut_to_cells(s, max).last() == '…'
            && cut_to_cells(s, max).len() - 1 <= s.len() && cut_to_cells(s, max).drop_last() == s.take(
            cut_to_cells(s, max).len() - 1,
        ),
        s.len() <= max ==> shortened(s, max) == s,
        s.len() > max && max > 0 ==> shortened(s, max).len() == max && shortened(s, max).drop_last() == s.take(
            max - 1,
        ) && shortened(s, max).last() == '…',
{
    reveal_strlit("…");
    if max > 0 {
        lemma_fitting_end(s, 0, (max - 1) as nat);
        let end = fitting_end(s, 0, (max - 1) as nat);
        assert((s.take(end) + "…"@).drop_last() =~= s.take(end));
        if s.len() > max {
            assert((s.take(max - 1) + "…"@).drop_last() =~= s.take(max - 1));
        }
    }
}

/// Aligning a text adds nothing but space on its one side.
pub proof fn law_aligning_adds_only_space(value: Seq<char>, width: nat)
    ensures
        crate::slicing::has_suffix(right_aligned(value, width), value),
        crate::slicing::has_prefix(left_aligned(value, width), value),
        crate::slicing::has_suffix(padded(value, width), value),
        padded(value, width).len() >= value.len(),
{
    let a = right_aligned(value, width);
    assert(a.subrange(a.len() - value.len(), a.len() as int) =~= value);
    let b = left_aligned(value, width);
    assert(b.subrange(0, value.len() as int) =~= value);
    let c = padded(value, width);
    assert(c.subrange(c.len() - value.len(), c.len() as int) =~= value);
}

/// A text without its grouping commas.
pub open spec fn without_commas(s: Seq<char>) -> Seq<char>
    decreases s.len(),
{
    if s.len() == 0 {
        s
    } else if s.last() == ',' {
        without_commas(s.drop_last())
    } else {
        without_commas(s.drop_last()).push(s.last())
    }
}

proof fn lemma_without_commas_adds(a: Seq<char>, b: Seq<char>)
    ensures
        without_commas(a + b) == without_commas(a) + without_commas(b),
    decreases b.len(),
{
    if b.len() == 0 {
        assert(a + b =~= a);
        assert(without_commas(a) + without_commas(b) =~= without_commas(a));
    } else {
        lemma_without_commas_adds(a, b.drop_last());
        assert((a + b).drop_last() =~= a + b.drop_last());
        assert((a + b).last() == b.last());
        assert(without_commas(a + b) =~= without_commas(a) + without_commas(b));
    }
}

proof fn lemma_digit_is_no_comma(n: nat)
    requires
        n < 10,
    ensures
        digit(n) != ',',
        crate::showing::value_of(seq![digit(n)]) == n,
{
    crate::showing::law_decimal_reads_back(n);
    assert(decimal(n) =~= seq![digit(n)]);
}

proof fn lemma_decimal_has_no_comma(n: nat)
    ensures
        without_commas(decimal(n)) == decimal(n),
    decreases n,
{
    if n >= 10 {
        lemma_decimal_has_no_comma(n / 10);
        assert(decimal(n).drop_last() =~= decimal(n / 10));
        assert(decimal(n).last() == digit(n % 10));
        lemma_digit_is_no_comma(n % 10);
    } else {
        lemma_digit_is_no_comma(n);
        assert(decimal(n) =~= seq![digit(n)]);
        assert(decimal(n).drop_last() =~= Seq::<char>::empty());
        assert(decimal(n).last() == digit(n));
        assert(without_commas(decimal(n).drop_last()) =~= Seq::<char>::empty());
        assert(without_commas(decimal(n)) =~= decimal(n));
    }
}

proof fn lemma_three_digits(m: nat)
    ensures
        without_commas(three_digits(m)) == three_digits(m),
{
    lemma_digit_is_no_comma(m / 100 % 10);
    lemma_digit_is_no_comma(m / 10 % 10);
    lemma_digit_is_no_comma(m % 10);
    let t = three_digits(m);
    let two = t.drop_last();
    let one = two.drop_last();
    assert(one.drop_last() =~= Seq::<char>::empty());
    assert(without_commas(one.drop_last()) =~= Seq::<char>::empty());
    assert(one.last() == t[0]);
    assert(without_commas(one) =~= one);
    assert(two.last() == t[1]);
    assert(without_commas(two) =~= two);
    assert(t.last() == t[2]);
    assert(without_commas(t) =~= t);
}

proof fn lemma_decimal_in_thousands(n: nat)
    requires
        n >= 1000,
    ensures
        decimal(n) == decimal(n / 1000) + three_digits(n % 1000),
{
    let m = n % 1000;
    assert(n / 10 / 10 / 10 == n / 1000);
    assert(n / 10 / 10 % 10 == m / 100 % 10);
    assert(n / 10 % 10 == m / 10 % 10);
    assert(n % 10 == m % 10);
    assert(decimal(n / 10 / 10) =~= decimal(n / 10 / 10 / 10).push(digit(n / 10 / 10 % 10)));
    assert(decimal(n / 10) =~= decimal(n / 10 / 10).push(digit(n / 10 % 10)));
    assert(decimal(n) =~= decimal(n / 10).push(digit(n % 10)));
    assert(decimal(n) =~= decimal(n / 1000) + three_digits(m));
}

/// A grouped number without its commas is the number in decimal digits.
pub proof fn law_grouping_keeps_the_digits(n: nat)
    ensures
        without_commas(grouped(n)) == decimal(n),
    decreases n,
{
    if n < 1000 {
        lemma_decimal_has_no_comma(n);
    } else {
        law_grouping_keeps_the_digits(n / 1000);
        reveal_strlit(",");
        let t = three_digits(n % 1000);
        lemma_without_commas_adds(grouped(n / 1000) + ","@, t);
        lemma_without_commas_adds(grouped(n / 1000), ","@);
        assert(","@.drop_last() =~= Seq::<char>::empty());
        assert(without_commas(","@.drop_last()) =~= Seq::<char>::empty());
        assert(without_commas(","@) =~= Seq::<char>::empty());
        lemma_three_digits(n % 1000);
        lemma_decimal_in_thousands(n);
        assert(without_commas(grouped(n)) =~= decimal(n / 1000) + t);
    }
}

} // verus!

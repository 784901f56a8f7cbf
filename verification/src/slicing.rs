//! Searching, trimming, splitting and joining text.
use vstd::prelude::*;

use crate::text::{char_is_space, chars_of, text_between};

verus! {

// ── searching ───────────────────────────────────────────────────────────

/// `needle` stands in `hay` at position `i`.
pub open spec fn occurs_at(hay: Seq<char>, needle: Seq<char>, i: int) -> bool {
    &&& 0 <= i
    &&& i + needle.len() <= hay.len()
    &&& hay.subrange(i, i + needle.len()) == needle
}

/// `needle` stands somewhere in `hay`.
pub open spec fn has_text(hay: Seq<char>, needle: Seq<char>) -> bool {
    exists|i: int| occurs_at(hay, needle, i)
}

/// Whether `needle` stands in `hay` at position `i`.
pub fn occurs_here(hay: &Vec<char>, needle: &Vec<char>, i: usize) -> (r: bool)
    requires
        i + needle@.len() <= hay@.len(),
    ensures
        r == occurs_at(hay@, needle@, i as int),
{
    let total: usize = hay.len();
    let mut k: usize = 0;
    while k < needle.len()
        invariant
            k <= needle@.len(),
            total == hay@.len(),
            i + needle@.len() <= total,
            forall|j: int| 0 <= j < k ==> hay@[i + j] == needle@[j],
        decreases needle@.len() - k,
    {
        if hay[i + k] != needle[k] {
            assert(hay@.subrange(i as int, i + needle@.len())[k as int] != needle@[k as int]);
            return false;
        }
        k += 1;
    }
    assert(hay@.subrange(i as int, i + needle@.len()) =~= needle@);
    true
}

/// Whether `needle` stands somewhere in `hay`.
pub fn contains(hay: &str, needle: &str) -> (r: bool)
    ensures
        r == has_text(hay@, needle@),
{
    let h = chars_of(hay);
    let n = chars_of(needle);
    if n.len() > h.len() {
        return false;
    }
    let last: usize = h.len() - n.len();
    let mut i: usize = 0;
    while i <= last
        invariant
            h@ == hay@,
            n@ == needle@,
            last == h@.len() - n@.len(),
            i <= last + 1,
            forall|j: int| 0 <= j < i ==> !occurs_at(h@, n@, j),
        decreases last + 1 - i,
    {
        if occurs_here(&h, &n, i) {
            return true;
        }
        if i == last {
            assert(forall|j: int| !occurs_at(h@, n@, j));
            return false;
        }
        i += 1;
    }
    false
}

/// `s` begins with `prefix`.
pub open spec fn has_prefix(s: Seq<char>, prefix: Seq<char>) -> bool {
    occurs_at(s, prefix, 0)
}

/// `s` ends with `suffix`.
pub open spec fn has_suffix(s: Seq<char>, suffix: Seq<char>) -> bool {
    occurs_at(s, suffix, s.len() - suffix.len())
}

pub fn starts_with(s: &str, prefix: &str) -> (r: bool)
    ensures
        r == has_prefix(s@, prefix@),
{
    let h = chars_of(s);
    let n = chars_of(prefix);
    if n.len() > h.len() {
        return false;
    }
    occurs_here(&h, &n, 0)
}

pub fn ends_with(s: &str, suffix: &str) -> (r: bool)
    ensures
        r == has_suffix(s@, suffix@),
{
    let h = chars_of(s);
    let n = chars_of(suffix);
    if n.len() > h.len() {
        return false;
    }
    occurs_here(&h, &n, h.len() - n.len())
}

/// What follows `prefix` in `s`, when `s` begins with it.
pub open spec fn after_prefix(s: Seq<char>, prefix: Seq<char>) -> Option<Seq<char>> {
    if has_prefix(s, prefix) {
        Some(s.skip(prefix.len() as int))
    } else {
        None
    }
}

/// The text of an optional string.
pub open spec fn opt_text(s: Option<String>) -> Option<Seq<char>> {
    match s {
        Some(t) => Some(t@),
        None => None,
    }
}

pub fn strip_prefix(s: &str, prefix: &str) -> (r: Option<String>)
    ensures
        opt_text(r) == after_prefix(s@, prefix@),
{
    if starts_with(s, prefix) {
        let h = chars_of(s);
        let n = chars_of(prefix);
        let rest = text_between(&h, n.len(), h.len());
        assert(rest@ =~= s@.skip(prefix@.len() as int));
        Some(rest)
    } else {
        None
    }
}

// ── trimming ────────────────────────────────────────────────────────────

/// `s` without the white space in front.
pub open spec fn trimmed_start(s: Seq<char>) -> Seq<char>
    decreases s.len(),
{
    if s.len() > 0 && crate::text::is_space(s[0]) {
        trimmed_start(s.skip(1))
    } else {
        s
    }
}

/// `s` without the white space behind.
pub open spec fn trimmed_end(s: Seq<char>) -> Seq<char>
    decreases s.len(),
{
    if s.len() > 0 && crate::text::is_space(s.last()) {
        trimmed_end(s.drop_last())
    } else {
        s
    }
}

/// `s` without the white space at either end.
pub open spec fn trimmed(s: Seq<char>) -> Seq<char> {
    trimmed_end(trimmed_start(s))
}

/// `s` without the white space in front.
pub fn trim_start(s: &str) -> (r: String)
    ensures
        r@ == trimmed_start(s@),
{
    let cs = chars_of(s);
    let mut from: usize = 0;
    assert(cs@.skip(0) =~= s@);
    while from < cs.len() && char_is_space(cs[from])
        invariant
            from <= cs@.len(),
            cs@ == s@,
            trimmed_start(s@) == trimmed_start(cs@.skip(from as int)),
        decreases cs@.len() - from,
    {
        assert(cs@.skip(from as int).skip(1) =~= cs@.skip(from + 1));
        from += 1;
    }
    let rest = text_between(&cs, from, cs.len());
    assert(rest@ =~= cs@.skip(from as int));
    rest
}

/// `s` without the white space behind.
pub fn trim_end(s: &str) -> (r: String)
    ensures
        r@ == trimmed_end(s@),
{
    let cs = chars_of(s);
    let mut to: usize = cs.len();
    assert(cs@.take(to as int) =~= s@);
    while to > 0 && char_is_space(cs[to - 1])
        invariant
            to <= cs@.len(),
            cs@ == s@,
            trimmed_end(s@) == trimmed_end(cs@.take(to as int)),
        decreases to,
    {
        assert(cs@.take(to as int).drop_last() =~= cs@.take(to - 1));
        to -= 1;
    }
    let head = text_between(&cs, 0, to);
    assert(head@ =~= cs@.take(to as int));
    head
}

/// `s` without the white space at either end.
pub fn trim(s: &str) -> (r: String)
    ensures
        r@ == trimmed(s@),
{
    let cs = chars_of(s);
    let mut from: usize = 0;
    assert(cs@.skip(0) =~= s@);
    while from < cs.len() && char_is_space(cs[from])
        invariant
            from <= cs@.len(),
            cs@ == s@,
            trimmed_start(s@) == trimmed_start(cs@.skip(from as int)),
        decreases cs@.len() - from,
    {
        assert(cs@.skip(from as int).skip(1) =~= cs@.skip(from + 1));
        from += 1;
    }
    assert(trimmed_start(s@) == cs@.skip(from as int));
    let mut to: usize = cs.len();
    assert(cs@.subrange(from as int, to as int) =~= cs@.skip(from as int));
    while to > from && char_is_space(cs[to - 1])
        invariant
            from <= to <= cs@.len(),
            cs@ == s@,
            trimmed(s@) == trimmed_end(cs@.subrange(from as int, to as int)),
        decreases to,
    {
        assert(cs@.subrange(from as int, to as int).drop_last() =~= cs@.subrange(from as int, to - 1));
        to -= 1;
    }
    text_between(&cs, from, to)
}

/// Trimming leaves something exactly where some character is no white space.
pub proof fn lemma_trimmed_is_empty(s: Seq<char>)
    ensures
        trimmed(s).len() > 0 <==> exists|i: int|
            0 <= i < s.len() && !crate::text::is_space(#[trigger] s[i]),
{
    lemma_trimmed_start_keeps(s);
    lemma_trimmed_end_keeps(trimmed_start(s));
    let t = trimmed_start(s);
    if trimmed(s).len() > 0 {
        lemma_trimmed_start_head(s);
        assert(s.contains(t[0]));
    }
    if exists|i: int| 0 <= i < s.len() && !crate::text::is_space(#[trigger] s[i]) {
        let i = choose|i: int| 0 <= i < s.len() && !crate::text::is_space(#[trigger] s[i]);
        assert(t.contains(s[i]));
        assert(trimmed_end(t).contains(s[i]));
    }
}

proof fn lemma_trimmed_start_keeps(s: Seq<char>)
    ensures
        trimmed_start(s).len() <= s.len(),
        forall|i: int| 0 <= i < trimmed_start(s).len() ==> s.contains(#[trigger] trimmed_start(s)[i]),
        forall|i: int|
            0 <= i < s.len() && !crate::text::is_space(#[trigger] s[i]) ==> trimmed_start(s).contains(s[i]),
    decreases s.len(),
{
    if s.len() > 0 && crate::text::is_space(s[0]) {
        let rest = s.skip(1);
        lemma_trimmed_start_keeps(rest);
        assert forall|i: int| 0 <= i < s.len() && !crate::text::is_space(#[trigger] s[i]) implies trimmed_start(
            s,
        ).contains(s[i]) by {
            assert(rest[i - 1] == s[i]);
        }
        assert forall|i: int| 0 <= i < trimmed_start(s).len() implies s.contains(
            #[trigger] trimmed_start(s)[i],
        ) by {
            let c = trimmed_start(rest)[i];
            let k = choose|k: int| 0 <= k < rest.len() && rest[k] == c;
            assert(s[k + 1] == c);
        }
    }
}

proof fn lemma_trimmed_start_head(s: Seq<char>)
    ensures
        trimmed_start(s).len() > 0 ==> !crate::text::is_space(trimmed_start(s)[0]),
    decreases s.len(),
{
    if s.len() > 0 && crate::text::is_space(s[0]) {
        lemma_trimmed_start_head(s.skip(1));
    }
}

proof fn lemma_trimmed_end_keeps(s: Seq<char>)
    ensures
        trimmed_end(s).len() <= s.len(),
        trimmed_end(s).len() > 0 ==> trimmed_end(s)[0] == s[0] && !crate::text::is_space(
            trimmed_end(s).last(),
        ),
        forall|i: int|
            0 <= i < s.len() && !crate::text::is_space(#[trigger] s[i]) ==> trimmed_end(s).contains(s[i]),
    decreases s.len(),
{
    if s.len() > 0 && crate::text::is_space(s.last()) {
        let rest = s.drop_last();
        lemma_trimmed_end_keeps(rest);
        assert forall|i: int| 0 <= i < s.len() && !crate::text::is_space(#[trigger] s[i]) implies trimmed_end(
            s,
        ).contains(s[i]) by {
            assert(rest[i] == s[i]);
        }
    }
}

// ── words ───────────────────────────────────────────────────────────────

/// The words that are complete in `s`, and the one that is begun.
pub open spec fn word_state(s: Seq<char>) -> (Seq<Seq<char>>, Seq<char>)
    decreases s.len(),
{
    if s.len() == 0 {
        (Seq::empty(), Seq::empty())
    } else {
        let (done, begun) = word_state(s.drop_last());
        if !crate::text::is_space(s.last()) {
            (done, begun.push(s.last()))
        } else if begun.len() > 0 {
            (done.push(begun), Seq::empty())
        } else {
            (done, begun)
        }
    }
}

/// The words of `s`: its longest stretches without white space.
pub open spec fn words_of(s: Seq<char>) -> Seq<Seq<char>> {
    let (done, begun) = word_state(s);
    if begun.len() > 0 {
        done.push(begun)
    } else {
        done
    }
}

/// The words of `s`.
pub fn split_words(s: &str) -> (r: Vec<String>)
    ensures
        texts(r@) == words_of(s@),
{
    broadcast use group_texts;

    let cs = chars_of(s);
    let mut done: Vec<String> = Vec::new();
    let mut begun = String::new();
    let mut i: usize = 0;
    assert(texts(done@) =~= word_state(cs@.take(0)).0);
    assert(begun@ =~= word_state(cs@.take(0)).1);
    while i < cs.len()
        invariant
            i <= cs@.len(),
            (texts(done@), begun@) == word_state(cs@.take(i as int)),
        decreases cs@.len() - i,
    {
        assert(cs@.take(i + 1).drop_last() =~= cs@.take(i as int));
        if !char_is_space(cs[i]) {
            begun.push(cs[i]);
        } else if !begun.as_str().is_empty() {
            done.push(begun);
            begun = String::new();
            assert(begun@ =~= Seq::<char>::empty());
        }
        i += 1;
    }
    assert(cs@.take(i as int) =~= s@);
    if !begun.as_str().is_empty() {
        done.push(begun);
    }
    done
}

// ── splitting ───────────────────────────────────────────────────────────

/// The texts of a list of strings.
pub open spec fn texts(v: Seq<String>) -> Seq<Seq<char>> {
    v.map_values(|s: String| s@)
}

pub broadcast proof fn lemma_texts_push(v: Seq<String>, s: String)
    ensures
        #[trigger] texts(v.push(s)) == texts(v).push(s@),
{
    assert(texts(v.push(s)) =~= texts(v).push(s@));
}

pub broadcast proof fn lemma_texts_empty()
    ensures
        #[trigger] texts(Seq::<String>::empty()) == Seq::<Seq<char>>::empty(),
{
    assert(texts(Seq::<String>::empty()) =~= Seq::<Seq<char>>::empty());
}

pub broadcast proof fn lemma_texts_add(a: Seq<String>, b: Seq<String>)
    ensures
        #[trigger] texts(a + b) == texts(a) + texts(b),
{
    assert(texts(a + b) =~= texts(a) + texts(b));
}

pub broadcast group group_texts {
    lemma_texts_push,
    lemma_texts_empty,
    lemma_texts_add,
}

/// The first position of `c` in `s` at or after `from`, or the length of `s`.
pub open spec fn first_index(s: Seq<char>, c: char, from: int) -> int
    decreases s.len() - from,
{
    if from < 0 || from >= s.len() {
        s.len() as int
    } else if s[from] == c {
        from
    } else {
        first_index(s, c, from + 1)
    }
}

/// A line without the carriage return that may close it.
pub open spec fn without_cr(s: Seq<char>) -> Seq<char> {
    if s.len() > 0 && s.last() == '\r' {
        s.drop_last()
    } else {
        s
    }
}

pub proof fn lemma_first_index(s: Seq<char>, c: char, from: int)
    requires
        0 <= from <= s.len(),
    ensures
        from <= first_index(s, c, from) <= s.len(),
        first_index(s, c, from) < s.len() ==> s[first_index(s, c, from)] == c,
    decreases s.len() - from,
{
    if from < s.len() && s[from] != c {
        lemma_first_index(s, c, from + 1);
    }
}

/// The lines of `s` from position `from` on: each ends at a line feed or at the
/// end of the text, and loses a carriage return that stands before the line
/// feed. No empty line follows a closing line feed.
pub open spec fn lines_from(s: Seq<char>, from: int) -> Seq<Seq<char>>
    decreases s.len() - from,
{
    if from < 0 || from >= s.len() {
        Seq::empty()
    } else {
        let end = first_index(s, '\n', from);
        if from <= end < s.len() {
            seq![without_cr(s.subrange(from, end))] + lines_from(s, end + 1)
        } else {
            seq![s.subrange(from, s.len() as int)]
        }
    }
}

/// The lines of `s`.
pub open spec fn lines_of(s: Seq<char>) -> Seq<Seq<char>> {
    lines_from(s, 0)
}

/// The lines of `s`.
pub fn lines(s: &str) -> (r: Vec<String>)
    ensures
        texts(r@) == lines_of(s@),
{
    broadcast use group_texts;

    let cs = chars_of(s);
    let mut out: Vec<String> = Vec::new();
    let mut from: usize = 0;
    assert(texts(out@) + lines_from(cs@, 0) =~= lines_from(cs@, 0));
    while from < cs.len()
        invariant
            from <= cs@.len(),
            cs@ == s@,
            texts(out@) + lines_from(cs@, from as int) == lines_of(s@),
        decreases cs@.len() - from,
    {
        let mut end: usize = from;
        while end < cs.len() && cs[end] != '\n'
            invariant
                from <= end <= cs@.len(),
                first_index(cs@, '\n', from as int) == first_index(cs@, '\n', end as int),
            decreases cs@.len() - end,
        {
            end += 1;
        }
        let ghost before = out@;
        if end < cs.len() {
            let mut stop: usize = end;
            if end > from && cs[end - 1] == '\r' {
                stop = end - 1;
            }
            let line = text_between(&cs, from, stop);
            assert(line@ =~= without_cr(cs@.subrange(from as int, end as int)));
            out.push(line);
            assert(texts(out@) + lines_from(cs@, end + 1) =~= texts(before) + (seq![line@] + lines_from(cs@, end + 1)));
            from = end + 1;
        } else {
            let line = text_between(&cs, from, end);
            out.push(line);
            assert(lines_from(cs@, from as int) =~= seq![line@]);
            assert(lines_from(cs@, end as int) =~= Seq::<Seq<char>>::empty());
            assert(texts(out@) + lines_from(cs@, end as int) =~= texts(before) + seq![line@]);
            from = end;
        }
    }
    assert(texts(out@) + Seq::<Seq<char>>::empty() =~= texts(out@));
    out
}

/// The pieces of `s` between the characters `c`, from position `from` on. There
/// is one more piece than there are such characters.
pub open spec fn pieces(s: Seq<char>, c: char, from: int) -> Seq<Seq<char>>
    decreases s.len() - from,
{
    let end = first_index(s, c, from);
    if 0 <= from <= end < s.len() {
        seq![s.subrange(from, end)] + pieces(s, c, end + 1)
    } else {
        seq![s.subrange(from, s.len() as int)]
    }
}

/// The pieces of `s` between the characters `c`.
pub fn split_char(s: &str, c: char) -> (r: Vec<String>)
    ensures
        texts(r@) == pieces(s@, c, 0),
        r@.len() > 0,
{
    broadcast use group_texts;

    let cs = chars_of(s);
    let mut out: Vec<String> = Vec::new();
    let mut from: usize = 0;
    let mut end: usize = 0;
    assert(texts(out@) + pieces(cs@, c, 0) =~= pieces(cs@, c, 0));
    while end < cs.len()
        invariant
            from <= end <= cs@.len(),
            cs@ == s@,
            first_index(cs@, c, from as int) == first_index(cs@, c, end as int),
            texts(out@) + pieces(cs@, c, from as int) == pieces(s@, c, 0),
        decreases cs@.len() - end,
    {
        if cs[end] == c {
            let ghost before = texts(out@);
            let piece = text_between(&cs, from, end);
            out.push(piece);
            assert(texts(out@) + pieces(cs@, c, end + 1) =~= before + (seq![piece@] + pieces(
                cs@,
                c,
                end + 1,
            )));
            end += 1;
            from = end;
        } else {
            end += 1;
        }
    }
    let ghost before = texts(out@);
    let piece = text_between(&cs, from, end);
    out.push(piece);
    assert(texts(out@) =~= before + seq![piece@]);
    out
}

// ── joining ─────────────────────────────────────────────────────────────

/// The texts `parts` with `sep` between neighbours.
pub open spec fn joined(parts: Seq<Seq<char>>, sep: Seq<char>) -> Seq<char>
    decreases parts.len(),
{
    if parts.len() == 0 {
        Seq::empty()
    } else if parts.len() == 1 {
        parts[0]
    } else {
        joined(parts.drop_last(), sep) + sep + parts.last()
    }
}

/// The strings `parts` with `sep` between neighbours.
pub fn join(parts: &Vec<String>, sep: &str) -> (r: String)
    ensures
        r@ == joined(texts(parts@), sep@),
{
    let mut out = String::new();
    let mut i: usize = 0;
    assert(texts(parts@).take(0) =~= Seq::<Seq<char>>::empty());
    while i < parts.len()
        invariant
            i <= parts@.len(),
            out@ == joined(texts(parts@).take(i as int), sep@),
        decreases parts@.len() - i,
    {
        let ghost all = texts(parts@);
        assert(all.take(i + 1).drop_last() =~= all.take(i as int));
        assert(all.take(i + 1).last() == parts@[i as int]@);
        let ghost before = out@;
        if i > 0 {
            out.push_str(sep);
        }
        out.push_str(parts[i].as_str());
        if i == 0 {
            assert(out@ =~= parts@[0]@);
        }
        i += 1;
    }
    assert(texts(parts@).take(i as int) =~= texts(parts@));
    out
}

/// `unit`, `count` times over.
pub open spec fn repeated(unit: Seq<char>, count: nat) -> Seq<char>
    decreases count,
{
    if count == 0 {
        Seq::empty()
    } else {
        repeated(unit, (count - 1) as nat) + unit
    }
}

/// `unit`, `count` times over.
pub fn repeat(unit: &str, count: usize) -> (r: String)
    ensures
        r@ == repeated(unit@, count as nat),
{
    let mut out = String::new();
    let mut i: usize = 0;
    while i < count
        invariant
            i <= count,
            out@ == repeated(unit@, i as nat),
        decreases count - i,
    {
        out.push_str(unit);
        i += 1;
    }
    out
}

/// `s` with every character for which `from` holds replaced by `to`.
pub open spec fn with_replaced(s: Seq<char>, from: char, to: char) -> Seq<char> {
    s.map_values(|c: char| if c == from { to } else { c })
}

pub fn replace_char(s: &str, from: char, to: char) -> (r: String)
    ensures
        r@ == with_replaced(s@, from, to),
{
    let cs = chars_of(s);
    let mut out = String::new();
    let mut i: usize = 0;
    assert(with_replaced(cs@, from, to).take(0) =~= Seq::<char>::empty());
    while i < cs.len()
        invariant
            i <= cs@.len(),
            out@ == with_replaced(cs@, from, to).take(i as int),
        decreases cs@.len() - i,
    {
        if cs[i] == from {
            out.push(to);
        } else {
            out.push(cs[i]);
        }
        assert(with_replaced(cs@, from, to).take(i + 1) =~= with_replaced(cs@, from, to).take(i as int).push(
            with_replaced(cs@, from, to)[i as int],
        ));
        i += 1;
    }
    assert(with_replaced(cs@, from, to).take(i as int) =~= with_replaced(cs@, from, to));
    out
}

} // verus!

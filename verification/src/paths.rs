//! Unix paths, read by their components.
//!
//! A path is text. Repeated separators, a closing separator and `.` components
//! past the start carry no meaning. Two paths are compared by the components
//! that remain, and `..` is one of them. Where a path leads to is another
//! question: there every `..` takes back the name before it.
use vstd::prelude::*;

use crate::slicing::{first_index, group_texts, joined, lemma_first_index, texts};
use crate::text::{chars_of, same_text, text_between};

verus! {

broadcast use group_texts;

/// The path begins at the root.
pub open spec fn is_absolute(path: Seq<char>) -> bool {
    path.len() > 0 && path[0] == '/'
}

/// The names of `path` from position `from` on.
pub open spec fn names_from(path: Seq<char>, from: int) -> Seq<Seq<char>>
    decreases path.len() - from,
{
    if from < 0 || from >= path.len() {
        Seq::empty()
    } else {
        let end = first_index(path, '/', from);
        let name = path.subrange(from, end);
        let rest = if from <= end < path.len() {
            names_from(path, end + 1)
        } else {
            Seq::empty()
        };
        if name.len() == 0 || (from > 0 && name == seq!['.']) {
            rest
        } else {
            seq![name] + rest
        }
    }
}

/// The components of `path`: the root, where it begins there, and the names.
pub open spec fn components(path: Seq<char>) -> Seq<Seq<char>> {
    if is_absolute(path) {
        seq![seq!['/']] + names_from(path, 0)
    } else {
        names_from(path, 0)
    }
}

/// All components of `base` lead `path`.
pub open spec fn lies_under(path: Seq<char>, base: Seq<char>) -> bool {
    components(base).is_prefix_of(components(path))
}

/// The two paths have the same components.
pub open spec fn same_path(a: Seq<char>, b: Seq<char>) -> bool {
    components(a) == components(b)
}

/// `path` taken from `base`: itself where it is absolute, otherwise appended.
pub open spec fn path_under(base: Seq<char>, path: Seq<char>) -> Seq<char> {
    if is_absolute(path) {
        path
    } else if base.len() == 0 || base.last() == '/' {
        base + path
    } else {
        base + "/"@ + path
    }
}

pub fn path_is_absolute(path: &str) -> (r: bool)
    ensures
        r == is_absolute(path@),
{
    let cs = chars_of(path);
    cs.len() > 0 && cs[0] == '/'
}

/// The components of `path`.
pub fn components_of(path: &str) -> (r: Vec<String>)
    ensures
        texts(r@) == components(path@),
{
    let cs = chars_of(path);
    let mut out: Vec<String> = Vec::new();
    if cs.len() > 0 && cs[0] == '/' {
        let mut root = String::new();
        root.push('/');
        assert(root@ =~= seq!['/']);
        out.push(root);
    }
    let ghost head = texts(out@);
    assert(head + names_from(cs@, 0) =~= components(path@));
    let mut from: usize = 0;
    while from < cs.len()
        invariant
            cs@ == path@,
            from <= cs@.len() + 1,
            texts(out@) + names_from(cs@, from as int) == components(path@),
        decreases cs@.len() + 1 - from,
    {
        let mut end: usize = from;
        while end < cs.len() && cs[end] != '/'
            invariant
                from <= end <= cs@.len(),
                first_index(cs@, '/', from as int) == first_index(cs@, '/', end as int),
            decreases cs@.len() - end,
        {
            end += 1;
        }
        let ghost before = texts(out@);
        let is_dot = end - from == 1 && cs[from] == '.';
        assert(is_dot == (cs@.subrange(from as int, end as int) == seq!['.'])) by {
            let dot = seq!['.'];
            assert(dot.len() == 1 && dot[0] == '.');
            assert(cs@.subrange(from as int, end as int).len() == end - from);
            if is_dot {
                assert(cs@.subrange(from as int, end as int) =~= dot);
            } else if end - from == 1 {
                assert(cs@.subrange(from as int, end as int)[0] == cs@[from as int]);
            }
        }
        if end > from && !(from > 0 && is_dot) {
            let name = text_between(&cs, from, end);
            out.push(name);
            assert(texts(out@) + names_from(cs@, end + 1) =~= before + (seq![name@] + names_from(
                cs@,
                end + 1,
            )));
        }
        if end == cs.len() {
            assert(names_from(cs@, end + 1) =~= Seq::<Seq<char>>::empty());
            from = end;
        } else {
            from = end + 1;
        }
    }
    assert(texts(out@) + Seq::<Seq<char>>::empty() =~= texts(out@));
    out
}

fn leads(base: &Vec<String>, path: &Vec<String>) -> (r: bool)
    ensures
        r == texts(base@).is_prefix_of(texts(path@)),
{
    if base.len() > path.len() {
        return false;
    }
    let mut i: usize = 0;
    while i < base.len()
        invariant
            i <= base@.len() <= path@.len(),
            forall|j: int| 0 <= j < i ==> (#[trigger] base@[j])@ == path@[j]@,
        decreases base@.len() - i,
    {
        if !same_text(base[i].as_str(), path[i].as_str()) {
            assert(texts(base@)[i as int] != texts(path@).subrange(0, base@.len() as int)[i as int]);
            return false;
        }
        i += 1;
    }
    assert(texts(base@) =~= texts(path@).subrange(0, base@.len() as int));
    true
}

/// Whether `path` lies under `base`: only whole components match.
pub fn starts_with_path(path: &str, base: &str) -> (r: bool)
    ensures
        r == lies_under(path@, base@),
{
    leads(&components_of(base), &components_of(path))
}

/// Whether the two paths have the same components.
pub fn is_same_path(a: &str, b: &str) -> (r: bool)
    ensures
        r == same_path(a@, b@),
{
    let x = components_of(a);
    let y = components_of(b);
    if x.len() != y.len() {
        return false;
    }
    let r = leads(&x, &y);
    assert(texts(y@).subrange(0, y@.len() as int) =~= texts(y@));
    r
}

/// `path` taken from `base`.
pub fn join_path(base: &str, path: &str) -> (r: String)
    ensures
        r@ == path_under(base@, path@),
{
    if path_is_absolute(path) {
        return path.to_owned();
    }
    let cs = chars_of(base);
    let mut out = base.to_owned();
    if cs.len() > 0 && cs[cs.len() - 1] != '/' {
        out.push_str("/");
    }
    out.push_str(path);
    out
}

/// The components of `path` behind those of `base`, where `path` lies under it.
pub fn relative_components(path: &str, base: &str) -> (r: Option<Vec<String>>)
    ensures
        r is Some == lies_under(path@, base@),
        r is Some ==> texts(r->0@) == components(path@).skip(components(base@).len() as int),
{
    let b = components_of(base);
    let p = components_of(path);
    if !leads(&b, &p) {
        return None;
    }
    let mut out: Vec<String> = Vec::new();
    let mut i: usize = b.len();
    assert(texts(p@).subrange(b@.len() as int, i as int) =~= Seq::<Seq<char>>::empty());
    while i < p.len()
        invariant
            b@.len() <= i <= p@.len(),
            texts(out@) == texts(p@).subrange(b@.len() as int, i as int),
        decreases p@.len() - i,
    {
        out.push(p[i].clone());
        assert(texts(p@).subrange(b@.len() as int, i + 1) =~= texts(p@).subrange(
            b@.len() as int,
            i as int,
        ).push(p@[i as int]@));
        i += 1;
    }
    assert(texts(p@).subrange(b@.len() as int, i as int) =~= texts(p@).skip(b@.len() as int));
    Some(out)
}

proof fn lemma_first_index_of_extension(b: Seq<char>, t: Seq<char>, c: char, from: int)
    requires
        0 <= from <= b.len(),
        first_index(b, c, from) < b.len(),
    ensures
        first_index(b + t, c, from) == first_index(b, c, from),
    decreases b.len() - from,
{
    if from < b.len() && b[from] != c {
        lemma_first_index_of_extension(b, t, c, from + 1);
    }
    assert((b + t)[from] == b[from]);
}

proof fn lemma_first_index_reaches_end(b: Seq<char>, c: char, from: int)
    requires
        0 <= from < b.len(),
        b.last() == c,
    ensures
        first_index(b, c, from) < b.len(),
    decreases b.len() - from,
{
    if b[from] != c {
        lemma_first_index_reaches_end(b, c, from + 1);
    }
}

proof fn lemma_first_index_past_end(b: Seq<char>, c: char, from: int)
    requires
        0 <= from <= b.len(),
        first_index(b, c, from) >= b.len(),
    ensures
        first_index(b.push(c), c, from) == b.len(),
    decreases b.len() - from,
{
    if from < b.len() {
        lemma_first_index(b, c, from);
        assert(b.push(c)[from] == b[from]);
        lemma_first_index_past_end(b, c, from + 1);
    } else {
        assert(b.push(c)[from] == c);
    }
}

/// Text behind a separator adds components and changes none before it.
proof fn lemma_names_lead(b: Seq<char>, t: Seq<char>, from: int)
    requires
        0 <= from <= b.len(),
        b.len() == 0 || b.last() == '/',
    ensures
        names_from(b, from).is_prefix_of(names_from(b + t, from)),
    decreases b.len() - from,
{
    let s = b + t;
    if from < b.len() {
        lemma_first_index_reaches_end(b, '/', from);
        lemma_first_index(b, '/', from);
        lemma_first_index_of_extension(b, t, '/', from);
        let end = first_index(b, '/', from);
        assert(s.subrange(from, end) =~= b.subrange(from, end));
        lemma_names_lead(b, t, end + 1);
        let x = names_from(b, end + 1);
        let y = names_from(s, end + 1);
        assert(x =~= y.subrange(0, x.len() as int));
        let name = b.subrange(from, end);
        assert(seq![name] + x =~= (seq![name] + y).subrange(0, (x.len() + 1) as int));
    } else {
        assert(names_from(b, from) =~= names_from(s, from).subrange(0, 0));
    }
}

/// A closing separator changes no component.
proof fn lemma_names_closed(b: Seq<char>, from: int)
    requires
        0 <= from <= b.len(),
    ensures
        names_from(b.push('/'), from) == names_from(b, from),
    decreases b.len() - from,
{
    let s = b.push('/');
    assert(s =~= b + seq!['/']);
    let end = first_index(b, '/', from);
    lemma_first_index(b, '/', from);
    if end < b.len() {
        lemma_first_index_of_extension(b, seq!['/'], '/', from);
        assert(s.subrange(from, end) =~= b.subrange(from, end));
        lemma_names_closed(b, end + 1);
    } else {
        lemma_first_index_past_end(b, '/', from);
        assert(s.subrange(from, b.len() as int) =~= b.subrange(from, b.len() as int));
        assert(names_from(s, (b.len() + 1) as int) =~= Seq::<Seq<char>>::empty());
        if from < b.len() {
            let name = b.subrange(from, b.len() as int);
            assert(name[0] == b[from]);
        }
    }
}

/// A relative path taken from `base` lies under `base`.
pub proof fn law_relative_path_stays_under(base: Seq<char>, path: Seq<char>)
    requires
        !is_absolute(path),
    ensures
        lies_under(path_under(base, path), base),
{
    reveal_strlit("/");
    assert("/"@ =~= seq!['/']);
    let s = path_under(base, path);
    if base.len() == 0 {
        assert(components(base) =~= components(s).subrange(0, 0));
    } else {
        let b = if base.last() == '/' {
            base
        } else {
            base.push('/')
        };
        assert(s =~= b + path);
        lemma_names_lead(b, path, 0);
        if base.last() != '/' {
            lemma_names_closed(base, 0);
        }
        assert(s[0] == base[0]);
        let x = names_from(base, 0);
        let y = names_from(s, 0);
        assert(x =~= y.subrange(0, x.len() as int));
        assert(seq![seq!['/']] + x =~= (seq![seq!['/']] + y).subrange(0, (x.len() + 1) as int));
    }
}

/// A path that is not empty and not absolute has a name.
pub proof fn lemma_relative_has_names(path: Seq<char>)
    requires
        path.len() > 0,
        !is_absolute(path),
    ensures
        names_from(path, 0).len() > 0,
{
    let end = first_index(path, '/', 0);
    lemma_first_index(path, '/', 0);
    assert(path.subrange(0, end).len() > 0);
}

pub proof fn lemma_joined_begins(parts: Seq<Seq<char>>, sep: Seq<char>)
    requires
        parts.len() > 0,
        parts[0].len() > 0,
    ensures
        joined(parts, sep).len() > 0,
        joined(parts, sep)[0] == parts[0][0],
    decreases parts.len(),
{
    if parts.len() > 1 {
        lemma_joined_begins(parts.drop_last(), sep);
    }
}

/// Lying under a path is reflexive and transitive.
pub proof fn law_lies_under_is_a_preorder(a: Seq<char>, b: Seq<char>, c: Seq<char>)
    ensures
        lies_under(a, a),
        lies_under(a, b) && lies_under(b, c) ==> lies_under(a, c),
{
    assert(components(a) =~= components(a).subrange(0, components(a).len() as int));
    if lies_under(a, b) && lies_under(b, c) {
        let x = components(a);
        let y = components(b);
        let z = components(c);
        assert(z =~= x.subrange(0, z.len() as int)) by {
            assert forall|i: int| 0 <= i < z.len() implies z[i] == x[i] by {
                assert(z[i] == y.subrange(0, z.len() as int)[i]);
                assert(y[i] == x.subrange(0, y.len() as int)[i]);
            }
        }
    }
}

// ── putting a path together again ───────────────────────────────────────

/// A name that stands for itself wherever it stands in a path.
pub open spec fn is_clean(name: Seq<char>) -> bool {
    name.len() > 0 && (forall|i: int| 0 <= i < name.len() ==> name[i] != '/') && name != seq!['.']
}

/// All the names stand for themselves.
pub open spec fn all_clean(names: Seq<Seq<char>>) -> bool {
    forall|i: int| 0 <= i < names.len() ==> is_clean(#[trigger] names[i])
}

proof fn lemma_first_index_absent(s: Seq<char>, c: char, from: int)
    requires
        0 <= from <= s.len(),
        forall|i: int| from <= i < s.len() ==> s[i] != c,
    ensures
        first_index(s, c, from) == s.len(),
    decreases s.len() - from,
{
    if from < s.len() {
        lemma_first_index_absent(s, c, from + 1);
    }
}

/// A name behind a separator is one more component.
proof fn lemma_name_behind(b: Seq<char>, name: Seq<char>, from: int)
    requires
        0 <= from <= b.len(),
        b.len() == 0 || b.last() == '/',
        is_clean(name),
    ensures
        names_from(b + name, from) == names_from(b, from).push(name),
    decreases b.len() - from,
{
    let s = b + name;
    if from < b.len() {
        lemma_first_index_reaches_end(b, '/', from);
        lemma_first_index(b, '/', from);
        lemma_first_index_of_extension(b, name, '/', from);
        let end = first_index(b, '/', from);
        assert(s.subrange(from, end) =~= b.subrange(from, end));
        lemma_name_behind(b, name, end + 1);
        let part = b.subrange(from, end);
        let x = names_from(b, end + 1);
        assert(seq![part] + x.push(name) =~= (seq![part] + x).push(name));
    } else {
        assert forall|i: int| from <= i < s.len() implies s[i] != '/' by {
            assert(s[i] == name[i - from]);
        }
        lemma_first_index_absent(s, '/', from);
        assert(s.subrange(from, s.len() as int) =~= name);
        assert(names_from(b, from) =~= Seq::<Seq<char>>::empty());
        assert(names_from(s, from) =~= seq![name] + Seq::<Seq<char>>::empty());
        assert(seq![name] + Seq::<Seq<char>>::empty() =~= Seq::<Seq<char>>::empty().push(name));
    }
}

/// Joined names behind a separator are so many more components.
proof fn lemma_names_behind(b: Seq<char>, names: Seq<Seq<char>>, from: int)
    requires
        0 <= from <= b.len(),
        b.len() == 0 || b.last() == '/',
        all_clean(names),
    ensures
        names_from(b + joined(names, "/"@), from) == names_from(b, from) + names,
    decreases names.len(),
{
    reveal_strlit("/");
    assert("/"@ =~= seq!['/']);
    if names.len() == 0 {
        assert(b + joined(names, "/"@) =~= b);
        assert(names_from(b, from) + names =~= names_from(b, from));
    } else if names.len() == 1 {
        assert(is_clean(names[0]));
        assert(joined(names, "/"@) =~= names[0]);
        lemma_name_behind(b, names[0], from);
        assert(names_from(b, from).push(names[0]) =~= names_from(b, from) + names);
    } else {
        let front = names.drop_last();
        let last = names.last();
        assert(is_clean(names[names.len() - 1]));
        assert(all_clean(front)) by {
            assert forall|i: int| 0 <= i < front.len() implies is_clean(#[trigger] front[i]) by {
                assert(front[i] == names[i]);
            }
        }
        lemma_names_behind(b, front, from);
        let s = b + joined(front, "/"@);
        assert(b + joined(names, "/"@) =~= s.push('/') + last);
        lemma_names_closed(s, from);
        lemma_name_behind(s.push('/'), last, from);
        assert((names_from(b, from) + front).push(last) =~= names_from(b, from) + names);
    }
}

/// Joined names taken from `base` are its components and they.
pub proof fn lemma_components_of_joined(base: Seq<char>, names: Seq<Seq<char>>)
    requires
        all_clean(names),
    ensures
        components(path_under(base, joined(names, "/"@))) == components(base) + names,
{
    reveal_strlit("/");
    assert("/"@ =~= seq!['/']);
    let t = joined(names, "/"@);
    if names.len() > 0 {
        assert(is_clean(names[0]));
        lemma_joined_begins(names, "/"@);
    }
    assert(!is_absolute(t));
    let s = path_under(base, t);
    if base.len() == 0 {
        assert(s =~= t);
        assert(base + t =~= t);
        lemma_names_behind(base, names, 0);
        assert(names_from(base, 0) =~= Seq::<Seq<char>>::empty());
    } else {
        let b = if base.last() == '/' {
            base
        } else {
            base.push('/')
        };
        assert(s =~= b + t);
        lemma_names_behind(b, names, 0);
        if base.last() != '/' {
            lemma_names_closed(base, 0);
        }
        assert(s[0] == base[0]);
        assert(seq![seq!['/']] + (names_from(base, 0) + names) =~= seq![seq!['/']] + names_from(base, 0) + names);
    }
}

proof fn lemma_none_before_first(s: Seq<char>, c: char, from: int)
    requires
        0 <= from <= s.len(),
    ensures
        forall|i: int| from <= i < first_index(s, c, from) ==> s[i] != c,
    decreases s.len() - from,
{
    if from < s.len() && s[from] != c {
        lemma_none_before_first(s, c, from + 1);
    }
}

proof fn lemma_names_are_clean(path: Seq<char>, from: int)
    requires
        0 <= from,
    ensures
        forall|i: int|
            0 <= i < names_from(path, from).len() && (from > 0 || i > 0 || is_absolute(path)) ==> is_clean(
                #[trigger] names_from(path, from)[i],
            ),
    decreases path.len() - from,
{
    if from < path.len() {
        let end = first_index(path, '/', from);
        lemma_first_index(path, '/', from);
        let rest = if end < path.len() {
            names_from(path, end + 1)
        } else {
            Seq::empty()
        };
        if end < path.len() {
            lemma_names_are_clean(path, end + 1);
        }
        let name = path.subrange(from, end);
        lemma_none_before_first(path, '/', from);
        assert forall|i: int| 0 <= i < name.len() implies name[i] != '/' by {
            assert(name[i] == path[from + i]);
        }
        let all = names_from(path, from);
        assert forall|i: int| 0 <= i < all.len() && (from > 0 || i > 0 || is_absolute(path)) implies is_clean(
            #[trigger] all[i],
        ) by {
            if name.len() == 0 || (from > 0 && name == seq!['.']) {
                assert(all == rest);
                assert(is_clean(rest[i]));
            } else if i > 0 {
                assert(all[i] == rest[i - 1]);
                assert(is_clean(rest[i - 1]));
            } else {
                assert(all[0] == name);
            }
        }
    }
}

/// The components of a path behind the first stand for themselves.
pub proof fn lemma_later_components_are_clean(path: Seq<char>, n: int)
    requires
        0 < n <= components(path).len(),
    ensures
        all_clean(components(path).skip(n)),
{
    lemma_names_are_clean(path, 0);
    let rest = components(path).skip(n);
    assert forall|i: int| 0 <= i < rest.len() implies is_clean(#[trigger] rest[i]) by {
        assert(rest[i] == components(path)[n + i]);
        if is_absolute(path) {
            assert(components(path)[n + i] == names_from(path, 0)[n + i - 1]);
        } else {
            assert(components(path)[n + i] == names_from(path, 0)[n + i]);
        }
    }
}

// ── where a path leads ──────────────────────────────────────────────────

/// How many levels a component leads down: `..` leads up, `.` nowhere.
pub open spec fn level(component: Seq<char>) -> int {
    if component == ".."@ {
        -1
    } else if component == "."@ {
        0
    } else {
        1
    }
}

/// How many levels the components lead down together.
pub open spec fn depth(components: Seq<Seq<char>>) -> int
    decreases components.len(),
{
    if components.len() == 0 {
        0
    } else {
        depth(components.drop_last()) + level(components.last())
    }
}

/// On their way the components lead above where they begin.
pub open spec fn climbs(components: Seq<Seq<char>>) -> bool {
    exists|k: int| 0 <= k <= components.len() && depth(#[trigger] components.take(k)) < 0
}

/// The components lead away from where they begin: to the root, or above it.
pub open spec fn escapes(components: Seq<Seq<char>>) -> bool {
    (components.len() > 0 && components[0] == "/"@) || climbs(components)
}

/// The component is a name: neither the root, nor `..`, nor `.`.
pub open spec fn is_plain(component: Seq<char>) -> bool {
    component != "/"@ && component != ".."@ && component != "."@
}

/// The components with every `..` taken back together with the name before it.
/// Above the root there is nothing; in front of a relative path they stay.
pub open spec fn resolved(components: Seq<Seq<char>>) -> Seq<Seq<char>>
    decreases components.len(),
{
    if components.len() == 0 {
        Seq::empty()
    } else {
        let before = resolved(components.drop_last());
        let c = components.last();
        if c == "."@ {
            before
        } else if c != ".."@ {
            before.push(c)
        } else if before.len() == 0 || before.last() == ".."@ {
            before.push(c)
        } else if before.last() == "/"@ {
            before
        } else {
            before.drop_last()
        }
    }
}

/// Where `path` leads lies at or below where `base` leads.
pub open spec fn leads_under(path: Seq<char>, base: Seq<char>) -> bool {
    let b = resolved(components(base));
    let p = resolved(components(path));
    &&& b.is_prefix_of(p)
    &&& forall|i: int| b.len() <= i < p.len() ==> is_plain(#[trigger] p[i])
}

/// Whether the components lead away from where they begin.
pub fn is_escaping(parts: &Vec<String>) -> (r: bool)
    ensures
        r == escapes(texts(parts@)),
{
    let ghost all = texts(parts@);
    assert(all.len() == parts@.len());
    if parts.len() > 0 && same_text(parts[0].as_str(), "/") {
        return true;
    }
    let mut down: usize = 0;
    let mut i: usize = 0;
    assert(all.take(0) =~= Seq::<Seq<char>>::empty());
    while i < parts.len()
        invariant
            i <= parts@.len(),
            all == texts(parts@),
            all.len() == parts@.len(),
            all.len() > 0 ==> all[0] != "/"@,
            down <= i,
            down == depth(all.take(i as int)),
            forall|k: int| 0 <= k <= i ==> depth(#[trigger] all.take(k)) >= 0,
        decreases parts@.len() - i,
    {
        assert(all.take(i + 1).drop_last() =~= all.take(i as int));
        assert(all.take(i + 1).last() == parts@[i as int]@);
        if same_text(parts[i].as_str(), "..") {
            if down == 0 {
                assert(depth(all.take(i + 1)) < 0);
                return true;
            }
            down -= 1;
        } else if !same_text(parts[i].as_str(), ".") {
            down += 1;
        }
        i += 1;
    }
    false
}

/// Components that do not climb lead below those before them.
proof fn lemma_resolved_behind(base: Seq<Seq<char>>, rest: Seq<Seq<char>>, k: int)
    requires
        !climbs(rest),
        0 <= k <= rest.len(),
        forall|i: int| 0 <= i < rest.len() ==> #[trigger] rest[i] != "/"@,
    ensures
        ({
            let b = resolved(base);
            let p = resolved(base + rest.take(k));
            &&& p.len() == b.len() + depth(rest.take(k))
            &&& b.is_prefix_of(p)
            &&& forall|i: int| b.len() <= i < p.len() ==> is_plain(#[trigger] p[i])
        }),
    decreases k,
{
    let b = resolved(base);
    if k == 0 {
        assert(rest.take(0) =~= Seq::<Seq<char>>::empty());
        assert(base + rest.take(0) =~= base);
        assert(b =~= b.subrange(0, b.len() as int));
    } else {
        lemma_resolved_behind(base, rest, k - 1);
        let before = resolved(base + rest.take(k - 1));
        let c = rest[k - 1];
        assert((base + rest.take(k)).drop_last() =~= base + rest.take(k - 1));
        assert((base + rest.take(k)).last() == c);
        assert(rest.take(k).drop_last() =~= rest.take(k - 1));
        assert(rest.take(k).last() == c);
        assert(depth(rest.take(k)) >= 0);
        reveal_strlit("..");
        reveal_strlit(".");
        assert(".."@.len() == 2 && "."@.len() == 1);
        if c == ".."@ {
            assert(before.len() > b.len());
            assert(is_plain(before[before.len() - 1]));
        }
        let p = resolved(base + rest.take(k));
        assert(b =~= p.subrange(0, b.len() as int)) by {
            assert forall|i: int| 0 <= i < b.len() implies b[i] == p[i] by {
                assert(b[i] == before.subrange(0, b.len() as int)[i]);
            }
        }
    }
}

/// A `.` behind a separator is no component.
proof fn lemma_dot_behind(b: Seq<char>, from: int)
    requires
        0 <= from <= b.len(),
        b.len() > 0,
        b.last() == '/',
    ensures
        names_from(b.push('.'), from) == names_from(b, from),
    decreases b.len() - from,
{
    let s = b.push('.');
    assert(s =~= b + seq!['.']);
    if from < b.len() {
        lemma_first_index_reaches_end(b, '/', from);
        lemma_first_index(b, '/', from);
        lemma_first_index_of_extension(b, seq!['.'], '/', from);
        let end = first_index(b, '/', from);
        assert(s.subrange(from, end) =~= b.subrange(from, end));
        lemma_dot_behind(b, end + 1);
    } else {
        lemma_first_index_absent(s, '/', from);
        assert(s.subrange(from, s.len() as int) =~= seq!['.']);
        assert(names_from(b, from) =~= Seq::<Seq<char>>::empty());
    }
}

/// A `.` taken from `base` leads to `base`.
proof fn lemma_components_of_dot(base: Seq<char>)
    requires
        base.len() > 0,
    ensures
        components(path_under(base, "."@)) == components(base),
{
    reveal_strlit("/");
    reveal_strlit(".");
    assert("/"@ =~= seq!['/']);
    assert("."@ =~= seq!['.']);
    let b = if base.last() == '/' {
        base
    } else {
        base.push('/')
    };
    assert(path_under(base, "."@) =~= b.push('.'));
    lemma_dot_behind(b, 0);
    if base.last() != '/' {
        lemma_names_closed(base, 0);
    }
    assert(b.push('.')[0] == base[0]);
}

/// What the joined names add to `base`: themselves, or what follows a `.`.
proof fn lemma_components_of_dotted(base: Seq<char>, names: Seq<Seq<char>>)
    requires
        names.len() > 0,
        names[0] == "."@,
        all_clean(names.skip(1)),
        base.len() > 0,
    ensures
        components(path_under(base, joined(names, "/"@))) == components(base) + names.skip(1),
{
    reveal_strlit("/");
    reveal_strlit(".");
    assert("/"@ =~= seq!['/']);
    assert("."@ =~= seq!['.']);
    let rest = names.skip(1);
    lemma_components_of_dot(base);
    if rest.len() == 0 {
        assert(names =~= seq!["."@]);
        assert(joined(names, "/"@) =~= "."@);
        assert(components(base) + rest =~= components(base));
    } else {
        let dotted = path_under(base, "."@);
        lemma_joined_splits(names);
        lemma_joined_begins(names, "/"@);
        assert(is_clean(rest[0]));
        lemma_joined_begins(rest, "/"@);
        assert(dotted.last() == '.');
        assert(path_under(base, joined(names, "/"@)) =~= path_under(dotted, joined(rest, "/"@)));
        lemma_components_of_joined(dotted, rest);
    }
}

proof fn lemma_joined_splits(names: Seq<Seq<char>>)
    requires
        names.len() > 1,
    ensures
        joined(names, "/"@) == names[0] + "/"@ + joined(names.skip(1), "/"@),
    decreases names.len(),
{
    let rest = names.skip(1);
    if names.len() == 2 {
        assert(names.drop_last() =~= seq![names[0]]);
        assert(rest =~= seq![names[1]]);
        assert(joined(names.drop_last(), "/"@) =~= names[0]);
        assert(joined(rest, "/"@) =~= names[1]);
    } else {
        lemma_joined_splits(names.drop_last());
        assert(names.drop_last().skip(1) =~= rest.drop_last());
    }
    assert(joined(names, "/"@) =~= names[0] + "/"@ + joined(rest, "/"@));
}

/// Components of a path behind the first `n`, put behind another one.
pub open spec fn moved_under(base: Seq<char>, path: Seq<char>, n: int) -> Seq<char> {
    path_under(base, joined(components(path).skip(n), "/"@))
}

/// A part of a path that does not lead away, put behind another path, leads
/// below that path.
pub proof fn lemma_moved_leads_under(base: Seq<char>, path: Seq<char>, n: int)
    requires
        0 <= n <= components(path).len(),
        !escapes(components(path).skip(n)),
    ensures
        leads_under(moved_under(base, path, n), base),
{
    reveal_strlit("/");
    reveal_strlit(".");
    assert("/"@ =~= seq!['/']);
    assert("."@ =~= seq!['.']);
    let rest = components(path).skip(n);
    let there = moved_under(base, path, n);
    lemma_rest_is_clean(path, n);
    let later = rest.skip(1);
    if rest.len() > 0 && rest[0] == "."@ {
        if base.len() > 0 {
            lemma_components_of_dotted(base, rest);
        } else {
            lemma_dotted_stands_alone(rest);
            assert(there =~= joined(rest, "/"@));
        }
        assert forall|k: int| 0 <= k <= later.len() implies depth(#[trigger] later.take(k)) >= 0 by {
            lemma_depth_behind_dot(rest, k);
            assert(depth(rest.take(k + 1)) >= 0);
        }
        assert forall|i: int| 0 <= i < later.len() implies #[trigger] later[i] != "/"@ by {
            assert(is_clean(later[i]));
            assert(later[i][0] != "/"@[0]);
        }
        assert(later.take(later.len() as int) =~= later);
        if base.len() > 0 {
            lemma_resolved_behind(components(base), later, later.len() as int);
        } else {
            let dot = seq!["."@];
            assert(dot.drop_last() =~= Seq::<Seq<char>>::empty());
            assert(dot.last() == "."@);
            assert(resolved(dot) == resolved(dot.drop_last()));
            lemma_resolved_behind(dot, later, later.len() as int);
            assert(dot + later =~= rest);
            assert(components(base) =~= Seq::<Seq<char>>::empty());
        }
    } else {
        assert(all_clean(rest)) by {
            assert forall|i: int| 0 <= i < rest.len() implies is_clean(#[trigger] rest[i]) by {
                if i > 0 {
                    assert(is_clean(later[i - 1]));
                }
            }
        }
        lemma_components_of_joined(base, rest);
        assert forall|i: int| 0 <= i < rest.len() implies #[trigger] rest[i] != "/"@ by {
            assert(is_clean(rest[i]));
            assert(rest[i][0] != "/"@[0]);
        }
        assert(rest.take(rest.len() as int) =~= rest);
        lemma_resolved_behind(components(base), rest, rest.len() as int);
    }
}

/// A path that lies under another one and does not climb out of it leads below
/// it.
pub proof fn lemma_stays_leads_under(path: Seq<char>, base: Seq<char>)
    requires
        lies_under(path, base),
        !escapes(components(path).skip(components(base).len() as int)),
    ensures
        leads_under(path, base),
{
    reveal_strlit("/");
    assert("/"@ =~= seq!['/']);
    let n = components(base).len() as int;
    let rest = components(path).skip(n);
    lemma_rest_is_clean(path, n);
    assert forall|i: int| 0 <= i < rest.len() implies #[trigger] rest[i] != "/"@ by {
        if i > 0 {
            assert(is_clean(rest.skip(1)[i - 1]));
            assert(rest[i][0] != "/"@[0]);
        }
    }
    assert(components(base) =~= components(path).subrange(0, n));
    assert(components(base) + rest =~= components(path));
    assert(rest.take(rest.len() as int) =~= rest);
    lemma_resolved_behind(components(base), rest, rest.len() as int);
}

proof fn lemma_depth_behind_dot(names: Seq<Seq<char>>, k: int)
    requires
        names.len() > 0,
        names[0] == "."@,
        0 <= k < names.len(),
    ensures
        depth(names.skip(1).take(k)) == depth(names.take(k + 1)),
    decreases k,
{
    reveal_strlit("..");
    reveal_strlit(".");
    assert(".."@.len() == 2 && "."@.len() == 1);
    let later = names.skip(1);
    if k == 0 {
        assert(later.take(0) =~= Seq::<Seq<char>>::empty());
        assert(names.take(1).drop_last() =~= Seq::<Seq<char>>::empty());
        assert(depth(names.take(1)) == depth(names.take(1).drop_last()) + level(names.take(1).last()));
    } else {
        lemma_depth_behind_dot(names, k - 1);
        assert(later.take(k).drop_last() =~= later.take(k - 1));
        assert(names.take(k + 1).drop_last() =~= names.take(k));
        assert(later.take(k).last() == names.take(k + 1).last());
    }
}

/// Names that begin with a `.` are the components of the path that they make.
proof fn lemma_dotted_stands_alone(names: Seq<Seq<char>>)
    requires
        names.len() > 0,
        names[0] == "."@,
        all_clean(names.skip(1)),
    ensures
        components(joined(names, "/"@)) == names,
{
    reveal_strlit("/");
    reveal_strlit(".");
    assert("/"@ =~= seq!['/']);
    assert("."@ =~= seq!['.']);
    let dot = "."@;
    assert(components(dot) =~= seq![dot]) by {
        lemma_first_index_absent(dot, '/', 0);
        assert(dot.subrange(0, 1) =~= dot);
        assert(names_from(dot, 0) =~= seq![dot] + Seq::<Seq<char>>::empty());
    }
    let rest = names.skip(1);
    assert(seq![dot] + rest =~= names);
    if rest.len() == 0 {
        assert(names =~= seq![dot]);
        assert(joined(names, "/"@) =~= dot);
    } else {
        lemma_joined_splits(names);
        assert(is_clean(rest[0]));
        lemma_joined_begins(rest, "/"@);
        assert(joined(names, "/"@) =~= path_under(dot, joined(rest, "/"@)));
        lemma_components_of_joined(dot, rest);
    }
}

/// Behind the root and a leading `.` all components stand for themselves.
pub proof fn lemma_rest_is_clean(path: Seq<char>, n: int)
    requires
        0 <= n <= components(path).len(),
        components(path).skip(n).len() > 0 ==> components(path).skip(n)[0] != "/"@,
    ensures
        components(path).skip(n).len() > 0 ==> {
            &&& all_clean(components(path).skip(n).skip(1))
            &&& is_clean(components(path).skip(n)[0]) || components(path).skip(n)[0] == "."@
        },
{
    reveal_strlit("/");
    reveal_strlit(".");
    assert("/"@ =~= seq!['/']);
    assert("."@ =~= seq!['.']);
    let rest = components(path).skip(n);
    if rest.len() > 0 {
        lemma_later_components_are_clean(path, n + 1);
        assert(rest.skip(1) =~= components(path).skip(n + 1));
        if n > 0 {
            lemma_later_components_are_clean(path, n);
            assert(is_clean(rest[0]));
        } else {
            assert(!is_absolute(path));
            lemma_first_name(path);
        }
    }
}

proof fn lemma_first_name(path: Seq<char>)
    requires
        !is_absolute(path),
        names_from(path, 0).len() > 0,
    ensures
        is_clean(names_from(path, 0)[0]) || names_from(path, 0)[0] == seq!['.'],
{
    let end = first_index(path, '/', 0);
    lemma_first_index(path, '/', 0);
    let name = path.subrange(0, end);
    lemma_none_before_first(path, '/', 0);
    assert(name.len() > 0);
    assert(names_from(path, 0)[0] == name);
    assert forall|i: int| 0 <= i < name.len() implies name[i] != '/' by {
        assert(name[i] == path[i]);
    }
}

} // verus!

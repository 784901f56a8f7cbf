//! The terminal's title and the branch that is checked out.
use vstd::prelude::*;

use crate::paths::{components, components_of};
use crate::slicing::{after_prefix, group_texts, has_prefix, has_suffix, has_text, opt_text, strip_prefix, texts, trim, trimmed};
use crate::text::{cat3, decimal, push_decimal, same_text};

verus! {

broadcast use group_texts;

/// The branch that a `HEAD` file names.
pub open spec fn branch_of(head: Seq<char>) -> Seq<char> {
    match after_prefix(trimmed(head), "ref: refs/heads/"@) {
        Some(branch) => branch,
        None => "(detached)"@,
    }
}

/// The branch that a `HEAD` file names. Nothing where the file cannot be read.
pub fn branch_from_head(content: Option<&str>) -> (r: Option<String>)
    ensures
        opt_text(r) == (match content {
            Some(c) => Some(branch_of(c@)),
            None => None,
        }),
{
    match content {
        None => None,
        Some(c) => match strip_prefix(trim(c).as_str(), "ref: refs/heads/") {
            Some(branch) => Some(branch),
            None => Some("(detached)".to_owned()),
        },
    }
}

/// The last name of a path, or the path itself where it ends in none.
pub open spec fn directory_label(path: Seq<char>) -> Seq<char> {
    let names = components(path);
    if names.len() == 0 || names.last() == "/"@ || names.last() == ".."@ || names.last() == "."@ {
        path
    } else {
        names.last()
    }
}

fn directory_name(path: &str) -> (r: String)
    ensures
        r@ == directory_label(path@),
{
    let names = components_of(path);
    let n: usize = names.len();
    if n == 0 {
        return path.to_owned();
    }
    assert(texts(names@).last() == names@.last()@);
    let last = names[n - 1].as_str();
    if same_text(last, "/") || same_text(last, "..") || same_text(last, ".") {
        path.to_owned()
    } else {
        last.to_owned()
    }
}

/// What the terminal's title depends on.
#[derive(Debug)]
pub struct TitleState {
    pub cwd: String,
    pub model: String,
    pub total_lines: usize,
    pub scroll_offset: usize,
    pub viewport_height: usize,
    pub follow_bottom: bool,
    pub is_streaming: bool,
}

/// Lines below the ones on the screen.
pub open spec fn lines_below(s: TitleState) -> nat {
    let shown = s.scroll_offset + s.viewport_height;
    if s.total_lines >= shown {
        (s.total_lines - shown) as nat
    } else {
        0
    }
}

/// What stands in front of the title: lines that were not seen, or a mark while
/// an answer comes in.
pub open spec fn title_prefix(s: TitleState) -> Seq<char> {
    if !s.follow_bottom && lines_below(s) > 0 {
        "("@ + decimal(lines_below(s)) + " new) "@
    } else if s.is_streaming {
        "● "@
    } else {
        ""@
    }
}

/// The title.
pub open spec fn title_words(s: TitleState) -> Seq<char> {
    title_prefix(s) + "jfc · "@ + s.model@ + " · "@ + directory_label(s.cwd@)
}

/// The title of the terminal.
pub fn terminal_title(s: &TitleState) -> (r: String)
    ensures
        r@ == title_words(*s),
{
    let shown: u128 = s.scroll_offset as u128 + s.viewport_height as u128;
    let total: u128 = s.total_lines as u128;
    let below: u128 = if total >= shown {
        total - shown
    } else {
        0
    };
    let prefix = if !s.follow_bottom && below > 0 {
        let mut number = String::new();
        push_decimal(&mut number, below);
        assert(number@ =~= decimal(lines_below(*s)));
        cat3("(", number.as_str(), " new) ")
    } else if s.is_streaming {
        "● ".to_owned()
    } else {
        "".to_owned()
    };
    crate::text::cat5(prefix.as_str(), "jfc · ", s.model.as_str(), " · ", directory_name(s.cwd.as_str()).as_str())
}

/// The title to set: none where the terminal has it already.
pub fn title_update(last: &mut String, s: &TitleState) -> (r: Option<String>)
    ensures
        final(last)@ == title_words(*s),
        opt_text(r) == (if old(last)@ == title_words(*s) {
            None
        } else {
            Some(title_words(*s))
        }),
{
    let title = terminal_title(s);
    if same_text(last.as_str(), title.as_str()) {
        return None;
    }
    *last = title.clone();
    Some(title)
}

/// The branch is what the head refers to; a head that refers to none is detached.
pub proof fn law_head_names_the_branch(branch: Seq<char>)
    requires
        branch.len() > 0,
        !crate::text::is_space(branch.last()),
    ensures
        branch_of("ref: refs/heads/"@ + branch) == branch,
        branch_of("ref: refs/heads/"@ + branch + seq!['\n']) == branch,
{
    reveal_strlit("ref: refs/heads/");
    let s = "ref: refs/heads/"@ + branch;
    assert(s[0] == 'r');
    assert(s.last() == branch.last());
    assert(crate::slicing::trimmed_start(s) == s);
    assert(trimmed(s) == s);
    assert(s.subrange(0, 16) =~= "ref: refs/heads/"@);
    assert(s.skip(16) =~= branch);
    let t = s + seq!['\n'];
    assert(crate::slicing::trimmed_start(t) == t);
    assert(t.last() == '\n');
    assert(t.drop_last() =~= s);
    assert(crate::text::is_space('\n'));
    assert(crate::slicing::trimmed_end(t) == crate::slicing::trimmed_end(s));
    assert(trimmed(t) == s);
}

/// The title names the model and the directory, and how many lines have come in below
/// while the user reads further up.
pub proof fn law_title_tells_what_is_new(s: TitleState)
    ensures
        has_text(title_words(s), s.model@),
        has_suffix(title_words(s), directory_label(s.cwd@)),
        !s.follow_bottom && lines_below(s) > 0 ==> has_text(title_words(s), "("@ + decimal(lines_below(s)) + " new) "@),
        s.scroll_offset + s.viewport_height <= s.total_lines ==> lines_below(s) == s.total_lines - s.scroll_offset
            - s.viewport_height,
        s.follow_bottom && s.is_streaming ==> has_prefix(title_words(s), "● "@),
{
    let p = title_prefix(s);
    let d = directory_label(s.cwd@);
    let a = p + "jfc · "@;
    let b = a + s.model@;
    let c = b + " · "@;
    let all = title_words(s);
    crate::showing::lemma_has_in_sum(a, s.model@, s.model@);
    crate::showing::lemma_has_in_sum(b, " · "@, s.model@);
    crate::showing::lemma_has_in_sum(c, d, s.model@);
    assert(all.subrange(all.len() - d.len(), all.len() as int) =~= d);
    crate::showing::lemma_has_itself(p);
    crate::showing::lemma_has_in_sum(p, "jfc · "@, p);
    crate::showing::lemma_has_in_sum(a, s.model@, p);
    crate::showing::lemma_has_in_sum(b, " · "@, p);
    crate::showing::lemma_has_in_sum(c, d, p);
    assert(all.subrange(0, p.len() as int) =~= p);
}

} // verus!

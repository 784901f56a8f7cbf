//! Sandbox policies in the manner of the Landlock security module.
use vstd::prelude::*;

use crate::numbers::{number_in, parse_number};
use crate::paths::{lies_under, starts_with_path};
use crate::slicing::{group_texts, pieces, split_char, texts, trim, trimmed};
use crate::text::decimal;

verus! {

broadcast use group_texts;

/// A sandbox policy: allowed paths and restrictions.
#[derive(Debug, Clone)]
pub struct SandboxPolicy {
    /// Paths with read and write access.
    pub writable_paths: Vec<String>,
    /// Paths with read access.
    pub readable_paths: Vec<String>,
    /// Whether network access is blocked.
    pub block_network: bool,
    /// Executables allowed for build tools.
    pub exec_allowlist: Vec<String>,
}

/// Result of applying a sandbox policy.
#[derive(Debug, Clone, PartialEq, Eq)]
pub enum SandboxResult {
    /// Policy applied.
    Applied,
    /// The kernel has no Landlock; the command runs unsandboxed.
    Unsupported,
    /// Policy application failed.
    Failed(String),
}

/// What a command that can be sandboxed offers.
pub trait CommandSandboxExt {
    /// Apply a sandbox policy to this command.
    fn sandbox(&mut self, policy: &SandboxPolicy) -> SandboxResult;
}

/// Some path of `allowed` covers `path`.
pub open spec fn covered(allowed: Seq<Seq<char>>, path: Seq<char>) -> bool {
    exists|i: int| 0 <= i < allowed.len() && lies_under(path, #[trigger] allowed[i])
}

fn is_covered(allowed: &Vec<String>, path: &str) -> (r: bool)
    ensures
        r == covered(texts(allowed@), path@),
{
    let mut i: usize = 0;
    while i < allowed.len()
        invariant
            i <= allowed@.len(),
            forall|j: int| 0 <= j < i ==> !lies_under(path@, #[trigger] texts(allowed@)[j]),
        decreases allowed@.len() - i,
    {
        assert(texts(allowed@)[i as int] == allowed@[i as int]@);
        if starts_with_path(path, allowed[i].as_str()) {
            return true;
        }
        i += 1;
    }
    false
}

impl SandboxPolicy {
    /// The policy permits access to `path`: writing under a writable path,
    /// reading under any listed path.
    pub open spec fn permits(self, path: Seq<char>, write: bool) -> bool {
        covered(texts(self.writable_paths@), path) || (!write && covered(
            texts(self.readable_paths@),
            path,
        ))
    }

    pub fn new() -> (r: Self)
        ensures
            r.writable_paths@.len() == 0,
            r.readable_paths@.len() == 0,
            !r.block_network,
            r.exec_allowlist@.len() == 0,
    {
        SandboxPolicy {
            writable_paths: Vec::new(),
            readable_paths: Vec::new(),
            block_network: false,
            exec_allowlist: Vec::new(),
        }
    }

    pub fn allow_write(self, path: &str) -> (r: Self)
        ensures
            texts(r.writable_paths@) == texts(self.writable_paths@).push(path@),
            r.readable_paths == self.readable_paths,
            r.block_network == self.block_network,
            r.exec_allowlist == self.exec_allowlist,
    {
        let mut policy = self;
        policy.writable_paths.push(path.to_owned());
        policy
    }

    pub fn allow_read(self, path: &str) -> (r: Self)
        ensures
            r.writable_paths == self.writable_paths,
            texts(r.readable_paths@) == texts(self.readable_paths@).push(path@),
            r.block_network == self.block_network,
            r.exec_allowlist == self.exec_allowlist,
    {
        let mut policy = self;
        policy.readable_paths.push(path.to_owned());
        policy
    }

    pub fn block_network(self) -> (r: Self)
        ensures
            r.writable_paths == self.writable_paths,
            r.readable_paths == self.readable_paths,
            r.block_network,
            r.exec_allowlist == self.exec_allowlist,
    {
        let mut policy = self;
        policy.block_network = true;
        policy
    }

    pub fn allow_exec(self, path: &str) -> (r: Self)
        ensures
            r.writable_paths == self.writable_paths,
            r.readable_paths == self.readable_paths,
            r.block_network == self.block_network,
            texts(r.exec_allowlist@) == texts(self.exec_allowlist@).push(path@),
    {
        let mut policy = self;
        policy.exec_allowlist.push(path.to_owned());
        policy
    }

    /// Whether a path would be allowed under this policy.
    pub fn is_path_allowed(&self, path: &str, write: bool) -> (r: bool)
        ensures
            r == self.permits(path@, write),
    {
        if write {
            is_covered(&self.writable_paths, path)
        } else {
            is_covered(&self.writable_paths, path) || is_covered(&self.readable_paths, path)
        }
    }

    /// Whether network access is blocked.
    pub fn is_network_blocked(&self) -> (r: bool)
        ensures
            r == self.block_network,
    {
        self.block_network
    }

    /// The outcome of applying the policy on a kernel with the given release
    /// text. Enforcement is left to the kernel; without support the command
    /// runs unsandboxed.
    pub fn outcome_on(&self, osrelease: Option<&str>) -> (r: SandboxResult)
        ensures
            match osrelease {
                Some(text) => r == (if release_has_landlock(text@) {
                    SandboxResult::Applied
                } else {
                    SandboxResult::Unsupported
                }),
                None => r == SandboxResult::Unsupported,
            },
    {
        let supported = match osrelease {
            Some(text) => is_landlock_release(text),
            None => false,
        };
        if supported {
            SandboxResult::Applied
        } else {
            SandboxResult::Unsupported
        }
    }

    /// A policy for economy solver agents.
    pub fn economy_solver(worktree_path: &str) -> (r: Self)
        ensures
            texts(r.writable_paths@) == seq![worktree_path@],
            texts(r.readable_paths@) == seq!["/usr"@, "/lib"@, "/etc/alternatives"@],
            texts(r.exec_allowlist@) == seq!["/usr/bin"@, "/usr/local/bin"@],
            r.block_network,
    {
        let r = Self::new().allow_write(worktree_path).allow_read("/usr").allow_read("/lib").allow_read(
            "/etc/alternatives",
        ).allow_exec("/usr/bin").allow_exec("/usr/local/bin").block_network();
        assert(texts(r.writable_paths@) =~= seq![worktree_path@]);
        assert(texts(r.readable_paths@) =~= seq!["/usr"@, "/lib"@, "/etc/alternatives"@]);
        assert(texts(r.exec_allowlist@) =~= seq!["/usr/bin"@, "/usr/local/bin"@]);
        r
    }
}

impl Default for SandboxPolicy {
    fn default() -> (r: Self)
        ensures
            r.writable_paths@.len() == 0,
            r.readable_paths@.len() == 0,
            !r.block_network,
            r.exec_allowlist@.len() == 0,
    {
        Self::new()
    }
}

/// A kernel release text names version 5.13 or later, the first with Landlock.
pub open spec fn release_has_landlock(osrelease: Seq<char>) -> bool {
    let parts = pieces(trimmed(osrelease), '.', 0);
    if parts.len() < 2 {
        false
    } else {
        match (number_in(parts[0], u32::MAX as nat), number_in(parts[1], u32::MAX as nat)) {
            (Some(major), Some(minor)) => major > 5 || (major == 5 && minor >= 13),
            _ => false,
        }
    }
}

/// Whether a kernel release text names a version with Landlock.
pub fn is_landlock_release(osrelease: &str) -> (r: bool)
    ensures
        r == release_has_landlock(osrelease@),
{
    let parts = split_char(trim(osrelease).as_str(), '.');
    if parts.len() < 2 {
        return false;
    }
    assert(texts(parts@)[0] == parts@[0]@);
    assert(texts(parts@)[1] == parts@[1]@);
    match (
        parse_number(parts[0].as_str(), u32::MAX as u64),
        parse_number(parts[1].as_str(), u32::MAX as u64),
    ) {
        (Some(major), Some(minor)) => major > 5 || (major == 5 && minor >= 13),
        _ => false,
    }
}

/// What may be written may be read.
pub proof fn law_writable_is_readable(policy: SandboxPolicy, path: Seq<char>)
    requires
        policy.permits(path, true),
    ensures
        policy.permits(path, false),
{
}

/// Another allowed path never takes access away.
pub proof fn law_allowing_never_revokes(allowed: Seq<Seq<char>>, extra: Seq<char>, path: Seq<char>)
    requires
        covered(allowed, path),
    ensures
        covered(allowed.push(extra), path),
{
    let i = choose|i: int| 0 <= i < allowed.len() && lies_under(path, #[trigger] allowed[i]);
    assert(allowed.push(extra)[i] == allowed[i]);
}

/// What lies under a permitted path is permitted.
pub proof fn law_permission_reaches_below(
    policy: SandboxPolicy,
    path: Seq<char>,
    below: Seq<char>,
    write: bool,
)
    requires
        policy.permits(path, write),
        lies_under(below, path),
    ensures
        policy.permits(below, write),
{
    let w = texts(policy.writable_paths@);
    let d = texts(policy.readable_paths@);
    if covered(w, path) {
        let i = choose|i: int| 0 <= i < w.len() && lies_under(path, #[trigger] w[i]);
        crate::paths::law_lies_under_is_a_preorder(below, path, w[i]);
    } else {
        let i = choose|i: int| 0 <= i < d.len() && lies_under(path, #[trigger] d[i]);
        crate::paths::law_lies_under_is_a_preorder(below, path, d[i]);
    }
}

proof fn lemma_piece(s: Seq<char>, c: char, from: int, piece: Seq<char>)
    requires
        0 <= from,
        from + piece.len() < s.len(),
        s.subrange(from, from + piece.len()) == piece,
        !piece.contains(c),
        s[from + piece.len()] == c,
    ensures
        pieces(s, c, from) == seq![piece] + pieces(s, c, from + piece.len() + 1),
{
    lemma_first_at(s, c, from, from + piece.len());
}

proof fn lemma_first_at(s: Seq<char>, c: char, from: int, at: int)
    requires
        0 <= from <= at < s.len(),
        s[at] == c,
        !s.subrange(from, at).contains(c),
    ensures
        crate::slicing::first_index(s, c, from) == at,
    decreases at - from,
{
    if from < at {
        let whole = s.subrange(from, at);
        let rest = s.subrange(from + 1, at);
        assert(whole[0] == s[from]);
        assert(whole.contains(s[from]));
        if rest.contains(c) {
            let i = choose|i: int| 0 <= i < rest.len() && rest[i] == c;
            assert(whole[i + 1] == c);
        }
        lemma_first_at(s, c, from + 1, at);
    }
}

/// A kernel can restrict a process from version 5.13 on, whatever follows the two
/// numbers.
pub proof fn law_kernels_can_restrict_since_five_thirteen(major: nat, minor: nat, rest: Seq<char>)
    requires
        major <= u32::MAX,
        minor <= u32::MAX,
        rest.len() > 0,
        !crate::text::is_space(rest.last()),
    ensures
        release_has_landlock(decimal(major) + seq!['.'] + decimal(minor) + seq!['.'] + rest) <==> major > 5 || (major == 5
            && minor >= 13),
{
    let a = decimal(major);
    let b = decimal(minor);
    let s = a + seq!['.'] + b + seq!['.'] + rest;
    crate::showing::lemma_decimal_is_digits(major);
    crate::showing::lemma_decimal_is_digits(minor);
    crate::numbers::law_written_numbers_are_read_back(major, u32::MAX as nat);
    crate::numbers::law_written_numbers_are_read_back(minor, u32::MAX as nat);
    assert(s[0] == a[0]);
    assert(s.last() == rest.last());
    lemma_bare_is_trimmed(s);
    assert(!a.contains('.')) by {
        if a.contains('.') {
            let i = choose|i: int| 0 <= i < a.len() && a[i] == '.';
            assert('0' <= a[i] <= '9');
        }
    }
    assert(!b.contains('.')) by {
        if b.contains('.') {
            let i = choose|i: int| 0 <= i < b.len() && b[i] == '.';
            assert('0' <= b[i] <= '9');
        }
    }
    assert(s.subrange(0, a.len() as int) =~= a);
    lemma_piece(s, '.', 0, a);
    let from: int = a.len() as int + 1;
    assert(s.subrange(from, from + b.len()) =~= b);
    lemma_piece(s, '.', from, b);
    let parts = pieces(s, '.', 0);
    assert(parts[0] == a);
    assert(parts[1] == b);
}

proof fn lemma_bare_is_trimmed(s: Seq<char>)
    requires
        s.len() > 0,
        !crate::text::is_space(s[0]),
        !crate::text::is_space(s.last()),
    ensures
        trimmed(s) == s,
{
}

/// A policy that allows writing to a place allows that, below it too, and nothing else
/// that was not allowed before.
pub proof fn law_allowing_adds_one_place(p: SandboxPolicy, path: &str, r: SandboxPolicy, file: Seq<char>, write: bool)
    requires
        call_ensures(SandboxPolicy::allow_write, (p, path), r),
    ensures
        r.permits(file, write) <==> p.permits(file, write) || lies_under(file, path@),
        r.block_network == p.block_network,
{
    lemma_covered_push(texts(p.writable_paths@), path@, file);
}

/// A policy that allows reading allows no writing by it.
pub proof fn law_readers_do_not_write(p: SandboxPolicy, path: &str, r: SandboxPolicy, file: Seq<char>)
    requires
        call_ensures(SandboxPolicy::allow_read, (p, path), r),
    ensures
        r.permits(file, true) <==> p.permits(file, true),
        r.permits(file, false) <==> p.permits(file, false) || lies_under(file, path@),
        r.block_network == p.block_network,
{
    lemma_covered_push(texts(p.readable_paths@), path@, file);
}

proof fn lemma_covered_push(allowed: Seq<Seq<char>>, path: Seq<char>, file: Seq<char>)
    ensures
        covered(allowed.push(path), file) <==> covered(allowed, file) || lies_under(file, path),
{
    let more = allowed.push(path);
    if covered(allowed, file) {
        let i = choose|i: int| 0 <= i < allowed.len() && lies_under(file, #[trigger] allowed[i]);
        assert(more[i] == allowed[i]);
    }
    if lies_under(file, path) {
        assert(more[allowed.len() as int] == path);
    }
    if covered(more, file) {
        let i = choose|i: int| 0 <= i < more.len() && lies_under(file, #[trigger] more[i]);
        if i < allowed.len() {
            assert(allowed[i] == more[i]);
        }
    }
}

/// A solver writes in its own tree and nowhere else, reads that and what the system
/// provides, and has no network.
pub proof fn law_solvers_stay_in_their_tree(worktree: &str, r: SandboxPolicy, file: Seq<char>)
    requires
        call_ensures(SandboxPolicy::economy_solver, (worktree,), r),
    ensures
        r.permits(file, true) <==> lies_under(file, worktree@),
        lies_under(file, "/usr"@) ==> r.permits(file, false),
        lies_under(file, "/lib"@) ==> r.permits(file, false),
        r.block_network,
{
    let w = texts(r.writable_paths@);
    let d = texts(r.readable_paths@);
    assert(w[0] == worktree@);
    assert(d[0] == "/usr"@ && d[1] == "/lib"@);
    if covered(w, file) {
        let i = choose|i: int| 0 <= i < w.len() && lies_under(file, #[trigger] w[i]);
        assert(i == 0);
    }
}

} // verus!

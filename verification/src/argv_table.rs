//! The host argv table: the deny rules this crate ships, first match wins.

use vstd::prelude::*;

use crate::policy::{Checked, Decision, PolicyReason};
use crate::text::{
    base_name, base_of, chars_have_infix, chars_of, chars_start_with, has_infix, join_with_spaces,
    join_words, lemma_char_vec_deep_view, resolve_path, resolved_segments, same_chars,
    segments_view, starts_with,
};

verus! {

broadcast use lemma_char_vec_deep_view;

/// Programs that run a command as another user.
pub open spec fn is_privilege_name(b: Seq<char>) -> bool {
    b == "sudo"@ || b == "doas"@ || b == "su"@ || b == "pkexec"@ || b == "run0"@
}

/// Programs that fetch from the network.
pub open spec fn is_fetcher_name(b: Seq<char>) -> bool {
    b == "curl"@ || b == "wget"@ || b == "fetch"@
}

/// Shells.
pub open spec fn is_shell_name(b: Seq<char>) -> bool {
    b == "sh"@ || b == "bash"@ || b == "zsh"@ || b == "dash"@
}

/// Some token of `ts` names a privilege runner (by its last path segment).
pub open spec fn names_privilege(ts: Seq<Seq<char>>) -> bool {
    exists|i: int| 0 <= i < ts.len() && #[trigger] is_privilege_name(base_name(ts[i]))
}

/// Some token of `ts` names a fetcher.
pub open spec fn names_fetcher(ts: Seq<Seq<char>>) -> bool {
    exists|i: int| 0 <= i < ts.len() && #[trigger] is_fetcher_name(base_name(ts[i]))
}

/// Some token of `ts` names a shell.
pub open spec fn names_shell(ts: Seq<Seq<char>>) -> bool {
    exists|i: int| 0 <= i < ts.len() && #[trigger] is_shell_name(base_name(ts[i]))
}

/// The line pipes into `sh` or `bash`.
pub open spec fn pipes_to_shell(line: Seq<char>) -> bool {
    has_infix(line, "| sh"@) || has_infix(line, "|sh"@) || has_infix(line, "| bash"@)
        || has_infix(line, "|bash"@)
}

/// The line mentions a fetcher anywhere.
pub open spec fn mentions_fetcher(line: Seq<char>) -> bool {
    has_infix(line, "curl"@) || has_infix(line, "wget"@) || has_infix(line, "fetch"@)
}

/// Remote code execution: a fetch piped into a shell, or a fetcher and a shell
/// both named as programs in the argv.
pub open spec fn is_remote_exec(ts: Seq<Seq<char>>) -> bool {
    let line = join_words(ts);
    (mentions_fetcher(line) && pipes_to_shell(line)) || (names_fetcher(ts) && names_shell(ts))
}

/// Every character of `a` is an ASCII digit.
pub open spec fn all_ascii_digits(a: Seq<char>) -> bool {
    forall|k: int| 0 <= k < a.len() ==> '0' <= #[trigger] a[k] <= '9'
}

/// A mode argument that sets the setuid bit: symbolic `+s`, or an octal mode of
/// at least three digits that starts with `4`. (Its characters being ASCII
/// digits, its character count is its byte count.)
pub open spec fn is_setuid_mode(a: Seq<char>) -> bool {
    has_infix(a, "+s"@) || (starts_with(a, "4"@) && a.len() >= 3 && all_ascii_digits(a))
}

/// `chmod` that sets the setuid bit.
pub open spec fn is_setuid_chmod(ts: Seq<Seq<char>>) -> bool {
    &&& ts.len() > 0
    &&& base_name(ts[0]) == "chmod"@
    &&& exists|i: int| 0 <= i < ts.len() && #[trigger] is_setuid_mode(ts[i])
}

/// `mkfs*`, or `dd` that writes to a device.
pub open spec fn is_raw_disk(ts: Seq<Seq<char>>) -> bool {
    &&& ts.len() > 0
    &&& {
        let b = base_name(ts[0]);
        ||| starts_with(b, "mkfs"@)
        ||| b == "dd"@ && exists|i: int|
            0 <= i < ts.len() && #[trigger] starts_with(ts[i], "of=/dev/"@)
    }
}

/// Resolved segments that lie in `/tmp` or `/var/tmp` (or are one of the two).
pub open spec fn in_tmp_dir(segs: Seq<Seq<char>>) -> bool {
    (segs.len() >= 1 && segs[0] == "tmp"@) || (segs.len() >= 2 && segs[0] == "var"@ && segs[1]
        == "tmp"@)
}

/// An absolute path that, with `.` and `..` resolved, lies under `/tmp` or
/// `/var/tmp` (or is one of the two).
pub open spec fn is_tmp_path(p: Seq<char>) -> bool {
    starts_with(p, "/"@) && in_tmp_dir(resolved_segments(p))
}

/// Every operand (argument after the program that does not start with `-`) is a
/// temporary path.
pub open spec fn only_tmp_operands(ts: Seq<Seq<char>>) -> bool {
    forall|i: int|
        1 <= i < ts.len() && !starts_with(ts[i], "-"@) ==> #[trigger] is_tmp_path(ts[i])
}

/// A cluster of short options (`-x`, `-xyz`, not `--long`).
pub open spec fn is_short_options(a: Seq<char>) -> bool {
    a.len() >= 2 && a[0] == '-' && a[1] != '-'
}

/// An option argument that asks for recursion: `--recursive`, or a cluster of
/// short options holding `r` or `R`.
pub open spec fn asks_recursive(a: Seq<char>) -> bool {
    a == "--recursive"@ || (is_short_options(a) && (a.contains('r') || a.contains('R')))
}

/// An option argument that asks for force: `--force`, or a cluster of short
/// options holding `f`.
pub open spec fn asks_force(a: Seq<char>) -> bool {
    a == "--force"@ || (is_short_options(a) && a.contains('f'))
}

/// The arguments after the program ask, together, for a recursive forced
/// removal (the two flags may come apart, in one cluster, or as long options).
pub open spec fn asks_recursive_force(ts: Seq<Seq<char>>) -> bool {
    &&& exists|i: int| 1 <= i < ts.len() && #[trigger] asks_recursive(ts[i])
    &&& exists|i: int| 1 <= i < ts.len() && #[trigger] asks_force(ts[i])
}

/// `rm -rf` (or `rtrash`), in any spelling of its flags, with an operand
/// outside the temporary directories.
pub open spec fn is_rm_outside_tmp(ts: Seq<Seq<char>>) -> bool {
    &&& ts.len() > 0
    &&& base_name(ts[0]) == "rm"@ || base_name(ts[0]) == "rtrash"@
    &&& has_infix(join_words(ts), "-rf"@) || has_infix(join_words(ts), "-fr"@)
        || asks_recursive_force(ts)
    &&& !only_tmp_operands(ts)
}

/// A force flag of `git push`.
pub open spec fn is_force_flag(a: Seq<char>) -> bool {
    a == "--force"@ || a == "-f"@ || a == "--force-with-lease"@
}

/// `git ... push ... --force` (in any order).
pub open spec fn is_git_force_push(ts: Seq<Seq<char>>) -> bool {
    &&& ts.len() > 0
    &&& base_name(ts[0]) == "git"@
    &&& exists|i: int| 0 <= i < ts.len() && #[trigger] ts[i] == "push"@
    &&& exists|i: int| 0 <= i < ts.len() && #[trigger] is_force_flag(ts[i])
}

/// What the host table answers for an argv: the first rule that matches, in
/// order, else allow.
pub open spec fn host_outcome(ts: Seq<Seq<char>>) -> (Decision, PolicyReason, Seq<char>) {
    if ts.len() == 0 {
        (Decision::Deny, PolicyReason::InvalidMessage, "empty argv"@)
    } else if names_privilege(ts) {
        (Decision::Deny, PolicyReason::ShellPrivilegeDenied, "sudo"@)
    } else if is_remote_exec(ts) {
        (Decision::Deny, PolicyReason::ShellRemoteExec, "curl-pipe-shell"@)
    } else if is_setuid_chmod(ts) {
        (Decision::Deny, PolicyReason::ShellDangerousRunner, "chmod-setuid"@)
    } else if is_raw_disk(ts) {
        (Decision::Deny, PolicyReason::ShellDangerousRunner, "raw-disk"@)
    } else if is_rm_outside_tmp(ts) {
        (Decision::Deny, PolicyReason::ShellDangerousRunner, "rm-rf-outside-tmp"@)
    } else if is_git_force_push(ts) {
        (Decision::Deny, PolicyReason::ShellGitDangerous, "git-force-push"@)
    } else {
        (Decision::Allow, PolicyReason::Unspecified, "allow"@)
    }
}

/// Whether `t` spells the literal `lit`.
fn is_word(t: &[char], lit: &str) -> (r: bool)
    ensures
        r == (t@ == lit@),
{
    let w = chars_of(lit);
    same_chars(t, w.as_slice())
}

/// Whether `t` has the literal `lit` as a prefix.
fn begins_with(t: &[char], lit: &str) -> (r: bool)
    ensures
        r == starts_with(t@, lit@),
{
    let w = chars_of(lit);
    chars_start_with(t, w.as_slice())
}

/// Whether the literal `lit` occurs in `t`.
fn mentions(t: &[char], lit: &str) -> (r: bool)
    ensures
        r == has_infix(t@, lit@),
{
    let w = chars_of(lit);
    chars_have_infix(t, w.as_slice())
}

/// Whether a program name is a privilege runner.
pub fn is_privilege(base: &[char]) -> (r: bool)
    ensures
        r == is_privilege_name(base@),
{
    is_word(base, "sudo") || is_word(base, "doas") || is_word(base, "su") || is_word(base, "pkexec")
        || is_word(base, "run0")
}

fn is_fetcher(base: &[char]) -> (r: bool)
    ensures
        r == is_fetcher_name(base@),
{
    is_word(base, "curl") || is_word(base, "wget") || is_word(base, "fetch")
}

fn is_shell(base: &[char]) -> (r: bool)
    ensures
        r == is_shell_name(base@),
{
    is_word(base, "sh") || is_word(base, "bash") || is_word(base, "zsh") || is_word(base, "dash")
}

/// Whether the line pipes into `sh` or `bash`.
pub fn piped_to_shell(line: &[char]) -> (r: bool)
    ensures
        r == pipes_to_shell(line@),
{
    mentions(line, "| sh") || mentions(line, "|sh") || mentions(line, "| bash") || mentions(
        line,
        "|bash",
    )
}

/// Whether some token of `argv` names a privilege runner.
fn any_privilege(argv: &Vec<Vec<char>>) -> (r: bool)
    ensures
        r == names_privilege(argv.deep_view()),
{
    let ghost ts = argv.deep_view();
    let mut k: usize = 0;
    while k < argv.len()
        invariant
            ts == argv.deep_view(),
            ts.len() == argv@.len(),
            0 <= k <= argv@.len(),
            forall|j: int| 0 <= j < k ==> !#[trigger] is_privilege_name(base_name(ts[j])),
        decreases argv.len() - k,
    {
        let b = base_of(argv[k].as_slice());
        if is_privilege(b.as_slice()) {
            assert(is_privilege_name(base_name(ts[k as int])));
            return true;
        }
        k = k + 1;
    }
    false
}

/// Whether the argv runs fetched code in a shell.
pub fn remote_exec(argv: &Vec<Vec<char>>) -> (r: bool)
    ensures
        r == is_remote_exec(argv.deep_view()),
{
    let ghost ts = argv.deep_view();
    let line = join_with_spaces(argv);
    let mut fetch = false;
    let mut shell = false;
    let mut k: usize = 0;
    while k < argv.len()
        invariant
            ts == argv.deep_view(),
            ts.len() == argv@.len(),
            0 <= k <= argv@.len(),
            fetch == exists|j: int| 0 <= j < k && #[trigger] is_fetcher_name(base_name(ts[j])),
            shell == exists|j: int| 0 <= j < k && #[trigger] is_shell_name(base_name(ts[j])),
        decreases argv.len() - k,
    {
        let b = base_of(argv[k].as_slice());
        let f = is_fetcher(b.as_slice());
        let s = is_shell(b.as_slice());
        assert(f == is_fetcher_name(base_name(ts[k as int])));
        assert(s == is_shell_name(base_name(ts[k as int])));
        fetch = fetch || f;
        shell = shell || s;
        k = k + 1;
    }
    let fetch_hit = mentions(line.as_slice(), "curl") || mentions(line.as_slice(), "wget")
        || mentions(line.as_slice(), "fetch");
    if fetch_hit && piped_to_shell(line.as_slice()) {
        return true;
    }
    fetch && shell
}

/// Whether the argv is a `chmod` that sets the setuid bit.
pub fn setuid_chmod(argv: &Vec<Vec<char>>) -> (r: bool)
    requires
        argv@.len() > 0,
    ensures
        r == is_setuid_chmod(argv.deep_view()),
{
    let ghost ts = argv.deep_view();
    let b = base_of(argv[0].as_slice());
    assert(ts[0] == argv@[0]@);
    if !is_word(b.as_slice(), "chmod") {
        return false;
    }
    let mut k: usize = 0;
    while k < argv.len()
        invariant
            ts == argv.deep_view(),
            ts.len() == argv@.len(),
            0 <= k <= argv@.len(),
            ts.len() > 0,
            base_name(ts[0]) == "chmod"@,
            forall|j: int| 0 <= j < k ==> !#[trigger] is_setuid_mode(ts[j]),
        decreases argv.len() - k,
    {
        let a = argv[k].as_slice();
        let m = mentions(a, "+s") || (begins_with(a, "4") && a.len() >= 3 && all_digits(a));
        if m {
            assert(is_setuid_mode(ts[k as int]));
            return true;
        }
        k = k + 1;
    }
    false
}

/// Whether every character of `a` is an ASCII digit.
fn all_digits(a: &[char]) -> (r: bool)
    ensures
        r == all_ascii_digits(a@),
{
    let mut k: usize = 0;
    while k < a.len()
        invariant
            0 <= k <= a@.len(),
            forall|j: int| 0 <= j < k ==> '0' <= #[trigger] a@[j] <= '9',
        decreases a.len() - k,
    {
        if a[k] < '0' || a[k] > '9' {
            return false;
        }
        k = k + 1;
    }
    true
}

/// Whether the argv formats or writes a raw disk.
pub fn raw_disk(argv: &Vec<Vec<char>>) -> (r: bool)
    requires
        argv@.len() > 0,
    ensures
        r == is_raw_disk(argv.deep_view()),
{
    let ghost ts = argv.deep_view();
    let b = base_of(argv[0].as_slice());
    assert(ts[0] == argv@[0]@);
    if begins_with(b.as_slice(), "mkfs") {
        return true;
    }
    if !is_word(b.as_slice(), "dd") {
        return false;
    }
    let mut k: usize = 0;
    while k < argv.len()
        invariant
            ts == argv.deep_view(),
            ts.len() == argv@.len(),
            0 <= k <= argv@.len(),
            ts.len() > 0,
            base_name(ts[0]) == "dd"@,
            forall|j: int| 0 <= j < k ==> !#[trigger] starts_with(ts[j], "of=/dev/"@),
        decreases argv.len() - k,
    {
        if begins_with(argv[k].as_slice(), "of=/dev/") {
            assert(starts_with(ts[k as int], "of=/dev/"@));
            return true;
        }
        k = k + 1;
    }
    false
}

/// Whether a path is a temporary one, once `.` and `..` are resolved.
fn tmp_path(p: &[char]) -> (r: bool)
    ensures
        r == is_tmp_path(p@),
{
    if !begins_with(p, "/") {
        return false;
    }
    let segs = resolve_path(p);
    let ghost sv = segments_view(segs@);
    if segs.len() >= 1 && is_word(segs[0].as_slice(), "tmp") {
        assert(sv[0] == segs@[0]@);
        return true;
    }
    if segs.len() >= 2 && is_word(segs[0].as_slice(), "var") && is_word(segs[1].as_slice(), "tmp") {
        assert(sv[0] == segs@[0]@);
        assert(sv[1] == segs@[1]@);
        return true;
    }
    proof {
        if sv.len() >= 1 {
            assert(sv[0] == segs@[0]@);
        }
        if sv.len() >= 2 {
            assert(sv[1] == segs@[1]@);
        }
    }
    false
}

/// Whether `a` holds the character `c`.
fn holds_char(a: &[char], c: char) -> (r: bool)
    ensures
        r == a@.contains(c),
{
    let mut k: usize = 0;
    while k < a.len()
        invariant
            0 <= k <= a@.len(),
            forall|j: int| 0 <= j < k ==> a@[j] != c,
        decreases a.len() - k,
    {
        if a[k] == c {
            assert(a@[k as int] == c);
            return true;
        }
        k = k + 1;
    }
    false
}

/// Whether an argument is a cluster of short options.
fn short_options(a: &[char]) -> (r: bool)
    ensures
        r == is_short_options(a@),
{
    a.len() >= 2 && a[0] == '-' && a[1] != '-'
}

/// Whether some argument after the program asks for recursion (`want_force`
/// false) or for force (`want_force` true).
fn any_rm_flag(argv: &Vec<Vec<char>>, want_force: bool) -> (r: bool)
    ensures
        !want_force ==> r == exists|i: int|
            1 <= i < argv@.len() && #[trigger] asks_recursive(argv.deep_view()[i]),
        want_force ==> r == exists|i: int|
            1 <= i < argv@.len() && #[trigger] asks_force(argv.deep_view()[i]),
{
    let ghost ts = argv.deep_view();
    let mut k: usize = 1;
    while k < argv.len()
        invariant
            ts == argv.deep_view(),
            ts.len() == argv@.len(),
            1 <= k,
            forall|j: int| 1 <= j < k && j < ts.len() ==> !want_force ==> !#[trigger] asks_recursive(ts[j]),
            forall|j: int| 1 <= j < k && j < ts.len() ==> want_force ==> !#[trigger] asks_force(ts[j]),
        decreases argv.len() - k,
    {
        let a = argv[k].as_slice();
        let hit = if want_force {
            is_word(a, "--force") || (short_options(a) && holds_char(a, 'f'))
        } else {
            is_word(a, "--recursive") || (short_options(a) && (holds_char(a, 'r') || holds_char(
                a,
                'R',
            )))
        };
        if hit {
            if want_force {
                assert(asks_force(ts[k as int]));
            } else {
                assert(asks_recursive(ts[k as int]));
            }
            return true;
        }
        k = k + 1;
    }
    false
}

/// Whether every operand after the program is a temporary path.
fn only_tmp(argv: &Vec<Vec<char>>) -> (r: bool)
    ensures
        r == only_tmp_operands(argv.deep_view()),
{
    let ghost ts = argv.deep_view();
    let mut k: usize = 1;
    while k < argv.len()
        invariant
            ts == argv.deep_view(),
            ts.len() == argv@.len(),
            1 <= k,
            k <= argv@.len() || argv@.len() == 0,
            forall|j: int| 1 <= j < k && j < ts.len() && !starts_with(ts[j], "-"@) ==> #[trigger] is_tmp_path(ts[j]),
        decreases argv.len() - k,
    {
        let a = argv[k].as_slice();
        if !begins_with(a, "-") && !tmp_path(a) {
            assert(!is_tmp_path(ts[k as int]));
            return false;
        }
        k = k + 1;
    }
    true
}

/// Whether some token spells the literal `lit`.
fn any_word(argv: &Vec<Vec<char>>, lit: &str) -> (r: bool)
    ensures
        r == exists|i: int| 0 <= i < argv@.len() && #[trigger] argv.deep_view()[i] == lit@,
{
    let ghost ts = argv.deep_view();
    let mut k: usize = 0;
    while k < argv.len()
        invariant
            ts == argv.deep_view(),
            ts.len() == argv@.len(),
            0 <= k <= argv@.len(),
            forall|j: int| 0 <= j < k ==> #[trigger] ts[j] != lit@,
        decreases argv.len() - k,
    {
        if is_word(argv[k].as_slice(), lit) {
            assert(ts[k as int] == lit@);
            return true;
        }
        k = k + 1;
    }
    false
}

/// Whether some token is a force flag.
fn any_force_flag(argv: &Vec<Vec<char>>) -> (r: bool)
    ensures
        r == exists|i: int| 0 <= i < argv@.len() && #[trigger] is_force_flag(argv.deep_view()[i]),
{
    let ghost ts = argv.deep_view();
    let mut k: usize = 0;
    while k < argv.len()
        invariant
            ts == argv.deep_view(),
            ts.len() == argv@.len(),
            0 <= k <= argv@.len(),
            forall|j: int| 0 <= j < k ==> !#[trigger] is_force_flag(ts[j]),
        decreases argv.len() - k,
    {
        let a = argv[k].as_slice();
        if is_word(a, "--force") || is_word(a, "-f") || is_word(a, "--force-with-lease") {
            assert(is_force_flag(ts[k as int]));
            return true;
        }
        k = k + 1;
    }
    false
}

/// The characters of each argv token.
pub fn tokens_of(argv: &[String]) -> (r: Vec<Vec<char>>)
    ensures
        r.deep_view() == argv.deep_view(),
{
    let mut r: Vec<Vec<char>> = Vec::new();
    let mut k: usize = 0;
    while k < argv.len()
        invariant
            0 <= k <= argv@.len(),
            r@.len() == k,
            forall|j: int| 0 <= j < k ==> #[trigger] r@[j]@ == argv@[j]@,
        decreases argv.len() - k,
    {
        let t = chars_of(argv[k].as_str());
        r.push(t);
        k = k + 1;
    }
    assert forall|j: int| 0 <= j < r@.len() implies #[trigger] r.deep_view()[j] == argv.deep_view()[j] by {
        assert(r@[j]@ == argv@[j]@);
    }
    assert(r.deep_view() =~= argv.deep_view());
    r
}

/// The host argv table: the first of its deny rules that matches, else allow.
pub fn host_argv_table(argv: &[String]) -> (r: Checked)
    ensures
        r@ == host_outcome(argv.deep_view()),
{
    let toks = tokens_of(argv);
    let ghost ts = toks.deep_view();
    if toks.len() == 0 {
        return Checked {
            decision: Decision::Deny,
            code: PolicyReason::InvalidMessage,
            token: "empty argv",
        };
    }
    let line = join_with_spaces(&toks);
    let base = base_of(toks[0].as_slice());
    if is_privilege(base.as_slice()) || any_privilege(&toks) {
        proof {
            if is_privilege_name(base@) {
                assert(is_privilege_name(base_name(ts[0])));
            }
        }
        return Checked {
            decision: Decision::Deny,
            code: PolicyReason::ShellPrivilegeDenied,
            token: "sudo",
        };
    }
    if remote_exec(&toks) {
        return Checked {
            decision: Decision::Deny,
            code: PolicyReason::ShellRemoteExec,
            token: "curl-pipe-shell",
        };
    }
    if setuid_chmod(&toks) {
        return Checked {
            decision: Decision::Deny,
            code: PolicyReason::ShellDangerousRunner,
            token: "chmod-setuid",
        };
    }
    if raw_disk(&toks) {
        return Checked {
            decision: Decision::Deny,
            code: PolicyReason::ShellDangerousRunner,
            token: "raw-disk",
        };
    }
    if is_word(base.as_slice(), "rm") || is_word(base.as_slice(), "rtrash") {
        if mentions(line.as_slice(), "-rf") || mentions(line.as_slice(), "-fr") || (any_rm_flag(
            &toks,
            false,
        ) && any_rm_flag(&toks, true)) {
            if !only_tmp(&toks) {
                return Checked {
                    decision: Decision::Deny,
                    code: PolicyReason::ShellDangerousRunner,
                    token: "rm-rf-outside-tmp",
                };
            }
        }
    }
    if is_word(base.as_slice(), "git") && any_word(&toks, "push") && any_force_flag(&toks) {
        return Checked {
            decision: Decision::Deny,
            code: PolicyReason::ShellGitDangerous,
            token: "git-force-push",
        };
    }
    Checked { decision: Decision::Allow, code: PolicyReason::Unspecified, token: "allow" }
}

} // verus!

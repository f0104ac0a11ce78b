//! The check itself: the host argv table combined with the answer of the
//! policy library, and the hook line that reports it.

use vstd::prelude::*;
use vstd::string::*;

use crate::argv_table::{
    asks_force, asks_recursive, host_argv_table, host_outcome, is_fetcher_name, is_force_flag,
    is_git_force_push, is_privilege_name, is_raw_disk, is_remote_exec, is_rm_outside_tmp,
    is_setuid_chmod, is_setuid_mode, is_shell_name, is_tmp_path, mentions_fetcher,
    names_fetcher, names_privilege, names_shell, only_tmp_operands, pipes_to_shell,
};
use crate::policy::{is_seated_code, seated, Checked, Decision, PolicyReason};
use crate::text::{base_name, has_infix, join_words, occurs_at, starts_with};

verus! {

/// The view of an optional verdict.
pub open spec fn opt_view(seat: Option<Checked>) -> Option<(Decision, PolicyReason, Seq<char>)> {
    match seat {
        Some(c) => Some(c@),
        None => None,
    }
}

/// What the check answers for an argv, given the answer of the policy library
/// (`None` when it could not be reached or its answer could not be read).
///
/// A seated answer stands, except that it cannot turn a deny of the host table
/// into anything but a deny; an answer that is not seated, or none, leaves the
/// host table as the whole policy.
pub open spec fn shell_outcome(
    ts: Seq<Seq<char>>,
    seat: Option<(Decision, PolicyReason, Seq<char>)>,
) -> (Decision, PolicyReason, Seq<char>) {
    let host = host_outcome(ts);
    match seat {
        Some(c) => if is_seated_code(c.1) {
            if host.0 == Decision::Deny && c.0 != Decision::Deny {
                host
            } else {
                c
            }
        } else {
            host
        },
        None => host,
    }
}

/// The hook line of an answer: `allow` or `deny<TAB>token`. The line has no third
/// form: an answer that is not an allow (a prompt as well) is a deny.
pub open spec fn hook_line(c: (Decision, PolicyReason, Seq<char>)) -> Seq<char> {
    match c.0 {
        Decision::Allow => "allow"@,
        Decision::Deny => "deny\t"@ + c.2,
        Decision::Prompt => "deny\t"@ + c.2,
    }
}

/// Typed check of an argv. `seat` is the decoded answer of the policy library
/// for the same argv, or `None` when the library could not be reached.
pub fn check_shell(argv: &[String], seat: Option<Checked>) -> (r: Checked)
    ensures
        r@ == shell_outcome(argv.deep_view(), opt_view(seat)),
{
    let host = host_argv_table(argv);
    match seat {
        Some(c) => {
            if seated(&c) {
                let host_denies = match host.decision {
                    Decision::Deny => true,
                    _ => false,
                };
                let pack_denies = match c.decision {
                    Decision::Deny => true,
                    _ => false,
                };
                if host_denies && !pack_denies {
                    host
                } else {
                    c
                }
            } else {
                host
            }
        },
        None => host,
    }
}

/// Hook line for an argv: `allow` or `deny<TAB>token`.
pub fn verdict(argv: &[String], seat: Option<Checked>) -> (r: String)
    ensures
        r@ == hook_line(shell_outcome(argv.deep_view(), opt_view(seat))),
{
    let d = check_shell(argv, seat);
    match d.decision {
        Decision::Allow => String::from_str("allow"),
        Decision::Deny => String::from_str("deny\t").concat(d.token),
        Decision::Prompt => String::from_str("deny\t").concat(d.token),
    }
}

/// Pack rules cannot allow what the host table denied: whatever the policy
/// library answers, a host deny stays a deny.
pub proof fn law_host_deny_stands(
    ts: Seq<Seq<char>>,
    seat: Option<(Decision, PolicyReason, Seq<char>)>,
)
    requires
        host_outcome(ts).0 == Decision::Deny,
    ensures
        shell_outcome(ts, seat).0 == Decision::Deny,
{
}

/// Pack rules can deny more: a seated deny of the policy library is the answer.
pub proof fn law_seated_deny_stands(ts: Seq<Seq<char>>, c: (Decision, PolicyReason, Seq<char>))
    requires
        is_seated_code(c.1),
        c.0 == Decision::Deny,
    ensures
        shell_outcome(ts, Some(c)) == c,
{
}

/// A seated answer that the host table does not contradict is the answer.
pub proof fn law_seated_answer_stands(ts: Seq<Seq<char>>, c: (Decision, PolicyReason, Seq<char>))
    requires
        is_seated_code(c.1),
        host_outcome(ts).0 != Decision::Deny,
    ensures
        shell_outcome(ts, Some(c)) == c,
{
}

/// When the policy library is not seated (no answer, or an answer that says it
/// could not run a pack), the host argv table is the whole policy.
pub proof fn law_unseated_is_host_table(
    ts: Seq<Seq<char>>,
    seat: Option<(Decision, PolicyReason, Seq<char>)>,
)
    requires
        match seat {
            Some(c) => !is_seated_code(c.1),
            None => true,
        },
    ensures
        shell_outcome(ts, seat) == host_outcome(ts),
{
}

/// A privilege runner anywhere in the argv, under any path, is denied with the
/// `sudo` token.
pub proof fn law_privilege_anywhere_denies(ts: Seq<Seq<char>>, i: int)
    requires
        0 <= i < ts.len(),
        is_privilege_name(base_name(ts[i])),
    ensures
        host_outcome(ts) == (Decision::Deny, PolicyReason::ShellPrivilegeDenied, "sudo"@),
{
}

/// A fetch piped into a shell is denied.
pub proof fn law_fetch_piped_to_shell_denies(ts: Seq<Seq<char>>)
    requires
        has_infix(join_words(ts), "curl"@),
        has_infix(join_words(ts), "| sh"@),
    ensures
        host_outcome(ts).0 == Decision::Deny,
{
}

/// `rm -rf` of a path outside `/tmp` and `/var/tmp` is denied.
pub proof fn law_rm_rf_outside_tmp_denies(ts: Seq<Seq<char>>, i: int)
    requires
        base_name(ts[0]) == "rm"@,
        has_infix(join_words(ts), "-rf"@),
        1 <= i < ts.len(),
        !starts_with(ts[i], "-"@),
        !is_tmp_path(ts[i]),
    ensures
        host_outcome(ts).0 == Decision::Deny,
{
}

/// `rm` (or `rtrash`) asked for recursion and force, with the flags apart, in
/// one cluster or as long options, is denied when an operand lies outside the
/// temporary directories once `.` and `..` are resolved.
pub proof fn law_rm_recursive_force_outside_tmp_denies(ts: Seq<Seq<char>>, i: int, j: int, k: int)
    requires
        base_name(ts[0]) == "rm"@ || base_name(ts[0]) == "rtrash"@,
        1 <= i < ts.len(),
        asks_recursive(ts[i]),
        1 <= j < ts.len(),
        asks_force(ts[j]),
        1 <= k < ts.len(),
        !starts_with(ts[k], "-"@),
        !is_tmp_path(ts[k]),
    ensures
        host_outcome(ts).0 == Decision::Deny,
{
}

/// An infix of a sequence is an infix of any extension of it.
pub proof fn lemma_infix_extends(s: Seq<char>, extra: Seq<char>, p: Seq<char>)
    requires
        has_infix(s, p),
    ensures
        has_infix(s + extra, p),
{
    let i = choose|i: int| occurs_at(s, p, i);
    assert((s + extra).subrange(i, i + p.len()) =~= s.subrange(i, i + p.len()));
    assert(occurs_at(s + extra, p, i));
}

/// A denied argv stays denied when a token is appended to it (for a non-empty
/// argv: the empty one is denied only for being empty).
pub proof fn law_deny_survives_appended_token(ts: Seq<Seq<char>>, t: Seq<char>)
    requires
        ts.len() > 0,
        host_outcome(ts).0 == Decision::Deny,
    ensures
        host_outcome(ts.push(t)).0 == Decision::Deny,
{
    let us = ts.push(t);
    assert(us.drop_last() =~= ts);
    assert(us[0] == ts[0]);
    let line = join_words(ts);
    let uline = join_words(us);
    assert(uline == line + (seq![' '] + t)) by {
        assert(line + seq![' '] + t =~= line + (seq![' '] + t));
    }
    if names_privilege(ts) {
        let i = choose|i: int| 0 <= i < ts.len() && #[trigger] is_privilege_name(base_name(ts[i]));
        assert(us[i] == ts[i]);
        assert(names_privilege(us));
    } else if is_remote_exec(ts) {
        if mentions_fetcher(line) && pipes_to_shell(line) {
            if has_infix(line, "curl"@) { lemma_infix_extends(line, seq![' '] + t, "curl"@); }
            if has_infix(line, "wget"@) { lemma_infix_extends(line, seq![' '] + t, "wget"@); }
            if has_infix(line, "fetch"@) { lemma_infix_extends(line, seq![' '] + t, "fetch"@); }
            if has_infix(line, "| sh"@) { lemma_infix_extends(line, seq![' '] + t, "| sh"@); }
            if has_infix(line, "|sh"@) { lemma_infix_extends(line, seq![' '] + t, "|sh"@); }
            if has_infix(line, "| bash"@) { lemma_infix_extends(line, seq![' '] + t, "| bash"@); }
            if has_infix(line, "|bash"@) { lemma_infix_extends(line, seq![' '] + t, "|bash"@); }
        } else {
            let i = choose|i: int| 0 <= i < ts.len() && #[trigger] is_fetcher_name(base_name(ts[i]));
            let j = choose|j: int| 0 <= j < ts.len() && #[trigger] is_shell_name(base_name(ts[j]));
            assert(us[i] == ts[i]);
            assert(us[j] == ts[j]);
            assert(names_fetcher(us));
            assert(names_shell(us));
        }
        assert(is_remote_exec(us));
    } else if is_setuid_chmod(ts) {
        let i = choose|i: int| 0 <= i < ts.len() && #[trigger] is_setuid_mode(ts[i]);
        assert(us[i] == ts[i]);
        assert(is_setuid_chmod(us));
    } else if is_raw_disk(ts) {
        if !starts_with(base_name(ts[0]), "mkfs"@) {
            let i = choose|i: int| 0 <= i < ts.len() && #[trigger] starts_with(ts[i], "of=/dev/"@);
            assert(us[i] == ts[i]);
        }
        assert(is_raw_disk(us));
    } else if is_rm_outside_tmp(ts) {
        if has_infix(line, "-rf"@) {
            lemma_infix_extends(line, seq![' '] + t, "-rf"@);
        } else if has_infix(line, "-fr"@) {
            lemma_infix_extends(line, seq![' '] + t, "-fr"@);
        } else {
            let i = choose|i: int| 1 <= i < ts.len() && #[trigger] asks_recursive(ts[i]);
            let j = choose|j: int| 1 <= j < ts.len() && #[trigger] asks_force(ts[j]);
            assert(us[i] == ts[i]);
            assert(us[j] == ts[j]);
        }
        let k = choose|k: int|
            !(1 <= k < ts.len() && !starts_with(ts[k], "-"@) ==> #[trigger] is_tmp_path(ts[k]));
        assert(us[k] == ts[k]);
        assert(!only_tmp_operands(us));
        assert(is_rm_outside_tmp(us));
    } else {
        assert(is_git_force_push(ts));
        let i = choose|i: int| 0 <= i < ts.len() && #[trigger] ts[i] == "push"@;
        let j = choose|j: int| 0 <= j < ts.len() && #[trigger] is_force_flag(ts[j]);
        assert(us[i] == ts[i]);
        assert(us[j] == ts[j]);
        assert(is_git_force_push(us));
    }
}

/// `git push` with a force flag is denied.
pub proof fn law_git_force_push_denies(ts: Seq<Seq<char>>, i: int, j: int)
    requires
        base_name(ts[0]) == "git"@,
        0 <= i < ts.len(),
        ts[i] == "push"@,
        0 <= j < ts.len(),
        is_force_flag(ts[j]),
    ensures
        host_outcome(ts).0 == Decision::Deny,
{
}

/// `chmod` that sets the setuid bit is denied.
pub proof fn law_setuid_chmod_denies(ts: Seq<Seq<char>>, i: int)
    requires
        base_name(ts[0]) == "chmod"@,
        0 <= i < ts.len(),
        is_setuid_mode(ts[i]),
    ensures
        host_outcome(ts).0 == Decision::Deny,
{
}

/// `mkfs*`, and `dd` that writes to a device, are denied.
pub proof fn law_raw_disk_denies(ts: Seq<Seq<char>>)
    requires
        is_raw_disk(ts),
    ensures
        host_outcome(ts).0 == Decision::Deny,
{
}

/// The host table answers allow or deny, never prompt; it allows exactly with
/// the unspecified code and the `allow` token, and every deny carries a code.
pub proof fn law_host_table_shape(ts: Seq<Seq<char>>)
    ensures
        host_outcome(ts).0 != Decision::Prompt,
        host_outcome(ts).0 == Decision::Allow <==> host_outcome(ts).1 == PolicyReason::Unspecified,
        host_outcome(ts).0 == Decision::Allow ==> host_outcome(ts).2 == "allow"@,
{
}

/// The hook line starts with `allow` exactly for an allow, and with `deny`
/// exactly for any other answer.
pub proof fn law_hook_line_prefix(c: (Decision, PolicyReason, Seq<char>))
    ensures
        starts_with(hook_line(c), "allow"@) <==> c.0 == Decision::Allow,
        starts_with(hook_line(c), "deny"@) <==> c.0 != Decision::Allow,
{
    reveal_strlit("allow");
    reveal_strlit("deny");
    reveal_strlit("deny\t");
    let l = hook_line(c);
    if c.0 == Decision::Allow {
        assert(l.subrange(0, 5) =~= "allow"@);
        assert(l[0] != "deny"@[0]);
    } else {
        assert(l.subrange(0, 4) =~= "deny"@);
        assert(l[0] != "allow"@[0]);
    }
}

} // verus!

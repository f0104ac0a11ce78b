//! Laws of the check stated over the argv itself: which command lines each
//! rule of the host table catches, and which answers of the policy library stand.

use vstd::prelude::*;

use crate::argv_table::{
    asks_force, asks_recursive, host_outcome, is_fetcher_name, is_force_flag, is_privilege_name,
    is_remote_exec, is_setuid_mode, is_shell_name, is_tmp_path, names_privilege,
};
use crate::policy::{Decision, PolicyReason};
use crate::shell::{hook_line, shell_outcome};
use crate::text::{
    base_name, close_segment, has_infix, join_words, resolve_from, resolved_segments, starts_with,
};

verus! {

/// The codes with which the policy library says that it could not run a pack.
pub open spec fn is_failure_code(code: PolicyReason) -> bool {
    code == PolicyReason::PackMissing || code == PolicyReason::PackLoadFailed || code
        == PolicyReason::PackBadResult || code == PolicyReason::PackRuntimeError || code
        == PolicyReason::ToolsDefaultDeny || code == PolicyReason::InvalidMessage || code
        == PolicyReason::PathOutsideWorkspace || code == PolicyReason::ShellViewBuildFailed
}

/// An answer of the policy library is dropped for the host table exactly when
/// its code is one of the eight failure codes; with any other code a deny is
/// the answer, and so is any answer for an argv the host table does not deny.
pub proof fn law_pack_answer_by_code(ts: Seq<Seq<char>>, c: (Decision, PolicyReason, Seq<char>))
    ensures
        is_failure_code(c.1) ==> shell_outcome(ts, Some(c)) == host_outcome(ts),
        !is_failure_code(c.1) && c.0 == Decision::Deny ==> shell_outcome(ts, Some(c)) == c,
        !is_failure_code(c.1) && host_outcome(ts).0 != Decision::Deny ==> shell_outcome(
            ts,
            Some(c),
        ) == c,
{
}

/// An absolute path whose segments, with `.` and `..` resolved, begin with
/// `tmp`, or with `var` then `tmp`.
pub open spec fn resolves_under_tmp(p: Seq<char>) -> bool {
    let segs = resolved_segments(p);
    &&& p.len() > 0 && p[0] == '/'
    &&& (segs.len() >= 1 && segs[0] == "tmp"@) || (segs.len() >= 2 && segs[0] == "var"@
        && segs[1] == "tmp"@)
}

/// The argv asks `rm` for a recursive forced removal in one of the usual
/// spellings: `-rf`/`-fr` anywhere, or a recursion flag and a force flag as
/// separate arguments.
pub open spec fn spells_rm_rf(ts: Seq<Seq<char>>) -> bool {
    ||| has_infix(join_words(ts), "-rf"@)
    ||| has_infix(join_words(ts), "-fr"@)
    ||| (exists|i: int| 1 <= i < ts.len() && (#[trigger] ts[i] == "-r"@ || ts[i] == "-R"@
        || ts[i] == "--recursive"@)) && (exists|j: int| 1 <= j < ts.len() && (#[trigger] ts[j]
        == "-f"@ || ts[j] == "--force"@))
}

/// Facts about the distinct program names the rules look at.
proof fn lemma_program_names()
    ensures
        "rm"@ != "chmod"@,
        "rtrash"@ != "chmod"@,
        "git"@ != "chmod"@,
        "rm"@ != "dd"@,
        "rtrash"@ != "dd"@,
        "git"@ != "dd"@,
        "git"@ != "rm"@,
        "git"@ != "rtrash"@,
        "chmod"@ != "dd"@,
        forall|b: Seq<char>| starts_with(b, "mkfs"@) ==> b != "chmod"@ && b != "rm"@ && b
            != "rtrash"@ && b != "git"@ && b != "dd"@,
{
    reveal_strlit("rm");
    reveal_strlit("rtrash");
    reveal_strlit("git");
    reveal_strlit("chmod");
    reveal_strlit("dd");
    reveal_strlit("mkfs");
    assert("rm"@[0] != "chmod"@[0]);
    assert("rtrash"@[0] != "chmod"@[0]);
    assert("git"@[0] != "chmod"@[0]);
    assert("rm"@[0] != "dd"@[0]);
    assert("rtrash"@[0] != "dd"@[0]);
    assert("git"@[0] != "dd"@[0]);
    assert("git"@[0] != "rm"@[0]);
    assert("git"@[0] != "rtrash"@[0]);
    assert("chmod"@[0] != "dd"@[0]);
    assert forall|b: Seq<char>| starts_with(b, "mkfs"@) implies b != "chmod"@ && b != "rm"@ && b
        != "rtrash"@ && b != "git"@ && b != "dd"@ by {
        assert(b.subrange(0, 4)[0] == 'm');
        assert(b[0] == 'm');
    }
}

/// A sequence starts with `/` exactly when its first character is `/`.
proof fn lemma_starts_with_slash(p: Seq<char>)
    ensures
        starts_with(p, "/"@) <==> (p.len() > 0 && p[0] == '/'),
{
    reveal_strlit("/");
    assert("/"@.len() == 1);
    assert("/"@[0] == '/');
    if starts_with(p, "/"@) {
        assert(p.subrange(0, 1)[0] == p[0]);
    }
    if p.len() > 0 && p[0] == '/' {
        assert(p.subrange(0, 1) =~= "/"@);
    }
}

/// `rm -rf` (or `rtrash`) with an operand that does not resolve under `/tmp` or
/// `/var/tmp` is denied; with no earlier rule matching, as `rm-rf-outside-tmp`.
pub proof fn law_rm_rf_operand_outside_tmp(ts: Seq<Seq<char>>, k: int)
    requires
        ts.len() > 0,
        base_name(ts[0]) == "rm"@ || base_name(ts[0]) == "rtrash"@,
        spells_rm_rf(ts),
        1 <= k < ts.len(),
        !starts_with(ts[k], "-"@),
        !resolves_under_tmp(ts[k]),
    ensures
        host_outcome(ts).0 == Decision::Deny,
        !names_privilege(ts) && !is_remote_exec(ts) ==> host_outcome(ts) == (
            Decision::Deny,
            PolicyReason::ShellDangerousRunner,
            "rm-rf-outside-tmp"@,
        ),
{
    lemma_program_names();
    reveal_strlit("/");
    reveal_strlit("tmp");
    reveal_strlit("var");
    reveal_strlit("-r");
    reveal_strlit("-R");
    reveal_strlit("-f");
    reveal_strlit("--recursive");
    reveal_strlit("--force");
    lemma_starts_with_slash(ts[k]);
    assert(!is_tmp_path(ts[k]));
    if !has_infix(join_words(ts), "-rf"@) && !has_infix(join_words(ts), "-fr"@) {
        let i = choose|i: int| 1 <= i < ts.len() && (#[trigger] ts[i] == "-r"@ || ts[i] == "-R"@
            || ts[i] == "--recursive"@);
        let j = choose|j: int| 1 <= j < ts.len() && (#[trigger] ts[j] == "-f"@ || ts[j]
            == "--force"@);
        assert(asks_recursive(ts[i])) by {
            if ts[i] == "-r"@ {
                assert(ts[i][1] == 'r');
            } else if ts[i] == "-R"@ {
                assert(ts[i][1] == 'R');
            }
        }
        assert(asks_force(ts[j])) by {
            if ts[j] == "-f"@ {
                assert(ts[j][1] == 'f');
            }
        }
    }
}

/// With every operand resolving under `/tmp` or `/var/tmp`, `rm` is never
/// denied as `rm-rf-outside-tmp`, whatever its flags.
pub proof fn law_rm_tmp_operands_pass(ts: Seq<Seq<char>>)
    requires
        forall|k: int|
            1 <= k < ts.len() && !starts_with(ts[k], "-"@) ==> #[trigger] resolves_under_tmp(
                ts[k],
            ),
    ensures
        host_outcome(ts).2 != "rm-rf-outside-tmp"@ || host_outcome(ts).1
            != PolicyReason::ShellDangerousRunner,
{
    reveal_strlit("rm-rf-outside-tmp");
    reveal_strlit("chmod-setuid");
    reveal_strlit("raw-disk");
    assert forall|k: int| 1 <= k < ts.len() && !starts_with(ts[k], "-"@) implies #[trigger] is_tmp_path(
        ts[k],
    ) by {
        assert(resolves_under_tmp(ts[k]));
        lemma_starts_with_slash(ts[k]);
    }
    assert("rm-rf-outside-tmp"@[0] != "chmod-setuid"@[0]);
    assert("rm-rf-outside-tmp"@[1] != "raw-disk"@[1]);
}

/// A program whose name starts with `mkfs` is a raw disk write: denied, and with
/// no earlier rule matching, as `raw-disk`.
pub proof fn law_mkfs_is_raw_disk(ts: Seq<Seq<char>>)
    requires
        ts.len() > 0,
        starts_with(base_name(ts[0]), "mkfs"@),
    ensures
        host_outcome(ts).0 == Decision::Deny,
        !names_privilege(ts) && !is_remote_exec(ts) ==> host_outcome(ts) == (
            Decision::Deny,
            PolicyReason::ShellDangerousRunner,
            "raw-disk"@,
        ),
{
    lemma_program_names();
}

/// `dd` with an argument starting `of=/dev/` is a raw disk write: denied, and
/// with no earlier rule matching, as `raw-disk`.
pub proof fn law_dd_to_device_is_raw_disk(ts: Seq<Seq<char>>, i: int)
    requires
        ts.len() > 0,
        base_name(ts[0]) == "dd"@,
        0 <= i < ts.len(),
        starts_with(ts[i], "of=/dev/"@),
    ensures
        host_outcome(ts).0 == Decision::Deny,
        !names_privilege(ts) && !is_remote_exec(ts) ==> host_outcome(ts) == (
            Decision::Deny,
            PolicyReason::ShellDangerousRunner,
            "raw-disk"@,
        ),
{
    lemma_program_names();
}

/// `chmod` with any argument holding `+s` (symbolic setuid/setgid for any
/// class) is denied; with no earlier rule matching, as `chmod-setuid`.
pub proof fn law_chmod_plus_s_denies(ts: Seq<Seq<char>>, i: int)
    requires
        ts.len() > 0,
        base_name(ts[0]) == "chmod"@,
        0 <= i < ts.len(),
        has_infix(ts[i], "+s"@),
    ensures
        host_outcome(ts).0 == Decision::Deny,
        !names_privilege(ts) && !is_remote_exec(ts) ==> host_outcome(ts) == (
            Decision::Deny,
            PolicyReason::ShellDangerousRunner,
            "chmod-setuid"@,
        ),
{
    assert(is_setuid_mode(ts[i]));
}

/// `chmod` with an octal mode of at least three digits whose first digit is `4`
/// is denied; with no earlier rule matching, as `chmod-setuid`.
pub proof fn law_chmod_octal_setuid_denies(ts: Seq<Seq<char>>, i: int)
    requires
        ts.len() > 0,
        base_name(ts[0]) == "chmod"@,
        0 <= i < ts.len(),
        ts[i].len() >= 3,
        ts[i][0] == '4',
        forall|k: int| 0 <= k < ts[i].len() ==> '0' <= #[trigger] ts[i][k] <= '9',
    ensures
        host_outcome(ts).0 == Decision::Deny,
        !names_privilege(ts) && !is_remote_exec(ts) ==> host_outcome(ts) == (
            Decision::Deny,
            PolicyReason::ShellDangerousRunner,
            "chmod-setuid"@,
        ),
{
    reveal_strlit("4");
    assert(ts[i].subrange(0, 1) =~= "4"@);
    assert(is_setuid_mode(ts[i]));
}

/// A `git` argv that no earlier rule catches is denied exactly when it holds
/// `push` and one of the force flags `--force`, `-f`, `--force-with-lease`,
/// and then as `git-force-push`; otherwise it is allowed.
pub proof fn law_git_push_force_exactly(ts: Seq<Seq<char>>)
    requires
        ts.len() > 0,
        base_name(ts[0]) == "git"@,
        !names_privilege(ts),
        !is_remote_exec(ts),
    ensures
        ({
            let forced = (exists|i: int| 0 <= i < ts.len() && #[trigger] ts[i] == "push"@) && (
            exists|j: int|
                0 <= j < ts.len() && (#[trigger] ts[j] == "--force"@ || ts[j] == "-f"@ || ts[j]
                    == "--force-with-lease"@));
            &&& forced ==> host_outcome(ts) == (
                Decision::Deny,
                PolicyReason::ShellGitDangerous,
                "git-force-push"@,
            )
            &&& !forced ==> host_outcome(ts) == (
                Decision::Allow,
                PolicyReason::Unspecified,
                "allow"@,
            )
        }),
{
    lemma_program_names();
    let b = base_name(ts[0]);
    assert(!starts_with(b, "mkfs"@));
    let forced = (exists|i: int| 0 <= i < ts.len() && #[trigger] ts[i] == "push"@) && (exists|
        j: int|
        0 <= j < ts.len() && (#[trigger] ts[j] == "--force"@ || ts[j] == "-f"@ || ts[j]
            == "--force-with-lease"@));
    if forced {
        let j = choose|j: int|
            0 <= j < ts.len() && (#[trigger] ts[j] == "--force"@ || ts[j] == "-f"@ || ts[j]
                == "--force-with-lease"@);
        assert(is_force_flag(ts[j]));
    } else {
        assert forall|j: int| 0 <= j < ts.len() implies !#[trigger] is_force_flag(ts[j])
            || !(exists|i: int| 0 <= i < ts.len() && #[trigger] ts[i] == "push"@) by {
            if is_force_flag(ts[j]) {
                assert(ts[j] == "--force"@ || ts[j] == "-f"@ || ts[j] == "--force-with-lease"@);
            }
        }
    }
}

/// A program name that runs commands as another user.
pub open spec fn runs_as_other_user(b: Seq<char>) -> bool {
    b == "sudo"@ || b == "doas"@ || b == "su"@ || b == "pkexec"@ || b == "run0"@
}

/// `sudo`, `doas`, `su`, `pkexec` or `run0` as any token, under any path, is
/// denied as `sudo`, before every other rule.
pub proof fn law_privilege_runner_denies(ts: Seq<Seq<char>>, i: int)
    requires
        0 <= i < ts.len(),
        runs_as_other_user(base_name(ts[i])),
    ensures
        host_outcome(ts) == (Decision::Deny, PolicyReason::ShellPrivilegeDenied, "sudo"@),
{
    assert(is_privilege_name(base_name(ts[i])));
}

/// With no privilege runner named, a line that mentions `curl`, `wget` or
/// `fetch` and pipes into `sh` or `bash` (with or without a space after the
/// bar) is denied as `curl-pipe-shell`.
pub proof fn law_fetch_pipe_denies(ts: Seq<Seq<char>>)
    requires
        !names_privilege(ts),
        has_infix(join_words(ts), "curl"@) || has_infix(join_words(ts), "wget"@) || has_infix(
            join_words(ts),
            "fetch"@,
        ),
        has_infix(join_words(ts), "| sh"@) || has_infix(join_words(ts), "|sh"@) || has_infix(
            join_words(ts),
            "| bash"@,
        ) || has_infix(join_words(ts), "|bash"@),
    ensures
        host_outcome(ts) == (Decision::Deny, PolicyReason::ShellRemoteExec, "curl-pipe-shell"@),
{
    reveal_strlit("curl");
    reveal_strlit("wget");
    reveal_strlit("fetch");
    if ts.len() == 0 {
        assert(join_words(ts).len() == 0);
        assert(!has_infix(join_words(ts), "curl"@));
        assert(!has_infix(join_words(ts), "wget"@));
        assert(!has_infix(join_words(ts), "fetch"@));
    }
}

/// With no privilege runner named, an argv that names a fetcher (`curl`,
/// `wget`, `fetch`) and a shell (`sh`, `bash`, `zsh`, `dash`) as programs is
/// denied as `curl-pipe-shell`.
pub proof fn law_fetcher_and_shell_deny(ts: Seq<Seq<char>>, i: int, j: int)
    requires
        !names_privilege(ts),
        0 <= i < ts.len(),
        0 <= j < ts.len(),
        base_name(ts[i]) == "curl"@ || base_name(ts[i]) == "wget"@ || base_name(ts[i])
            == "fetch"@,
        base_name(ts[j]) == "sh"@ || base_name(ts[j]) == "bash"@ || base_name(ts[j]) == "zsh"@
            || base_name(ts[j]) == "dash"@,
    ensures
        host_outcome(ts) == (Decision::Deny, PolicyReason::ShellRemoteExec, "curl-pipe-shell"@),
{
    assert(is_fetcher_name(base_name(ts[i])));
    assert(is_shell_name(base_name(ts[j])));
}

/// A `chmod` argv that no earlier rule catches is denied exactly when an
/// argument holds `+s` or is an octal mode of at least three digits starting
/// with `4`, and then as `chmod-setuid`; otherwise it is allowed.
pub proof fn law_chmod_setuid_exactly(ts: Seq<Seq<char>>)
    requires
        ts.len() > 0,
        base_name(ts[0]) == "chmod"@,
        !names_privilege(ts),
        !is_remote_exec(ts),
    ensures
        ({
            let setuid = exists|i: int|
                0 <= i < ts.len() && (has_infix(#[trigger] ts[i], "+s"@) || (ts[i].len() >= 3
                    && ts[i][0] == '4' && forall|k: int|
                    0 <= k < ts[i].len() ==> '0' <= #[trigger] ts[i][k] <= '9'));
            &&& setuid ==> host_outcome(ts) == (
                Decision::Deny,
                PolicyReason::ShellDangerousRunner,
                "chmod-setuid"@,
            )
            &&& !setuid ==> host_outcome(ts) == (
                Decision::Allow,
                PolicyReason::Unspecified,
                "allow"@,
            )
        }),
{
    lemma_program_names();
    reveal_strlit("4");
    reveal_strlit("chmod");
    reveal_strlit("mkfs");
    assert(!starts_with("chmod"@, "mkfs"@)) by {
        if starts_with("chmod"@, "mkfs"@) {
            assert("chmod"@.subrange(0, 4)[0] == "mkfs"@[0]);
        }
    }
    assert forall|i: int| 0 <= i < ts.len() implies (#[trigger] is_setuid_mode(ts[i]) <==> (
    has_infix(ts[i], "+s"@) || (ts[i].len() >= 3 && ts[i][0] == '4' && forall|k: int|
        0 <= k < ts[i].len() ==> '0' <= #[trigger] ts[i][k] <= '9'))) by {
        if ts[i].len() >= 1 {
            if ts[i][0] == '4' {
                assert(ts[i].subrange(0, 1) =~= "4"@);
            }
            if starts_with(ts[i], "4"@) {
                assert(ts[i].subrange(0, 1)[0] == ts[i][0]);
            }
        }
    }
    let setuid = exists|i: int|
        0 <= i < ts.len() && (has_infix(#[trigger] ts[i], "+s"@) || (ts[i].len() >= 3 && ts[i][0]
            == '4' && forall|k: int| 0 <= k < ts[i].len() ==> '0' <= #[trigger] ts[i][k] <= '9'));
    if setuid {
        let i = choose|i: int|
            0 <= i < ts.len() && (has_infix(#[trigger] ts[i], "+s"@) || (ts[i].len() >= 3
                && ts[i][0] == '4' && forall|k: int|
                0 <= k < ts[i].len() ==> '0' <= #[trigger] ts[i][k] <= '9'));
        assert(is_setuid_mode(ts[i]));
    } else {
        assert forall|i: int| 0 <= i < ts.len() implies !#[trigger] is_setuid_mode(ts[i]) by {
            if is_setuid_mode(ts[i]) {
                assert(has_infix(ts[i], "+s"@) || (ts[i].len() >= 3 && ts[i][0] == '4'
                    && forall|k: int| 0 <= k < ts[i].len() ==> '0' <= #[trigger] ts[i][k] <= '9'));
            }
        }
    }
}

/// A `dd` argv that no earlier rule catches is denied exactly when an argument
/// starts with `of=/dev/`, and then as `raw-disk`; otherwise it is allowed.
pub proof fn law_dd_device_exactly(ts: Seq<Seq<char>>)
    requires
        ts.len() > 0,
        base_name(ts[0]) == "dd"@,
        !names_privilege(ts),
        !is_remote_exec(ts),
    ensures
        ({
            let device = exists|i: int| 0 <= i < ts.len() && #[trigger] starts_with(ts[i], "of=/dev/"@);
            &&& device ==> host_outcome(ts) == (
                Decision::Deny,
                PolicyReason::ShellDangerousRunner,
                "raw-disk"@,
            )
            &&& !device ==> host_outcome(ts) == (
                Decision::Allow,
                PolicyReason::Unspecified,
                "allow"@,
            )
        }),
{
    lemma_program_names();
}

/// The hook line is `allow` for an allow and `deny`, a tab and the token for
/// every other answer.
pub proof fn law_hook_line_text(c: (Decision, PolicyReason, Seq<char>))
    ensures
        c.0 == Decision::Allow ==> hook_line(c) == seq!['a', 'l', 'l', 'o', 'w'],
        c.0 != Decision::Allow ==> hook_line(c) == seq!['d', 'e', 'n', 'y', '\t'] + c.2,
{
    reveal_strlit("allow");
    reveal_strlit("deny\t");
    assert("allow"@ =~= seq!['a', 'l', 'l', 'o', 'w']);
    assert("deny\t"@ =~= seq!['d', 'e', 'n', 'y', '\t']);
}

/// The last path segment of a token holds no `/`, and the token is some prefix
/// that is empty or ends in `/`, followed by it.
pub proof fn law_base_name_is_last_segment(t: Seq<char>)
    ensures
        !base_name(t).contains('/'),
        base_name(t).len() <= t.len(),
        t.skip(t.len() - base_name(t).len()) == base_name(t),
        base_name(t).len() < t.len() ==> t[t.len() - base_name(t).len() - 1] == '/',
    decreases t.len(),
{
    if t.len() > 0 && t.last() != '/' {
        law_base_name_is_last_segment(t.drop_last());
        let b = base_name(t.drop_last());
        assert(base_name(t) == b.push(t.last()));
        assert(t.skip(t.len() - b.len() - 1) =~= t.drop_last().skip(t.drop_last().len() - b.len()).push(
            t.last(),
        ));
        if b.len() < t.drop_last().len() {
            assert(t[t.len() - b.len() - 2] == t.drop_last()[t.drop_last().len() - b.len() - 1]);
        }
    } else if t.len() > 0 {
        assert(t.skip(t.len() as int) =~= Seq::<char>::empty());
    } else {
        assert(t.skip(0) =~= t);
    }
}

/// An argument that asks for recursion: `--recursive`, or short options
/// (`-` not followed by `-`) holding `r` or `R`.
pub open spec fn names_recursion(a: Seq<char>) -> bool {
    a == "--recursive"@ || (a.len() >= 2 && a[0] == '-' && a[1] != '-' && exists|k: int|
        0 <= k < a.len() && (#[trigger] a[k] == 'r' || a[k] == 'R'))
}

/// An argument that asks for force: `--force`, or short options holding `f`.
pub open spec fn names_force(a: Seq<char>) -> bool {
    a == "--force"@ || (a.len() >= 2 && a[0] == '-' && a[1] != '-' && exists|k: int|
        0 <= k < a.len() && #[trigger] a[k] == 'f')
}

/// An `rm` (or `rtrash`) argv that no earlier rule catches, with some operand
/// outside the temporary directories, is denied exactly when it asks for a
/// recursive forced removal: `-rf`/`-fr` in the line, or a recursion flag and a
/// force flag in any spelling; otherwise it is allowed.
pub proof fn law_rm_flags_exactly(ts: Seq<Seq<char>>, k: int)
    requires
        ts.len() > 0,
        base_name(ts[0]) == "rm"@ || base_name(ts[0]) == "rtrash"@,
        !names_privilege(ts),
        !is_remote_exec(ts),
        1 <= k < ts.len(),
        !starts_with(ts[k], "-"@),
        !resolves_under_tmp(ts[k]),
    ensures
        ({
            let asked = has_infix(join_words(ts), "-rf"@) || has_infix(join_words(ts), "-fr"@) || (
            (exists|i: int| 1 <= i < ts.len() && #[trigger] names_recursion(ts[i])) && (exists|
                j: int|
                1 <= j < ts.len() && #[trigger] names_force(ts[j])));
            &&& asked ==> host_outcome(ts) == (
                Decision::Deny,
                PolicyReason::ShellDangerousRunner,
                "rm-rf-outside-tmp"@,
            )
            &&& !asked ==> host_outcome(ts) == (
                Decision::Allow,
                PolicyReason::Unspecified,
                "allow"@,
            )
        }),
{
    lemma_program_names();
    lemma_starts_with_slash(ts[k]);
    assert(!is_tmp_path(ts[k]));
    assert forall|a: Seq<char>| #[trigger] names_recursion(a) <==> asks_recursive(a) by {
        if a.len() >= 2 && a[0] == '-' && a[1] != '-' {
            if a.contains('r') {
                let k = choose|k: int| 0 <= k < a.len() && a[k] == 'r';
                assert(a[k] == 'r');
            }
            if a.contains('R') {
                let k = choose|k: int| 0 <= k < a.len() && a[k] == 'R';
                assert(a[k] == 'R');
            }
        }
    }
    assert forall|a: Seq<char>| #[trigger] names_force(a) <==> asks_force(a) by {
        if a.len() >= 2 && a[0] == '-' && a[1] != '-' && a.contains('f') {
            let k = choose|k: int| 0 <= k < a.len() && a[k] == 'f';
            assert(a[k] == 'f');
        }
    }
    let rec = exists|i: int| 1 <= i < ts.len() && #[trigger] names_recursion(ts[i]);
    let frc = exists|j: int| 1 <= j < ts.len() && #[trigger] names_force(ts[j]);
    if rec {
        let i = choose|i: int| 1 <= i < ts.len() && #[trigger] names_recursion(ts[i]);
        assert(asks_recursive(ts[i]));
    } else {
        assert forall|i: int| 1 <= i < ts.len() implies !#[trigger] asks_recursive(ts[i]) by {
            assert(!names_recursion(ts[i]));
        }
    }
    if frc {
        let j = choose|j: int| 1 <= j < ts.len() && #[trigger] names_force(ts[j]);
        assert(asks_force(ts[j]));
    } else {
        assert forall|j: int| 1 <= j < ts.len() implies !#[trigger] asks_force(ts[j]) by {
            assert(!names_force(ts[j]));
        }
    }
}

/// The state after reading `p` without closing its last segment: the resolved
/// segments so far and the partial segment being read.
pub open spec fn read_path(p: Seq<char>, stack: Seq<Seq<char>>, cur: Seq<char>) -> (
    Seq<Seq<char>>,
    Seq<char>,
)
    decreases p.len(),
{
    if p.len() == 0 {
        (stack, cur)
    } else if p[0] == '/' {
        read_path(p.drop_first(), close_segment(stack, cur), Seq::empty())
    } else {
        read_path(p.drop_first(), stack, cur.push(p[0]))
    }
}

/// Resolving is reading, then closing the last segment.
proof fn lemma_resolve_is_read(p: Seq<char>, stack: Seq<Seq<char>>, cur: Seq<char>)
    ensures
        resolve_from(p, stack, cur) == close_segment(read_path(p, stack, cur).0, read_path(p, stack, cur).1),
    decreases p.len(),
{
    if p.len() > 0 {
        if p[0] == '/' {
            lemma_resolve_is_read(p.drop_first(), close_segment(stack, cur), Seq::empty());
        } else {
            lemma_resolve_is_read(p.drop_first(), stack, cur.push(p[0]));
        }
    }
}

/// Reading `p + q` is reading `p`, then reading `q` from there.
proof fn lemma_read_concat(p: Seq<char>, q: Seq<char>, stack: Seq<Seq<char>>, cur: Seq<char>)
    ensures
        read_path(p + q, stack, cur) == read_path(q, read_path(p, stack, cur).0, read_path(p, stack, cur).1),
    decreases p.len(),
{
    if p.len() == 0 {
        assert(p + q =~= q);
    } else {
        assert((p + q)[0] == p[0]);
        assert((p + q).drop_first() =~= p.drop_first() + q);
        if p[0] == '/' {
            lemma_read_concat(p.drop_first(), q, close_segment(stack, cur), Seq::empty());
        } else {
            lemma_read_concat(p.drop_first(), q, stack, cur.push(p[0]));
        }
    }
}

/// Reading a run of characters without `/` extends the partial segment.
proof fn lemma_read_plain(seg: Seq<char>, stack: Seq<Seq<char>>, cur: Seq<char>)
    requires
        !seg.contains('/'),
    ensures
        read_path(seg, stack, cur) == (stack, cur + seg),
    decreases seg.len(),
{
    if seg.len() == 0 {
        assert(cur + seg =~= cur);
    } else {
        assert(seg[0] != '/');
        assert(!seg.drop_first().contains('/')) by {
            if seg.drop_first().contains('/') {
                let k = choose|k: int| 0 <= k < seg.drop_first().len() && seg.drop_first()[k] == '/';
                assert(seg[k + 1] == '/');
            }
        }
        lemma_read_plain(seg.drop_first(), stack, cur.push(seg[0]));
        assert(cur.push(seg[0]) + seg.drop_first() =~= cur + seg);
    }
}

/// Resolving `p`, a `/` and then `seg` (a run without `/`) is closing `seg`
/// onto the resolution of `p`.
proof fn lemma_resolve_then_segment(p: Seq<char>, seg: Seq<char>)
    requires
        !seg.contains('/'),
    ensures
        resolved_segments(p + seq!['/'] + seg) == close_segment(resolved_segments(p), seg),
{
    let e = Seq::<Seq<char>>::empty();
    let z = Seq::<char>::empty();
    let st = read_path(p, e, z);
    lemma_resolve_is_read(p, e, z);
    lemma_resolve_is_read(p + seq!['/'] + seg, e, z);
    lemma_read_concat(p, seq!['/'] + seg, e, z);
    assert(p + seq!['/'] + seg =~= p + (seq!['/'] + seg));
    assert((seq!['/'] + seg)[0] == '/');
    assert((seq!['/'] + seg).drop_first() =~= seg);
    lemma_read_plain(seg, close_segment(st.0, st.1), z);
    assert(z + seg =~= seg);
}

/// The empty path resolves to no segments.
pub proof fn law_resolve_empty()
    ensures
        resolved_segments(Seq::empty()).len() == 0,
{
}

/// Appending `/` and a name (no `/`, not empty, not `.` or `..`) to a path
/// appends that name to its resolved segments.
pub proof fn law_resolve_appends_name(p: Seq<char>, seg: Seq<char>)
    requires
        seg.len() > 0,
        !seg.contains('/'),
        seg != seq!['.'],
        seg != seq!['.', '.'],
    ensures
        resolved_segments(p + seq!['/'] + seg) == resolved_segments(p).push(seg),
{
    reveal_strlit(".");
    reveal_strlit("..");
    assert("."@ =~= seq!['.']);
    assert(".."@ =~= seq!['.', '.']);
    lemma_resolve_then_segment(p, seg);
}

/// Appending `/..` to a path drops the last of its resolved segments (and stays
/// at the root when there is none).
pub proof fn law_resolve_parent(p: Seq<char>)
    ensures
        ({
            let r = resolved_segments(p);
            resolved_segments(p + seq!['/', '.', '.']) == if r.len() > 0 {
                r.drop_last()
            } else {
                r
            }
        }),
{
    reveal_strlit(".");
    reveal_strlit("..");
    assert("."@ =~= seq!['.']);
    assert(".."@ =~= seq!['.', '.']);
    let seg = seq!['.', '.'];
    assert(!seg.contains('/')) by {
        if seg.contains('/') {
            let k = choose|k: int| 0 <= k < seg.len() && seg[k] == '/';
        }
    }
    lemma_resolve_then_segment(p, seg);
    assert(p + seq!['/'] + seg =~= p + seq!['/', '.', '.']);
}

/// Appending `/.` or `/` to a path leaves its resolved segments unchanged.
pub proof fn law_resolve_dot_and_slash(p: Seq<char>)
    ensures
        resolved_segments(p + seq!['/', '.']) == resolved_segments(p),
        resolved_segments(p + seq!['/']) == resolved_segments(p),
{
    reveal_strlit(".");
    assert("."@ =~= seq!['.']);
    let dot = seq!['.'];
    assert(!dot.contains('/')) by {
        if dot.contains('/') {
            let k = choose|k: int| 0 <= k < dot.len() && dot[k] == '/';
        }
    }
    lemma_resolve_then_segment(p, dot);
    assert(p + seq!['/'] + dot =~= p + seq!['/', '.']);
    let none = Seq::<char>::empty();
    lemma_resolve_then_segment(p, none);
    assert(p + seq!['/'] + none =~= p + seq!['/']);
}

/// A path without `/` resolves to itself as one segment, or to no segment
/// when it is empty, `.` or `..`.
pub proof fn law_resolve_single_segment(seg: Seq<char>)
    requires
        !seg.contains('/'),
    ensures
        seg.len() == 0 || seg == seq!['.'] || seg == seq!['.', '.'] ==> resolved_segments(seg).len()
            == 0,
        seg.len() > 0 && seg != seq!['.'] && seg != seq!['.', '.'] ==> resolved_segments(seg)
            == seq![seg],
{
    reveal_strlit(".");
    reveal_strlit("..");
    assert("."@ =~= seq!['.']);
    assert(".."@ =~= seq!['.', '.']);
    let e = Seq::<Seq<char>>::empty();
    let z = Seq::<char>::empty();
    lemma_resolve_is_read(seg, e, z);
    lemma_read_plain(seg, e, z);
    assert(z + seg =~= seg);
    assert(e.push(seg) =~= seq![seg]);
}

} // verus!

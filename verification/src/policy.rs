//! The typed decision: what a check answers, why, and the short token a hook line carries.

use vstd::prelude::*;

verus! {

/// What the policy says of a command line.
#[derive(Clone, Copy, Debug, PartialEq, Eq, Structural)]
pub enum Decision {
    Allow,
    Deny,
    Prompt,
}

/// Why the policy decided as it did.
#[derive(Clone, Copy, Debug, PartialEq, Eq, Structural)]
pub enum PolicyReason {
    Unspecified,
    InvalidMessage,
    ShellPrivilegeDenied,
    ShellRemoteExec,
    ShellGitDangerous,
    ShellDangerousRunner,
    ShellSecretInArgv,
    PythonRequiresUvRun,
    PythonDashCDenied,
    PackMissing,
    PackLoadFailed,
    PackBadResult,
    PackRuntimeError,
    ToolsDefaultDeny,
    PathOutsideWorkspace,
    ShellViewBuildFailed,
}

/// A typed answer of a check, with its decision, its reason code and a stable token.
pub struct Checked {
    pub decision: Decision,
    pub code: PolicyReason,
    pub token: &'static str,
}

impl View for Checked {
    type V = (Decision, PolicyReason, Seq<char>);

    open spec fn view(&self) -> (Decision, PolicyReason, Seq<char>) {
        (self.decision, self.code, self.token@)
    }
}

/// A reason code says that the policy library actually ran a pack against the
/// command line (it was seated), rather than failing to load or run one.
pub open spec fn is_seated_code(code: PolicyReason) -> bool {
    !(code is PackMissing || code is PackLoadFailed || code is PackBadResult
        || code is PackRuntimeError || code is ToolsDefaultDeny || code is InvalidMessage
        || code is PathOutsideWorkspace || code is ShellViewBuildFailed)
}

/// Whether the answer of the policy library came from a seated pack.
pub fn seated(c: &Checked) -> (r: bool)
    ensures
        r == is_seated_code(c.code),
        !r <==> (c.code == PolicyReason::PackMissing || c.code == PolicyReason::PackLoadFailed
            || c.code == PolicyReason::PackBadResult || c.code == PolicyReason::PackRuntimeError
            || c.code == PolicyReason::ToolsDefaultDeny || c.code == PolicyReason::InvalidMessage
            || c.code == PolicyReason::PathOutsideWorkspace || c.code
            == PolicyReason::ShellViewBuildFailed),
{
    match c.code {
        PolicyReason::PackMissing
        | PolicyReason::PackLoadFailed
        | PolicyReason::PackBadResult
        | PolicyReason::PackRuntimeError
        | PolicyReason::ToolsDefaultDeny
        | PolicyReason::InvalidMessage
        | PolicyReason::PathOutsideWorkspace
        | PolicyReason::ShellViewBuildFailed => false,
        _ => true,
    }
}

/// The stable token for a reason code; every code without a token of its own
/// reads `phronesis`.
pub open spec fn reason_token(code: PolicyReason) -> Seq<char> {
    match code {
        PolicyReason::InvalidMessage => "invalid-message"@,
        PolicyReason::ShellPrivilegeDenied => "sudo"@,
        PolicyReason::ShellRemoteExec => "curl-pipe-shell"@,
        PolicyReason::ShellGitDangerous => "git-force-push"@,
        PolicyReason::ShellDangerousRunner => "banned-runner"@,
        PolicyReason::ShellSecretInArgv => "secret-in-argv"@,
        PolicyReason::PythonRequiresUvRun => "python-requires-uv"@,
        PolicyReason::PythonDashCDenied => "python-dash-c"@,
        PolicyReason::PackMissing => "pack-missing"@,
        PolicyReason::ToolsDefaultDeny => "tools-default-deny"@,
        _ => "phronesis"@,
    }
}

/// Every reason code has a token, so a hook line never ends in an empty token.
pub proof fn law_reason_tokens_are_not_empty(code: PolicyReason)
    ensures
        reason_token(code).len() > 0,
{
    reveal_strlit("invalid-message");
    reveal_strlit("sudo");
    reveal_strlit("curl-pipe-shell");
    reveal_strlit("git-force-push");
    reveal_strlit("banned-runner");
    reveal_strlit("secret-in-argv");
    reveal_strlit("python-requires-uv");
    reveal_strlit("python-dash-c");
    reveal_strlit("pack-missing");
    reveal_strlit("tools-default-deny");
    reveal_strlit("phronesis");
}

/// The token for a reason code. Text that a pack wrote (`reason`) is not
/// `'static`, so it never becomes the token: codes without a token of their own
/// read `phronesis` whatever `reason` holds.
pub fn token_for(code: PolicyReason, reason: &str) -> (r: &'static str)
    ensures
        r@ == reason_token(code),
{
    match code {
        PolicyReason::InvalidMessage => "invalid-message",
        PolicyReason::ShellPrivilegeDenied => "sudo",
        PolicyReason::ShellRemoteExec => "curl-pipe-shell",
        PolicyReason::ShellGitDangerous => "git-force-push",
        PolicyReason::ShellDangerousRunner => "banned-runner",
        PolicyReason::ShellSecretInArgv => "secret-in-argv",
        PolicyReason::PythonRequiresUvRun => "python-requires-uv",
        PolicyReason::PythonDashCDenied => "python-dash-c",
        PolicyReason::PackMissing => "pack-missing",
        PolicyReason::ToolsDefaultDeny => "tools-default-deny",
        _ => "phronesis",
    }
}

/// The typed verdict for a decoded answer of the policy library: its decision
/// and code as they came, and the token of the code.
pub fn decision_from_reply(decision: Decision, code: PolicyReason, reason: &str) -> (r: Checked)
    ensures
        r@ == (decision, code, reason_token(code)),
{
    Checked { decision, code, token: token_for(code, reason) }
}

} // verus!

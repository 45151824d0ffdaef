//! The Suricata control bridge: the fixed argument vectors handed to the
//! container-exec helper for the `uptime`, `reload-rules`, `ruleset-stats`
//! and `iface-stat` control commands, the interface-name guard that stops
//! command injection, and the classification of what the helper came back
//! with. Spawning the helper and collecting its output stay with the caller.

use vstd::prelude::*;

verus! {

/// The full argument vector of one helper invocation: the container runtime,
/// its `exec` subcommand, the container, the control client, and the control
/// command.
pub open spec fn helper_argv(control: Seq<char>) -> Seq<Seq<char>> {
    seq!["docker"@, "exec"@, "suricata"@, "suricatasc"@, "-c"@, control]
}

fn argv_with(control: String) -> (r: Vec<String>)
    ensures
        r@.map_values(|s: String| s@) == helper_argv(control@),
{
    let mut r: Vec<String> = Vec::new();
    r.push(String::from_str("docker"));
    r.push(String::from_str("exec"));
    r.push(String::from_str("suricata"));
    r.push(String::from_str("suricatasc"));
    r.push(String::from_str("-c"));
    r.push(control);
    proof {
        assert(r@.map_values(|s: String| s@) =~~= helper_argv(r@[5]@));
    }
    r
}

/// The helper invocation behind `status()`.
pub fn status_command() -> (r: Vec<String>)
    ensures
        r@.map_values(|s: String| s@) == helper_argv("uptime"@),
{
    argv_with(String::from_str("uptime"))
}

/// The helper invocation behind `reload_rules()`.
pub fn reload_rules_command() -> (r: Vec<String>)
    ensures
        r@.map_values(|s: String| s@) == helper_argv("reload-rules"@),
{
    argv_with(String::from_str("reload-rules"))
}

/// The helper invocation behind `rule_statistics()`.
pub fn ruleset_stats_command() -> (r: Vec<String>)
    ensures
        r@.map_values(|s: String| s@) == helper_argv("ruleset-stats"@),
{
    argv_with(String::from_str("ruleset-stats"))
}

/// A character an interface name may hold.
pub open spec fn interface_char(c: char) -> bool {
    ||| ('a' <= c && c <= 'z')
    ||| ('A' <= c && c <= 'Z')
    ||| ('0' <= c && c <= '9')
    ||| c == '_'
    ||| c == '-'
}

/// An acceptable interface name: non-empty, and nothing outside
/// `[A-Za-z0-9_-]`.
pub open spec fn valid_interface(s: Seq<char>) -> bool {
    s.len() > 0 && (forall|i: int| 0 <= i < s.len() ==> interface_char(s[i]))
}

/// The command-injection guard: is this interface name safe to hand to the
/// helper?
pub fn valid_interface_name(s: &str) -> (r: bool)
    ensures
        r == valid_interface(s@),
{
    let n: usize = s.unicode_len();
    if n == 0 {
        return false;
    }
    let mut i: usize = 0;
    while i < n
        invariant
            n == s@.len(),
            i <= n,
            forall|j: int| 0 <= j < i ==> interface_char(s@[j]),
        decreases n - i,
    {
        let c = s.get_char(i);
        let ok = ('a' <= c && c <= 'z') || ('A' <= c && c <= 'Z') || ('0' <= c && c <= '9') || c
            == '_' || c == '-';
        if !ok {
            return false;
        }
        i = i + 1;
    }
    true
}

/// The helper invocation behind `interface_statistics()`: refused, without
/// any invocation, for a name with a character outside `[A-Za-z0-9_-]` or an
/// empty one; otherwise the `iface-stat` command for that interface.
pub fn interface_stats_command(interface: &str) -> (r: Result<Vec<String>, String>)
    ensures
        r is Ok <==> valid_interface(interface@),
        r matches Ok(args) ==> args@.map_values(|s: String| s@) == helper_argv(
            "iface-stat "@ + interface@,
        ),
        r matches Err(m) ==> m@ == "Invalid interface name"@,
{
    if !valid_interface_name(interface) {
        return Err(String::from_str("Invalid interface name"));
    }
    let control = String::from_str("iface-stat ").concat(interface);
    Ok(argv_with(control))
}

/// How one helper invocation ended, as the caller saw it: it could not be
/// spawned, or it finished with an exit status and streams that decoded as
/// UTF-8 or did not.
pub enum ExecOutcome {
    /// The helper process could not be started; the operating system's
    /// message.
    SpawnFailed { message: String },
    /// The helper ran to an exit status.
    Finished {
        /// Whether the exit status was success (code zero).
        success: bool,
        /// The exit status, rendered.
        status: String,
        /// Standard output decoded as UTF-8, `None` when it did not decode.
        stdout: Option<String>,
        /// Standard error decoded as UTF-8, `None` when it did not decode.
        stderr: Option<String>,
    },
}

/// The stderr text an undecodable stream reports.
pub open spec fn stderr_fallback() -> Seq<char> {
    "Failed to decode stderr output"@
}

/// Classify a helper outcome: exit code zero yields the decoded standard
/// output; a non-zero exit reports the status and the decoded standard
/// error; a spawn failure reports the operating system's message; output
/// that does not decode reports a decode error.
pub fn classify_exec_outcome(outcome: ExecOutcome) -> (r: Result<String, String>)
    ensures
        outcome matches ExecOutcome::SpawnFailed { message } ==> (r matches Err(m) && m@
            == "Failed to execute command: "@ + message@),
        (outcome matches ExecOutcome::Finished { success: true, stdout: Some(s), .. } ==> (
        r matches Ok(o) && o@ == s@)),
        (outcome matches ExecOutcome::Finished { success: true, stdout: None, .. } ==> (r matches
            Err(m) && m@ == "Failed to decode command output"@)),
        (outcome matches ExecOutcome::Finished { success: false, status, stderr: Some(e), .. }
            ==> (r matches Err(m) && m@ == "Command failed with status: "@ + status@ + " ("@ + e@
            + ")"@)),
        (outcome matches ExecOutcome::Finished { success: false, status, stderr: None, .. } ==> (
        r matches Err(m) && m@ == "Command failed with status: "@ + status@ + " ("@
            + stderr_fallback() + ")"@)),
{
    match outcome {
        ExecOutcome::SpawnFailed { message } => {
            Err(String::from_str("Failed to execute command: ").concat(message.as_str()))
        },
        ExecOutcome::Finished { success, status, stdout, stderr } => {
            if success {
                match stdout {
                    Some(s) => Ok(s),
                    None => Err(String::from_str("Failed to decode command output")),
                }
            } else {
                let err_text = match stderr {
                    Some(e) => e,
                    None => String::from_str("Failed to decode stderr output"),
                };
                Err(
                    String::from_str("Command failed with status: ").concat(status.as_str()).concat(
                        " (",
                    ).concat(err_text.as_str()).concat(")"),
                )
            }
        },
    }
}

} // verus!

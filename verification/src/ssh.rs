//! The arguments of the `ssh` and `scp` commands.

use vstd::prelude::*;

use crate::text;

verus! {

/// How many seconds a connection may take to come about.
pub const SSH_TIMEOUT: usize = 30;

/// The options that every call needs: a bounded time to connect, and no prompt,
/// which nobody could answer.
pub open spec fn options() -> Seq<Seq<char>> {
    seq![
        "-o"@,
        "ConnectTimeout="@ + text::decimal(SSH_TIMEOUT as nat),
        "-o"@,
        "BatchMode=yes"@,
    ]
}

/// The options of every `ssh` and `scp` call.
pub fn ssh_cmd() -> (r: Vec<String>)
    ensures
        text::texts(r@) == options(),
{
    let mut timeout = "ConnectTimeout=".to_owned();
    text::push_decimal(&mut timeout, SSH_TIMEOUT);
    let mut out: Vec<String> = Vec::new();
    out.push("-o".to_owned());
    out.push(timeout);
    out.push("-o".to_owned());
    out.push("BatchMode=yes".to_owned());
    assert(text::texts(out@) == options());
    out
}

/// The arguments of `ssh` that run a command on a host.
pub fn run_ssh(alias: &str, remote_cmd: &str) -> (r: Vec<String>)
    ensures
        text::texts(r@) == options() + seq![alias@, remote_cmd@],
{
    let mut out = ssh_cmd();
    let ghost head = out@;
    out.push(alias.to_owned());
    out.push(remote_cmd.to_owned());
    assert(text::texts(out@) == text::texts(head) + seq![alias@, remote_cmd@]);
    out
}

/// The target of `scp` for a path on a host. The path is taken literally, not by
/// a shell, so that it is not quoted: quotes would become part of the file name.
pub fn run_scp(alias: &str, remote: &str) -> (r: String)
    ensures
        r@ == alias@ + seq![':'] + remote@,
{
    let mut out = alias.to_owned();
    out.push(':');
    out.append(remote);
    out
}

} // verus!

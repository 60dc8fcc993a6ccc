//! Local shell sessions: the checks on a shell's arguments, the choice of
//! the default shell program, and the reason given when the shell process
//! ends. Spawning the process and reading the environment and the file
//! system happen outside.
use vstd::prelude::*;
use crate::agent_auth::texts;
use crate::text::{decimal, push_str, trim, trim_string, u64_to_decimal};

verus! {

/// The first problem of the arguments from `start` on: one holding a NUL,
/// or one longer than `max_characters`; arguments are counted from one.
pub open spec fn shell_arguments_error(args: Seq<Seq<char>>, start: int, max_characters: nat) -> Option<
    Seq<char>,
>
    decreases args.len() - start,
{
    if start < 0 || start >= args.len() {
        None
    } else if args[start].contains('\0') {
        Some("Shell 参数 "@ + decimal((start + 1) as nat) + " 不能包含 NUL"@)
    } else if args[start].len() > max_characters {
        Some(
            "Shell 参数 "@ + decimal((start + 1) as nat) + " 超过 "@ + decimal(max_characters) + " 个字符"@,
        )
    } else {
        shell_arguments_error(args, start + 1, max_characters)
    }
}

fn has_nul(s: &str) -> (r: bool)
    ensures
        r == s@.contains('\0'),
{
    let v = crate::text::to_chars(s);
    let mut i: usize = 0;
    while i < v.len()
        invariant
            i <= v@.len(),
            v@ == s@,
            forall|j: int| 0 <= j < i ==> v@[j] != '\0',
        decreases v@.len() - i,
    {
        if v[i] == '\0' {
            assert(s@[i as int] == '\0');
            return true;
        }
        i = i + 1;
    }
    false
}

/// Checks the arguments of a shell against the limits on their number and
/// on the characters of each.
pub fn validate_shell_arguments(args: &Vec<String>, max_arguments: usize, max_argument_characters: usize) -> (r:
    Result<(), String>)
    ensures
        args@.len() > max_arguments ==> (r matches Err(e) && e@ == "Shell 参数数量超过 "@ + decimal(
            max_arguments as nat,
        )),
        args@.len() <= max_arguments ==> match shell_arguments_error(texts(args@), 0, max_argument_characters as nat) {
            None => r is Ok,
            Some(m) => r matches Err(e) && e@ == m,
        },
{
    if args.len() > max_arguments {
        let mut e = String::from_str("Shell 参数数量超过 ");
        let n = u64_to_decimal(max_arguments as u64);
        push_str(&mut e, n.as_str());
        return Err(e);
    }
    let mut i: usize = 0;
    while i < args.len()
        invariant
            i <= args@.len(),
            args@.len() <= max_arguments,
            shell_arguments_error(texts(args@), 0, max_argument_characters as nat) == shell_arguments_error(
                texts(args@),
                i as int,
                max_argument_characters as nat,
            ),
        decreases args@.len() - i,
    {
        let a = args[i].as_str();
        assert(texts(args@)[i as int] == a@);
        let nul = has_nul(a);
        let count = crate::text::to_chars(a).len();
        if nul || count > max_argument_characters {
            let mut e = String::from_str("Shell 参数 ");
            let index = u64_to_decimal(i as u64 + 1);
            push_str(&mut e, index.as_str());
            if nul {
                push_str(&mut e, " 不能包含 NUL");
            } else {
                push_str(&mut e, " 超过 ");
                let max = u64_to_decimal(max_argument_characters as u64);
                push_str(&mut e, max.as_str());
                push_str(&mut e, " 个字符");
            }
            return Err(e);
        }
        i = i + 1;
    }
    Ok(())
}

/// How the shell process ended: by a signal, named, or with an exit code.
pub open spec fn exit_reason(program: Seq<char>, signal: Option<Seq<char>>, exit_code: u32) -> Seq<char> {
    match signal {
        Some(s) => "shell process exited by signal "@ + s + " ("@ + program + ")"@,
        None => "shell process exited with status "@ + decimal(exit_code as nat) + " ("@ + program + ")"@,
    }
}

/// The reason a session ends when its shell process exited.
pub fn shell_exit_status_disconnect_reason(program: &str, signal: Option<&str>, exit_code: u32) -> (r: String)
    ensures
        r@ == exit_reason(
            program@,
            match signal {
                Some(s) => Some(s@),
                None => None,
            },
            exit_code,
        ),
{
    match signal {
        Some(s) => {
            let mut r = String::from_str("shell process exited by signal ");
            push_str(&mut r, s);
            push_str(&mut r, " (");
            push_str(&mut r, program);
            push_str(&mut r, ")");
            r
        },
        None => {
            let mut r = String::from_str("shell process exited with status ");
            let code = u64_to_decimal(exit_code as u64);
            push_str(&mut r, code.as_str());
            push_str(&mut r, " (");
            push_str(&mut r, program);
            push_str(&mut r, ")");
            r
        },
    }
}

/// What asking for the shell process's state gave.
#[derive(Clone, Debug, PartialEq, Eq)]
pub enum ShellChildState {
    /// The lock on the process could not be taken.
    LockFailed(String),
    /// The process is still running.
    Running,
    /// The process exited, by a signal or with an exit code.
    Exited { signal: Option<String>, exit_code: u32 },
    /// Its state could not be read.
    QueryFailed(String),
}

/// The reason to end the session, if the shell process no longer runs or
/// its state cannot be known.
pub fn shell_child_disconnect_reason(state: &ShellChildState, program: &str) -> (r: Option<String>)
    ensures
        match *state {
            ShellChildState::LockFailed(error) => r matches Some(m) && m@
                == "shell process status lock failed on "@ + program@ + ": "@ + error@,
            ShellChildState::Running => r is None,
            ShellChildState::Exited { signal, exit_code } => r matches Some(m) && m@ == exit_reason(
                program@,
                match signal {
                    Some(s) => Some(s@),
                    None => None,
                },
                exit_code,
            ),
            ShellChildState::QueryFailed(error) => r matches Some(m) && m@
                == "shell process status query failed on "@ + program@ + ": "@ + error@,
        },
{
    match state {
        ShellChildState::LockFailed(error) => {
            let mut m = String::from_str("shell process status lock failed on ");
            push_str(&mut m, program);
            push_str(&mut m, ": ");
            push_str(&mut m, error.as_str());
            Some(m)
        },
        ShellChildState::Running => None,
        ShellChildState::Exited { signal, exit_code } => {
            let s = match signal {
                Some(s) => Some(s.as_str()),
                None => None,
            };
            Some(shell_exit_status_disconnect_reason(program, s, *exit_code))
        },
        ShellChildState::QueryFailed(error) => {
            let mut m = String::from_str("shell process status query failed on ");
            push_str(&mut m, program);
            push_str(&mut m, ": ");
            push_str(&mut m, error.as_str());
            Some(m)
        },
    }
}

/// The shells looked for, in order, when `SHELL` names none.
pub open spec fn unix_shell_candidates() -> Seq<Seq<char>> {
    seq![
        "/bin/zsh"@,
        "/usr/bin/zsh"@,
        "/usr/local/bin/zsh"@,
        "/opt/homebrew/bin/zsh"@,
        "/bin/bash"@,
        "/usr/bin/bash"@,
    ]
}

/// The first candidate from `k` on that exists, or `/bin/sh`.
pub open spec fn first_existing_shell(exists: Seq<bool>, k: int) -> Seq<char>
    decreases 6 - k,
{
    if k < 0 || k >= 6 {
        "/bin/sh"@
    } else if k < exists.len() && exists[k] {
        unix_shell_candidates()[k]
    } else {
        first_existing_shell(exists, k + 1)
    }
}

/// The default shell program: on Windows `COMSPEC` or `cmd.exe`; elsewhere
/// `SHELL` when it names something, else the first of the usual shells that
/// exists (`candidate_exists` tells which do, in the order of
/// `unix_shell_candidates`), else `/bin/sh`.
pub open spec fn default_shell(
    windows: bool,
    comspec: Option<Seq<char>>,
    shell: Option<Seq<char>>,
    candidate_exists: Seq<bool>,
) -> Seq<char> {
    if windows {
        match comspec {
            Some(c) => c,
            None => "cmd.exe"@,
        }
    } else {
        match shell {
            Some(s) if trim(s).len() > 0 => trim(s),
            _ => first_existing_shell(candidate_exists, 0),
        }
    }
}

pub fn default_shell_program(
    windows: bool,
    comspec: Option<&str>,
    shell: Option<&str>,
    candidate_exists: &Vec<bool>,
) -> (r: String)
    ensures
        r@ == default_shell(
            windows,
            match comspec {
                Some(c) => Some(c@),
                None => None,
            },
            match shell {
                Some(s) => Some(s@),
                None => None,
            },
            candidate_exists@,
        ),
{
    if windows {
        return match comspec {
            Some(c) => String::from_str(c),
            None => String::from_str("cmd.exe"),
        };
    }
    if let Some(s) = shell {
        let t = trim_string(s);
        if crate::text::to_chars(t.as_str()).len() > 0 {
            return t;
        }
    }
    let mut k: usize = 0;
    while k < 6
        invariant
            k <= 6,
            !windows,
            shell is None || trim(shell->0@).len() == 0,
            first_existing_shell(candidate_exists@, 0) == first_existing_shell(candidate_exists@, k as int),
        decreases 6 - k,
    {
        if k < candidate_exists.len() && candidate_exists[k] {
            assert(first_existing_shell(candidate_exists@, k as int) == unix_shell_candidates()[k as int]);
            return match k {
                0 => String::from_str("/bin/zsh"),
                1 => String::from_str("/usr/bin/zsh"),
                2 => String::from_str("/usr/local/bin/zsh"),
                3 => String::from_str("/opt/homebrew/bin/zsh"),
                4 => String::from_str("/bin/bash"),
                _ => String::from_str("/usr/bin/bash"),
            };
        }
        k = k + 1;
    }
    String::from_str("/bin/sh")
}

} // verus!

//! Errors that a build can end with.

use vstd::prelude::*;
use vstd::string::StringExecFns;

verus! {

/// A line from the log output of a build.
#[derive(Clone, Debug)]
pub struct LogLine {
    pub line: String,
}

impl LogLine {
    /// Wraps one line of log output.
    pub fn from(line: String) -> (r: LogLine)
        ensures
            r.line@ == line@,
    {
        LogLine { line }
    }

    /// The text of the line.
    pub fn as_str(&self) -> (r: &str)
        ensures
            r@ == self.line@,
    {
        self.line.as_str()
    }
}

/// An error that can occur during a build.
#[derive(Clone, Debug)]
pub enum BuildError {
    /// A system-level I/O error occurred during the build.
    Io {
        /// Message of the underlying error.
        msg: String,
    },
    /// The build tool could not be spawned (usually: not on the `$PATH`).
    Spawn {
        /// The command that failed, as it would be shown to a user.
        cmd: String,
        /// Message of the underlying error.
        msg: String,
    },
    /// The build tool ran and exited unsuccessfully.
    Exit {
        /// The command that failed, as it would be shown to a user.
        cmd: String,
        /// The exit code, if the process exited with one.
        status: Option<i32>,
        /// Error logs of the failed process.
        logs: Vec<LogLine>,
    },
    /// The build tool succeeded, but its output had an unexpected shape.
    Output {
        /// What was wrong with the output.
        msg: String,
    },
}

/// Whether an error is one the user can remedy (true) or a fault of the
/// daemon's own plumbing (false).
pub open spec fn actionable(e: BuildError) -> bool {
    !(e is Io)
}

impl BuildError {
    /// Smart constructor for `BuildError::Io`, from the rendered message.
    pub fn io(msg: String) -> (r: BuildError)
        ensures
            r == (BuildError::Io { msg }),
    {
        BuildError::Io { msg }
    }

    /// Smart constructor for `BuildError::Spawn`, from the rendered command
    /// and message.
    pub fn spawn(cmd: String, msg: String) -> (r: BuildError)
        ensures
            r == (BuildError::Spawn { cmd, msg }),
    {
        BuildError::Spawn { cmd, msg }
    }

    /// Smart constructor for `BuildError::Exit`. The exit status must not be
    /// a successful one: a process that exited with code 0 did not fail.
    pub fn exit(cmd: String, status: Option<i32>, logs: Vec<String>) -> (r: BuildError)
        requires
            status != Some(0i32),
        ensures
            r is Exit,
            r->Exit_cmd == cmd,
            r->Exit_status == status,
            r->Exit_logs@.len() == logs@.len(),
            forall|i: int|
                0 <= i < logs@.len() ==> (#[trigger] r->Exit_logs@[i]).line@ == logs@[i]@,
    {
        let mut lines: Vec<LogLine> = Vec::new();
        let mut i: usize = 0;
        while i < logs.len()
            invariant
                i <= logs@.len(),
                lines@.len() == i,
                forall|j: int| 0 <= j < i ==> (#[trigger] lines@[j]).line@ == logs@[j]@,
            decreases logs@.len() - i,
        {
            lines.push(LogLine::from(logs[i].clone()));
            i = i + 1;
        }
        BuildError::Exit { cmd, status, logs: lines }
    }

    /// Smart constructor for `BuildError::Output`.
    pub fn output(msg: String) -> (r: BuildError)
        ensures
            r == (BuildError::Output { msg }),
    {
        BuildError::Output { msg }
    }

    /// Is there something the user can do about this error?
    pub fn is_actionable(&self) -> (r: bool)
        ensures
            r == actionable(*self),
    {
        match self {
            BuildError::Io { .. } => false,
            BuildError::Spawn { .. } => true,
            BuildError::Exit { .. } => true,
            BuildError::Output { .. } => true,
        }
    }
}

/// The decimal digit `d`, for `0 <= d < 10`.
pub open spec fn digit_char(d: int) -> char {
    if d == 0 {
        '0'
    } else if d == 1 {
        '1'
    } else if d == 2 {
        '2'
    } else if d == 3 {
        '3'
    } else if d == 4 {
        '4'
    } else if d == 5 {
        '5'
    } else if d == 6 {
        '6'
    } else if d == 7 {
        '7'
    } else if d == 8 {
        '8'
    } else {
        '9'
    }
}

/// The decimal digits of `n`, without leading zeros.
pub open spec fn digits(n: nat) -> Seq<char>
    decreases n,
{
    if n < 10 {
        seq![digit_char(n as int)]
    } else {
        digits(n / 10).push(digit_char(n as int % 10))
    }
}

/// `n` written in decimal, with a leading `-` where it is negative.
pub open spec fn decimal(n: int) -> Seq<char> {
    if n < 0 {
        seq!['-'] + digits((-n) as nat)
    } else {
        digits(n as nat)
    }
}

/// The lines of `logs`, each ended by a newline but the last.
pub open spec fn joined(logs: Seq<LogLine>) -> Seq<char>
    decreases logs.len(),
{
    if logs.len() == 0 {
        seq![]
    } else if logs.len() == 1 {
        logs[0].line@
    } else {
        joined(logs.drop_last()) + "\n"@ + logs.last().line@
    }
}

/// The diagnostic shown to a user for `e`.
pub open spec fn diagnostic(e: BuildError) -> Seq<char> {
    match e {
        BuildError::Io { msg } => "I/O error: "@ + msg@,
        BuildError::Spawn { cmd, msg } => "failed to spawn Nix process. Is Nix installed and on the $PATH?\n$ "@
            + cmd@ + "\n"@ + msg@,
        BuildError::Exit { cmd, status, logs } => "Nix process returned exit code "@ + match status {
            Some(c) => decimal(c as int),
            None => "<unknown>"@,
        } + ".\n$ "@ + cmd@ + "\n"@ + joined(logs@),
        BuildError::Output { msg } => msg@,
    }
}

/// The decimal digit `d` as a string.
fn digit_str(d: u32) -> (r: &'static str)
    requires
        d < 10,
    ensures
        r@ == seq![digit_char(d as int)],
{
    proof {
        reveal_strlit("0");
        reveal_strlit("1");
        reveal_strlit("2");
        reveal_strlit("3");
        reveal_strlit("4");
        reveal_strlit("5");
        reveal_strlit("6");
        reveal_strlit("7");
        reveal_strlit("8");
        reveal_strlit("9");
    }
    match d {
        0 => "0",
        1 => "1",
        2 => "2",
        3 => "3",
        4 => "4",
        5 => "5",
        6 => "6",
        7 => "7",
        8 => "8",
        _ => "9",
    }
}

/// Appends the decimal digits of `n` to `out`.
fn push_digits(out: &mut String, n: u32)
    ensures
        final(out)@ == old(out)@ + digits(n as nat),
    decreases n,
{
    if n >= 10 {
        push_digits(out, n / 10);
    }
    out.append(digit_str(n % 10));
    assert(n < 10 ==> (n as nat) < 10);
}

/// `n` written in decimal.
pub fn decimal_string(n: i32) -> (r: String)
    ensures
        r@ == decimal(n as int),
{
    let mut out = String::new();
    if n < 0 {
        out.append("-");
        proof {
            reveal_strlit("-");
        }
        let m: u32 = (-(n as i64)) as u32;
        push_digits(&mut out, m);
    } else {
        push_digits(&mut out, n as u32);
    }
    out
}

impl BuildError {
    /// The diagnostic shown to a user for this error.
    pub fn describe(&self) -> (r: String)
        ensures
            r@ == diagnostic(*self),
    {
        proof {
            reveal_strlit("I/O error: ");
            reveal_strlit("failed to spawn Nix process. Is Nix installed and on the $PATH?\n$ ");
            reveal_strlit("\n");
            reveal_strlit("Nix process returned exit code ");
            reveal_strlit("<unknown>");
            reveal_strlit(".\n$ ");
        }
        match self {
            BuildError::Io { msg } => String::from_str("I/O error: ").concat(msg.as_str()),
            BuildError::Spawn { cmd, msg } => {
                let mut out = String::from_str(
                    "failed to spawn Nix process. Is Nix installed and on the $PATH?\n$ ",
                );
                out.append(cmd.as_str());
                out.append("\n");
                out.append(msg.as_str());
                out
            },
            BuildError::Exit { cmd, status, logs } => {
                let mut out = String::from_str("Nix process returned exit code ");
                match status {
                    Some(c) => {
                        let d = decimal_string(*c);
                        out.append(d.as_str());
                    },
                    None => out.append("<unknown>"),
                }
                out.append(".\n$ ");
                out.append(cmd.as_str());
                out.append("\n");
                let mut i: usize = 0;
                let ghost pre = out@;
                while i < logs.len()
                    invariant
                        i <= logs@.len(),
                        out@ == pre + joined(logs@.take(i as int)),
                    decreases logs@.len() - i,
                {
                    if i > 0 {
                        out.append("\n");
                    }
                    out.append(logs[i].line.as_str());
                    proof {
                        let t = logs@.take(i + 1);
                        assert(t.drop_last() =~= logs@.take(i as int));
                        if i == 0 {
                            assert(joined(logs@.take(0)) =~= seq![]);
                        }
                    }
                    i = i + 1;
                }
                assert(logs@.take(logs@.len() as int) =~= logs@);
                out
            },
            BuildError::Output { msg } => msg.clone(),
        }
    }
}

} // verus!

//! The results of running a script, and a scripted runner that stands in for
//! PowerShell: it records every call, answers with canned output, and streams canned
//! lines one at a time, pausing where told until it is released or killed.

use vstd::prelude::*;
use crate::script::lock::{lines_of, split_lines};
use crate::text::{chars_of, string_of};

verus! {

/// What a finished script left behind.
#[derive(Debug, Clone, PartialEq, Eq)]
pub struct ScriptOutput {
    pub exit_code: i32,
    pub stdout: String,
    pub stderr: String,
}

impl ScriptOutput {
    /// Exit code 0.
    pub fn succeeded(&self) -> (r: bool)
        ensures
            r == (self.exit_code == 0),
    {
        self.exit_code == 0
    }
}

/// The exit code a killed script reports.
pub const KILLED_EXIT_CODE: i32 = 1;

/// A runner with canned answers.
#[derive(Debug)]
pub struct FakeScriptRunner {
    /// What `run` answers, and what `start` streams when no lines were given.
    pub output: ScriptOutput,
    /// Every call, in order: the script and its arguments.
    pub calls: Vec<(String, Vec<String>)>,
    /// The lines `start` streams and the exit code it reports, when given.
    pub stream: Option<(Vec<String>, i32)>,
    /// The number of lines after which a started script waits to be released or killed.
    pub pause_after: Option<usize>,
}

/// What a paused script waits on: released, it goes on; killed, it stops.
#[derive(Debug, Clone, Copy, PartialEq, Eq, Default)]
pub struct Gate {
    pub released: bool,
    pub killed: bool,
}

impl Gate {
    /// Lets a paused script go on.
    pub fn release(&mut self)
        ensures
            final(self).released,
            final(self).killed == old(self).killed,
    {
        self.released = true;
    }

    /// Kills the script.
    pub fn kill(&mut self)
        ensures
            final(self).killed,
            final(self).released == old(self).released,
    {
        self.killed = true;
    }

    pub fn killed(&self) -> (r: bool)
        ensures
            r == self.killed,
    {
        self.killed
    }

    /// What a wait ends in, once the script is released or killed: whether it was
    /// killed.
    pub fn wait(&self) -> (r: bool)
        requires
            self.released || self.killed,
        ensures
            r == self.killed,
    {
        self.killed
    }
}

/// A started script of the scripted runner.
#[derive(Debug)]
pub struct FakeRunningScript {
    pub lines: Vec<String>,
    /// How many lines have been delivered.
    pub delivered: usize,
    pub exit_code: i32,
    pub pause_after: Option<usize>,
    pub gate: Gate,
}

fn copy_args(args: &[String]) -> (r: Vec<String>)
    ensures
        r@ == args@,
{
    let mut r: Vec<String> = Vec::new();
    let mut i: usize = 0;
    while i < args.len()
        invariant
            i <= args.len(),
            r@ == args@.take(i as int),
        decreases args.len() - i,
    {
        r.push(args[i].clone());
        assert(args@.take(i + 1) == args@.take(i as int).push(args@[i as int]));
        i = i + 1;
    }
    assert(args@.take(args.len() as int) == args@);
    r
}

fn copy_output(o: &ScriptOutput) -> (r: ScriptOutput)
    ensures
        r == *o,
{
    ScriptOutput { exit_code: o.exit_code, stdout: o.stdout.clone(), stderr: o.stderr.clone() }
}

fn copy_lines(v: &Vec<String>) -> (r: Vec<String>)
    ensures
        r@ == v@,
{
    let mut r: Vec<String> = Vec::new();
    let mut i: usize = 0;
    while i < v.len()
        invariant
            i <= v.len(),
            r@ == v@.take(i as int),
        decreases v.len() - i,
    {
        r.push(v[i].clone());
        assert(v@.take(i + 1) == v@.take(i as int).push(v@[i as int]));
        i = i + 1;
    }
    assert(v@.take(v.len() as int) == v@);
    r
}

impl FakeScriptRunner {
    /// A runner whose scripts exit with 0 and print nothing.
    pub fn new() -> (r: FakeScriptRunner)
        ensures
            r.output.exit_code == 0,
            r.output.stdout@ == Seq::<char>::empty(),
            r.output.stderr@ == Seq::<char>::empty(),
            r.calls@.len() == 0,
            r.stream is None,
            r.pause_after is None,
    {
        Self::returning(ScriptOutput { exit_code: 0, stdout: String::new(), stderr: String::new() })
    }

    /// A runner whose scripts leave `output`.
    pub fn returning(output: ScriptOutput) -> (r: FakeScriptRunner)
        ensures
            r.output == output,
            r.calls@.len() == 0,
            r.stream is None,
            r.pause_after is None,
    {
        FakeScriptRunner { output, calls: Vec::new(), stream: None, pause_after: None }
    }

    /// A runner whose scripts exit with 0 and print `stdout`.
    pub fn with_stdout(stdout: &str) -> (r: FakeScriptRunner)
        ensures
            r.output.exit_code == 0,
            r.output.stdout@ == stdout@,
            r.output.stderr@ == Seq::<char>::empty(),
            r.calls@.len() == 0,
            r.stream is None,
            r.pause_after is None,
    {
        Self::returning(
            ScriptOutput { exit_code: 0, stdout: string_of(&chars_of(stdout)), stderr: String::new() },
        )
    }

    /// Replaces what `run` answers with `stdout` and exit code 0.
    pub fn set_stdout(&mut self, stdout: &str)
        ensures
            final(self).output.exit_code == 0,
            final(self).output.stdout@ == stdout@,
            final(self).output.stderr@ == Seq::<char>::empty(),
            final(self).calls == old(self).calls,
            final(self).stream == old(self).stream,
            final(self).pause_after == old(self).pause_after,
    {
        self.output = ScriptOutput {
            exit_code: 0,
            stdout: string_of(&chars_of(stdout)),
            stderr: String::new(),
        };
    }

    /// Started scripts stream `lines`, then report `exit_code`.
    pub fn streaming(self, lines: &[&str], exit_code: i32) -> (r: FakeScriptRunner)
        ensures
            r.output == self.output,
            r.calls == self.calls,
            r.pause_after == self.pause_after,
            r.stream matches Some((l, code)) && code == exit_code && l@.map_values(|s: String| s@)
                == lines@.map_values(|s: &str| s@),
    {
        let mut v: Vec<String> = Vec::new();
        let mut i: usize = 0;
        while i < lines.len()
            invariant
                i <= lines.len(),
                v@.map_values(|s: String| s@) == lines@.take(i as int).map_values(|s: &str| s@),
            decreases lines.len() - i,
        {
            let ghost prev = v@;
            v.push(string_of(&chars_of(lines[i])));
            assert(v@.map_values(|s: String| s@) =~= prev.map_values(|s: String| s@).push(lines@[i as int]@));
            assert(lines@.take(i + 1).map_values(|s: &str| s@) =~= lines@.take(i as int).map_values(
                |s: &str| s@,
            ).push(lines@[i as int]@));
            i = i + 1;
        }
        assert(lines@.take(lines.len() as int) == lines@);
        FakeScriptRunner {
            output: self.output,
            calls: self.calls,
            stream: Some((v, exit_code)),
            pause_after: self.pause_after,
        }
    }

    /// Started scripts wait after `lines` lines until released or killed.
    pub fn pausing_after(self, lines: usize) -> (r: FakeScriptRunner)
        ensures
            r.output == self.output,
            r.calls == self.calls,
            r.stream == self.stream,
            r.pause_after == Some(lines),
    {
        FakeScriptRunner {
            output: self.output,
            calls: self.calls,
            stream: self.stream,
            pause_after: Some(lines),
        }
    }

    /// Runs a script to the end: records the call and answers with the canned output.
    pub fn run(&mut self, script: &str, args: &[String]) -> (r: ScriptOutput)
        ensures
            r == old(self).output,
            final(self).output == old(self).output,
            final(self).stream == old(self).stream,
            final(self).pause_after == old(self).pause_after,
            final(self).calls@.len() == old(self).calls@.len() + 1,
            forall|i: int|
                0 <= i < old(self).calls@.len() ==> final(self).calls@[i] == old(self).calls@[i],
            final(self).calls@.last().0@ == script@,
            final(self).calls@.last().1@ == args@,
    {
        self.calls.push((string_of(&chars_of(script)), copy_args(args)));
        copy_output(&self.output)
    }

    /// Starts a script: records the call; the script streams the given lines, or else
    /// the lines of the canned standard output, and reports the matching exit code.
    pub fn start(&mut self, script: &str, args: &[String]) -> (r: FakeRunningScript)
        ensures
            final(self).output == old(self).output,
            final(self).stream == old(self).stream,
            final(self).pause_after == old(self).pause_after,
            final(self).calls@.len() == old(self).calls@.len() + 1,
            forall|i: int|
                0 <= i < old(self).calls@.len() ==> final(self).calls@[i] == old(self).calls@[i],
            final(self).calls@.last().0@ == script@,
            final(self).calls@.last().1@ == args@,
            r.delivered == 0,
            !r.gate.released,
            !r.gate.killed,
            r.pause_after == old(self).pause_after,
            match old(self).stream {
                Some((lines, code)) => r.lines@ == lines@ && r.exit_code == code,
                None => r.lines@.map_values(|l: String| l@) == lines_of(old(self).output.stdout@)
                    && r.exit_code == old(self).output.exit_code,
            },
    {
        self.calls.push((string_of(&chars_of(script)), copy_args(args)));
        let (lines, exit_code) = match &self.stream {
            Some((lines, code)) => (copy_lines(lines), *code),
            None => (split_lines(self.output.stdout.as_str()), self.output.exit_code),
        };
        FakeRunningScript {
            lines,
            delivered: 0,
            exit_code,
            pause_after: self.pause_after,
            gate: Gate { released: false, killed: false },
        }
    }
}

impl FakeRunningScript {
    /// Whether the script is waiting at its pause to be released or killed.
    pub open spec fn paused(&self) -> bool {
        self.pause_after == Some(self.delivered) && !self.gate.released && !self.gate.killed
    }

    /// The next line, or nothing once the lines run out or the script was killed. A
    /// script at its pause must be released or killed first: until then it waits.
    pub fn next_line(&mut self) -> (r: Option<String>)
        requires
            !old(self).paused(),
        ensures
            final(self).lines == old(self).lines,
            final(self).exit_code == old(self).exit_code,
            final(self).pause_after == old(self).pause_after,
            final(self).gate == old(self).gate,
            if old(self).gate.killed || old(self).delivered >= old(self).lines.len() {
                r is None && final(self).delivered == old(self).delivered
            } else {
                r == Some(old(self).lines@[old(self).delivered as int]) && final(self).delivered
                    == old(self).delivered + 1
            },
    {
        if self.pause_after == Some(self.delivered) && self.gate.wait() {
            return None;
        }
        if self.gate.killed() || self.delivered >= self.lines.len() {
            return None;
        }
        let line = self.lines[self.delivered].clone();
        self.delivered = self.delivered + 1;
        Some(line)
    }

    /// Lets a paused script go on.
    pub fn release(&mut self)
        ensures
            final(self).gate.released,
            final(self).gate.killed == old(self).gate.killed,
            final(self).lines == old(self).lines,
            final(self).delivered == old(self).delivered,
            final(self).exit_code == old(self).exit_code,
            final(self).pause_after == old(self).pause_after,
    {
        self.gate.release();
    }

    /// Kills the script: no more lines, and the killed exit code.
    pub fn cancel(&mut self)
        ensures
            final(self).gate.killed,
            final(self).gate.released == old(self).gate.released,
            final(self).lines == old(self).lines,
            final(self).delivered == old(self).delivered,
            final(self).exit_code == old(self).exit_code,
            final(self).pause_after == old(self).pause_after,
    {
        self.gate.kill();
    }

    /// The exit code: the killed one after a kill, else the scripted one.
    pub fn wait(self) -> (r: i32)
        ensures
            r == (if self.gate.killed {
                KILLED_EXIT_CODE
            } else {
                self.exit_code
            }),
    {
        if self.gate.killed() {
            KILLED_EXIT_CODE
        } else {
            self.exit_code
        }
    }
}

} // verus!

use crate::protocol::{
    all_lines, count_terminal, is_finished_stream, lemma_finished_stream_one_terminal, BuildMsg,
};
use vstd::prelude::*;

verus! {

/// One of the two output streams of a supervised process.
#[derive(PartialEq, Eq, Structural, Clone, Copy)]
pub enum Stream {
    Stdout,
    Stderr,
}

/// What an output reader observes: a line, or the end of its stream.
pub enum Event {
    Line(String),
    Closed(Stream),
}

/// Where a supervised process stands.
#[derive(PartialEq, Eq, Structural, Clone, Copy)]
pub enum Phase {
    /// Not spawned yet.
    Starting,
    /// Spawned; at least one output stream is still open.
    Running,
    /// Both output streams closed; waiting for the exit status.
    Waiting,
    /// The terminal message has been emitted.
    Finished,
}

/// The decisions of a process supervisor, driven by the events that the
/// worker observes (spawn outcome, output lines, closed streams, exit
/// status). Each method returns the message to forward, if any; `trace`
/// records every message forwarded so far.
pub struct Supervisor {
    pub phase: Phase,
    pub stdout_open: bool,
    pub stderr_open: bool,
    pub input_available: bool,
    pub trace: Ghost<Seq<BuildMsg>>,
}

impl Supervisor {
    pub open spec fn wf(&self) -> bool {
        &&& self.input_available ==> self.phase == Phase::Running
        &&& match self.phase {
            Phase::Starting => self.trace@.len() == 0,
            Phase::Running => all_lines(self.trace@) && (self.stdout_open || self.stderr_open),
            Phase::Waiting => all_lines(self.trace@) && !self.stdout_open && !self.stderr_open,
            Phase::Finished => is_finished_stream(self.trace@),
        }
    }

    pub fn new() -> (r: Supervisor)
        ensures
            r.wf(),
            r.phase == Phase::Starting,
            !r.input_available,
            r.trace@ == Seq::<BuildMsg>::empty(),
    {
        Supervisor {
            phase: Phase::Starting,
            stdout_open: false,
            stderr_open: false,
            input_available: false,
            trace: Ghost(Seq::empty()),
        }
    }

    /// The executable could not be started (or its preparation failed): the
    /// one terminal message of the task.
    pub fn spawn_failed(&mut self, reason: String) -> (r: BuildMsg)
        requires
            old(self).wf(),
            old(self).phase == Phase::Starting,
        ensures
            final(self).wf(),
            r == BuildMsg::SpawnError(reason),
            final(self).phase == Phase::Finished,
            !final(self).input_available,
            final(self).trace@ == old(self).trace@.push(r),
    {
        let r = BuildMsg::SpawnError(reason);
        self.phase = Phase::Finished;
        self.input_available = false;
        self.trace = Ghost(self.trace@.push(r));
        assert(self.trace@.drop_last() =~= Seq::<BuildMsg>::empty());
        r
    }

    /// The process started; `has_*` say which of its streams were handed over.
    /// Input becomes available with the input stream. A process without output
    /// streams goes straight to waiting for its exit, with input revoked.
    pub fn spawned(&mut self, has_stdin: bool, has_stdout: bool, has_stderr: bool)
        requires
            old(self).wf(),
            old(self).phase == Phase::Starting,
        ensures
            final(self).wf(),
            final(self).trace@ == old(self).trace@,
            final(self).stdout_open == has_stdout,
            final(self).stderr_open == has_stderr,
            (has_stdout || has_stderr) ==> final(self).phase == Phase::Running
                && final(self).input_available == has_stdin,
            !(has_stdout || has_stderr) ==> final(self).phase == Phase::Waiting
                && !final(self).input_available,
    {
        self.stdout_open = has_stdout;
        self.stderr_open = has_stderr;
        if has_stdout || has_stderr {
            self.phase = Phase::Running;
            self.input_available = has_stdin;
        } else {
            self.phase = Phase::Waiting;
            self.input_available = false;
        }
    }

    /// A line read from one of the output streams: forwarded while running,
    /// dropped in any other phase.
    pub fn line(&mut self, text: String) -> (r: Option<BuildMsg>)
        requires
            old(self).wf(),
        ensures
            final(self).wf(),
            final(self).phase == old(self).phase,
            final(self).input_available == old(self).input_available,
            final(self).stdout_open == old(self).stdout_open,
            final(self).stderr_open == old(self).stderr_open,
            old(self).phase == Phase::Running ==> r == Some(BuildMsg::Line(text))
                && final(self).trace@ == old(self).trace@.push(BuildMsg::Line(text)),
            old(self).phase != Phase::Running ==> r is None && final(self).trace@ == old(
                self,
            ).trace@,
    {
        if self.phase == Phase::Running {
            let ghost m = BuildMsg::Line(text);
            self.trace = Ghost(self.trace@.push(m));
            proof {
                let t = self.trace@;
                assert forall|i: int| 0 <= i < t.len() implies (#[trigger] t[i]) is Line by {
                    if i < t.len() - 1 {
                        assert(t[i] == old(self).trace@[i]);
                    }
                }
            }
            Some(BuildMsg::Line(text))
        } else {
            None
        }
    }

    /// One output stream reached its end. Once both have, input is revoked
    /// and the supervisor waits for the exit status.
    pub fn stream_closed(&mut self, s: Stream)
        requires
            old(self).wf(),
        ensures
            final(self).wf(),
            final(self).trace@ == old(self).trace@,
            old(self).phase != Phase::Running ==> *final(self) == *old(self),
            old(self).phase == Phase::Running ==> {
                &&& final(self).stdout_open == (old(self).stdout_open && s != Stream::Stdout)
                &&& final(self).stderr_open == (old(self).stderr_open && s != Stream::Stderr)
                &&& (final(self).stdout_open || final(self).stderr_open) ==> final(self).phase
                    == Phase::Running && final(self).input_available == old(
                    self,
                ).input_available
                &&& !(final(self).stdout_open || final(self).stderr_open) ==> final(self).phase
                    == Phase::Waiting && !final(self).input_available
            },
    {
        if self.phase == Phase::Running {
            match s {
                Stream::Stdout => {
                    self.stdout_open = false;
                },
                Stream::Stderr => {
                    self.stderr_open = false;
                },
            }
            if !self.stdout_open && !self.stderr_open {
                self.phase = Phase::Waiting;
                self.input_available = false;
            }
        }
    }

    /// The process ended; `code` is its exit status where one could be read.
    pub fn exited(&mut self, code: Option<i32>) -> (r: BuildMsg)
        requires
            old(self).wf(),
            old(self).phase == Phase::Waiting,
        ensures
            final(self).wf(),
            r == BuildMsg::Exit(
                match code {
                    Some(c) => c,
                    None => -1i32,
                },
            ),
            final(self).phase == Phase::Finished,
            !final(self).input_available,
            final(self).trace@ == old(self).trace@.push(r),
            final(self).stdout_open == old(self).stdout_open,
            final(self).stderr_open == old(self).stderr_open,
    {
        let c = match code {
            Some(c) => c,
            None => -1,
        };
        self.finish(BuildMsg::Exit(c))
    }

    /// Takes in one observation of an output reader.
    pub fn handle(&mut self, ev: Event) -> (r: Option<BuildMsg>)
        requires
            old(self).wf(),
        ensures
            final(self).wf(),
            old(self).phase == Phase::Running ==> final(self).phase == Phase::Running
                || final(self).phase == Phase::Waiting,
            old(self).phase != Phase::Running ==> final(self).phase == old(self).phase,
            match ev {
                Event::Line(t) => if old(self).phase == Phase::Running {
                    r == Some(BuildMsg::Line(t)) && final(self).trace@ == old(self).trace@.push(
                        BuildMsg::Line(t),
                    )
                } else {
                    r is None && final(self).trace@ == old(self).trace@
                },
                Event::Closed(_) => r is None && final(self).trace@ == old(self).trace@,
            },
    {
        match ev {
            Event::Line(t) => self.line(t),
            Event::Closed(which) => {
                self.stream_closed(which);
                None
            },
        }
    }

    /// Ends a spawned task once its output readers are done: any stream not
    /// yet reported closed counts as closed, input is revoked, and the exit
    /// status is emitted; `None` (the status could not be read, or waiting
    /// for it failed) is reported as `-1`.
    pub fn conclude(&mut self, code: Option<i32>) -> (r: BuildMsg)
        requires
            old(self).wf(),
            old(self).phase == Phase::Running || old(self).phase == Phase::Waiting,
        ensures
            final(self).wf(),
            r == BuildMsg::Exit(
                match code {
                    Some(c) => c,
                    None => -1i32,
                },
            ),
            final(self).phase == Phase::Finished,
            !final(self).input_available,
            !final(self).stdout_open,
            !final(self).stderr_open,
            final(self).trace@ == old(self).trace@.push(r),
    {
        self.stdout_open = false;
        self.stderr_open = false;
        self.input_available = false;
        self.phase = Phase::Waiting;
        self.exited(code)
    }

    fn finish(&mut self, m: BuildMsg) -> (r: BuildMsg)
        requires
            old(self).wf(),
            old(self).phase == Phase::Waiting,
            m.is_terminal(),
        ensures
            final(self).wf(),
            r == m,
            final(self).phase == Phase::Finished,
            !final(self).input_available,
            final(self).trace@ == old(self).trace@.push(r),
            final(self).stdout_open == old(self).stdout_open,
            final(self).stderr_open == old(self).stderr_open,
    {
        let ghost before = self.trace@;
        self.trace = Ghost(self.trace@.push(m));
        assert(self.trace@.drop_last() =~= before);
        self.phase = Phase::Finished;
        m
    }
}

/// Every task that has finished has forwarded exactly one terminal message,
/// as the last of its stream; and in the finished phase no further line is
/// forwarded (see `Supervisor::line`).
pub proof fn lemma_one_terminal_per_task(s: Supervisor)
    requires
        s.wf(),
        s.phase == Phase::Finished,
    ensures
        count_terminal(s.trace@) == 1,
        s.trace@.last().is_terminal(),
        forall|i: int|
            0 <= i < s.trace@.len() && (#[trigger] s.trace@[i]).is_terminal() ==> i
                == s.trace@.len() - 1,
{
    lemma_finished_stream_one_terminal(s.trace@);
}

/// A task that has not finished has forwarded no terminal message.
pub proof fn lemma_no_terminal_before_finish(s: Supervisor)
    requires
        s.wf(),
        s.phase != Phase::Finished,
    ensures
        count_terminal(s.trace@) == 0,
{
    crate::protocol::lemma_all_lines_no_terminal(s.trace@);
}

/// Once both output streams have closed (waiting for the exit status, or
/// finished), input is never available: sending is refused.
pub proof fn lemma_no_input_after_output_closed(s: Supervisor)
    requires
        s.wf(),
        s.phase == Phase::Waiting || s.phase == Phase::Finished,
    ensures
        !s.input_available,
{
}

/// What is written to the input stream for one line of operator input: the
/// text and a newline, or the "input not available" condition once the
/// process has no input stream (never spawned, or both output streams closed).
pub fn prepare_input(available: bool, input: &str) -> (r: Result<String, String>)
    ensures
        available ==> r is Ok && r->Ok_0@ == input@ + seq!['\n'],
        !available ==> r is Err && r->Err_0@ == input_unavailable_message(),
{
    if available {
        let mut s = String::from_str(input);
        s.append("\n");
        proof {
            reveal_strlit("\n");
        }
        Ok(s)
    } else {
        let e = String::from_str("Process stdin not available");
        Err(e)
    }
}

pub open spec fn input_unavailable_message() -> Seq<char> {
    "Process stdin not available"@
}

/// The input condition held by a supervisor: sending succeeds exactly while
/// input is available.
pub fn send_input(s: &Supervisor, input: &str) -> (r: Result<String, String>)
    requires
        s.wf(),
    ensures
        s.input_available ==> r is Ok && r->Ok_0@ == input@ + seq!['\n'],
        !s.input_available ==> r is Err && r->Err_0@ == input_unavailable_message(),
{
    prepare_input(s.input_available, input)
}

} // verus!

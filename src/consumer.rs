use crate::layout::{spec_classify_line, classify_line, LogLevel};
use crate::protocol::BuildMsg;
use crate::text::{i32_string, signed_decimal};
use vstd::prelude::*;

verus! {

/// Where a build stands, as the consumer sees it.
#[derive(PartialEq, Eq, Structural, Clone, Copy)]
pub enum BuildState {
    Idle,
    Running,
    Done(i32),
    Failed,
}

/// A line of the build log with its display level.
pub struct LogLine {
    pub text: String,
    pub level: LogLevel,
}

/// The consumer's record of one build: its state, its log, and whether the
/// task's stream has ended.
pub struct BuildView {
    pub state: BuildState,
    pub log: Vec<LogLine>,
    pub finished: bool,
}

pub open spec fn log_view(s: Seq<LogLine>) -> Seq<(Seq<char>, LogLevel)> {
    s.map_values(|l: LogLine| (l.text@, l.level))
}

pub open spec fn finished_line(code: i32) -> Seq<char> {
    "==> Build finished with exit code "@ + signed_decimal(code as int)
}

impl BuildView {
    /// A build that has just been started.
    pub fn running() -> (r: BuildView)
        ensures
            r.state == BuildState::Running,
            r.log@.len() == 0,
            !r.finished,
    {
        BuildView { state: BuildState::Running, log: Vec::new(), finished: false }
    }

    /// Takes in one message of the build's stream: a line is logged with its
    /// level; an exit code ends the build as done, logged as a stage when it
    /// is zero and as an error otherwise; a spawn error ends it as failed.
    pub fn apply(&mut self, msg: BuildMsg)
        ensures
            match msg {
                BuildMsg::Line(t) => {
                    &&& final(self).state == old(self).state
                    &&& final(self).finished == old(self).finished
                    &&& log_view(final(self).log@) == log_view(old(self).log@).push(
                        (t@, spec_classify_line(t@)),
                    )
                },
                BuildMsg::Exit(c) => {
                    &&& final(self).state == BuildState::Done(c)
                    &&& final(self).finished
                    &&& log_view(final(self).log@) == log_view(old(self).log@).push(
                        (
                            finished_line(c),
                            if c == 0 {
                                LogLevel::Stage
                            } else {
                                LogLevel::Error
                            },
                        ),
                    )
                },
                BuildMsg::SpawnError(e) => {
                    &&& final(self).state == BuildState::Failed
                    &&& final(self).finished
                    &&& log_view(final(self).log@) == log_view(old(self).log@).push(
                        ("Error: "@ + e@, LogLevel::Error),
                    )
                },
            },
    {
        let ghost before = log_view(self.log@);
        let line = match msg {
            BuildMsg::Line(text) => {
                let level = classify_line(text.as_str());
                LogLine { text, level }
            },
            BuildMsg::Exit(code) => {
                self.state = BuildState::Done(code);
                self.finished = true;
                let mut text = String::from_str("==> Build finished with exit code ");
                text.append(i32_string(code).as_str());
                let level = if code == 0 {
                    LogLevel::Stage
                } else {
                    LogLevel::Error
                };
                LogLine { text, level }
            },
            BuildMsg::SpawnError(e) => {
                self.state = BuildState::Failed;
                self.finished = true;
                let mut text = String::from_str("Error: ");
                text.append(e.as_str());
                LogLine { text, level: LogLevel::Error }
            },
        };
        self.log.push(line);
        assert(log_view(self.log@) =~= before.push((line.text@, line.level)));
    }
}

/// The consumer's record of a clone: its output and its closing status.
pub struct CloneView {
    pub log: Vec<String>,
    pub status: String,
    pub running: bool,
}

pub open spec fn clone_status(code: i32) -> Seq<char> {
    if code == 0 {
        "Clone completed successfully."@
    } else {
        "Clone finished with exit code "@ + signed_decimal(code as int) + "."@
    }
}

impl CloneView {
    pub fn running() -> (r: CloneView)
        ensures
            r.running,
            r.log@.len() == 0,
            r.status@.len() == 0,
    {
        CloneView { log: Vec::new(), status: String::new(), running: true }
    }

    /// Takes in one message of the clone's stream: a line is logged; the
    /// terminal message sets the status and ends the clone.
    pub fn apply(&mut self, msg: BuildMsg)
        ensures
            match msg {
                BuildMsg::Line(t) => {
                    &&& final(self).log@ == old(self).log@.push(t)
                    &&& final(self).status == old(self).status
                    &&& final(self).running == old(self).running
                },
                BuildMsg::Exit(c) => {
                    &&& final(self).log@ == old(self).log@
                    &&& final(self).status@ == clone_status(c)
                    &&& !final(self).running
                },
                BuildMsg::SpawnError(e) => {
                    &&& final(self).log@ == old(self).log@
                    &&& final(self).status@ == "Error: "@ + e@
                    &&& !final(self).running
                },
            },
    {
        match msg {
            BuildMsg::Line(t) => {
                self.log.push(t);
            },
            BuildMsg::Exit(code) => {
                if code == 0 {
                    self.status = String::from_str("Clone completed successfully.");
                } else {
                    let mut s = String::from_str("Clone finished with exit code ");
                    s.append(i32_string(code).as_str());
                    s.append(".");
                    self.status = s;
                }
                self.running = false;
            },
            BuildMsg::SpawnError(e) => {
                let mut s = String::from_str("Error: ");
                s.append(e.as_str());
                self.status = s;
                self.running = false;
            },
        }
    }
}

} // verus!

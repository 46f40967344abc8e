use vstd::prelude::*;

verus! {

/// A message reported by a supervised build process: zero or more lines of
/// output, then exactly one terminal message.
pub enum BuildMsg {
    Line(String),
    Exit(i32),
    SpawnError(String),
}

/// The same alphabet for the wine build task.
pub enum WineBuildMsg {
    Line(String),
    Exit(i32),
    SpawnError(String),
}

/// The same alphabet for a repository clone or copy; that task takes no input.
pub enum CloneMsg {
    Line(String),
    Exit(i32),
    SpawnError(String),
}

impl BuildMsg {
    /// A terminal message ends the task's stream.
    pub open spec fn is_terminal(self) -> bool {
        !(self is Line)
    }

    pub fn is_terminal_msg(&self) -> (r: bool)
        ensures
            r == self.is_terminal(),
    {
        match self {
            BuildMsg::Line(_) => false,
            _ => true,
        }
    }
}

impl WineBuildMsg {
    pub open spec fn spec_from_build(m: BuildMsg) -> WineBuildMsg {
        match m {
            BuildMsg::Line(s) => WineBuildMsg::Line(s),
            BuildMsg::Exit(c) => WineBuildMsg::Exit(c),
            BuildMsg::SpawnError(s) => WineBuildMsg::SpawnError(s),
        }
    }

    /// The wine build message that carries the same content.
    pub fn from_build(m: BuildMsg) -> (r: WineBuildMsg)
        ensures
            r == Self::spec_from_build(m),
    {
        match m {
            BuildMsg::Line(s) => WineBuildMsg::Line(s),
            BuildMsg::Exit(c) => WineBuildMsg::Exit(c),
            BuildMsg::SpawnError(s) => WineBuildMsg::SpawnError(s),
        }
    }
}

impl CloneMsg {
    pub open spec fn spec_from_build(m: BuildMsg) -> CloneMsg {
        match m {
            BuildMsg::Line(s) => CloneMsg::Line(s),
            BuildMsg::Exit(c) => CloneMsg::Exit(c),
            BuildMsg::SpawnError(s) => CloneMsg::SpawnError(s),
        }
    }

    /// The clone message that carries the same content.
    pub fn from_build(m: BuildMsg) -> (r: CloneMsg)
        ensures
            r == Self::spec_from_build(m),
    {
        match m {
            BuildMsg::Line(s) => CloneMsg::Line(s),
            BuildMsg::Exit(c) => CloneMsg::Exit(c),
            BuildMsg::SpawnError(s) => CloneMsg::SpawnError(s),
        }
    }
}

/// How many terminal messages a stream holds.
pub open spec fn count_terminal(s: Seq<BuildMsg>) -> nat
    decreases s.len(),
{
    if s.len() == 0 {
        0
    } else {
        count_terminal(s.drop_last()) + if s.last().is_terminal() {
            1nat
        } else {
            0nat
        }
    }
}

/// A stream of a task still running: lines only.
pub open spec fn all_lines(s: Seq<BuildMsg>) -> bool {
    forall|i: int| 0 <= i < s.len() ==> (#[trigger] s[i]) is Line
}

/// A finished stream: lines, then one terminal message last.
pub open spec fn is_finished_stream(s: Seq<BuildMsg>) -> bool {
    &&& s.len() > 0
    &&& s.last().is_terminal()
    &&& all_lines(s.drop_last())
}

pub proof fn lemma_all_lines_no_terminal(s: Seq<BuildMsg>)
    requires
        all_lines(s),
    ensures
        count_terminal(s) == 0,
    decreases s.len(),
{
    if s.len() > 0 {
        assert(s.last() == s[s.len() - 1]);
        assert(all_lines(s.drop_last()));
        lemma_all_lines_no_terminal(s.drop_last());
    }
}

/// A finished stream holds exactly one terminal message, and it is the last:
/// no line comes after it.
pub proof fn lemma_finished_stream_one_terminal(s: Seq<BuildMsg>)
    requires
        is_finished_stream(s),
    ensures
        count_terminal(s) == 1,
        forall|i: int| 0 <= i < s.len() && (#[trigger] s[i]).is_terminal() ==> i == s.len() - 1,
{
    lemma_all_lines_no_terminal(s.drop_last());
    assert forall|i: int| 0 <= i < s.len() && (#[trigger] s[i]).is_terminal() implies i == s.len()
        - 1 by {
        if i < s.len() - 1 {
            assert(s.drop_last()[i] == s[i]);
        }
    }
}

} // verus!

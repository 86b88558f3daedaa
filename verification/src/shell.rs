use vstd::prelude::*;

verus! {

/// The captured outcome of running one external command.
#[derive(Debug)]
pub struct ShellOutput {
    /// Whether the command's exit status reported success.
    pub success: bool,
    /// The command's standard output, decoded to text.
    pub stdout: String,
    /// The command's standard error, decoded to text.
    pub stderr: String,
}

/// The policy for accepting a shell substitution: the command must exit
/// successfully and must write nothing to standard error.
pub open spec fn shell_ok(o: ShellOutput) -> bool {
    o.success && o.stderr@.len() == 0
}

/// Recorded shell outcomes, consumed in order by one resolution pass.
///
/// Resolution itself never launches a process: when it reaches a shell
/// substitution it consumes the next recorded outcome, and when the tape is
/// exhausted it stops with [`ResolveError::ShellPending`] naming the command
/// that still has to be run.  The caller runs the command, records the
/// outcome with [`ShellTape::push`], rewinds, and resolves again; the replay
/// re-issues no command whose outcome is already on the tape.
#[derive(Debug)]
pub struct ShellTape {
    /// Every recorded outcome, oldest first.
    pub outputs: Vec<ShellOutput>,
    /// The index of the next outcome to consume.
    pub next: usize,
}

impl ShellTape {
    /// The consumption position has not run past the recorded outcomes.
    pub open spec fn wf(self) -> bool {
        self.next <= self.outputs.len()
    }

    /// Every recorded outcome, in order.
    pub open spec fn full(self) -> Seq<ShellOutput> {
        self.outputs@
    }

    /// How many outcomes have been consumed.
    pub open spec fn pos(self) -> int {
        self.next as int
    }

    /// The outcomes not yet consumed.
    pub open spec fn remaining(self) -> Seq<ShellOutput> {
        self.outputs@.skip(self.next as int)
    }

    pub fn new() -> (r: Self)
        ensures
            r.wf(),
            r.full() == Seq::<ShellOutput>::empty(),
            r.pos() == 0,
    {
        ShellTape { outputs: Vec::new(), next: 0 }
    }

    /// Record one more outcome at the end of the tape.
    pub fn push(&mut self, output: ShellOutput)
        requires
            old(self).wf(),
        ensures
            final(self).wf(),
            final(self).full() == old(self).full().push(output),
            final(self).pos() == old(self).pos(),
    {
        self.outputs.push(output);
    }

    /// Restart consumption from the beginning, keeping every recorded
    /// outcome.
    pub fn rewind(&mut self)
        ensures
            final(self).wf(),
            final(self).full() == old(self).full(),
            final(self).pos() == 0,
    {
        self.next = 0;
    }

    /// Consume the next outcome, if one is recorded, handing back whether it
    /// met the acceptance policy together with its standard output.
    pub fn take_next(&mut self) -> (r: Option<(bool, String)>)
        requires
            old(self).wf(),
        ensures
            final(self).wf(),
            final(self).full() == old(self).full(),
            old(self).remaining().len() == 0 ==> r is None && final(self).pos() == old(
                self,
            ).pos(),
            old(self).remaining().len() > 0 ==> r == Some(
                (shell_ok(old(self).remaining()[0]), old(self).remaining()[0].stdout),
            ) && final(self).pos() == old(self).pos() + 1,
    {
        if self.next < self.outputs.len() {
            let ok = self.outputs[self.next].success && self.outputs[self.next].stderr.as_str().is_empty();
            let out = self.outputs[self.next].stdout.clone();
            self.next = self.next + 1;
            Some((ok, out))
        } else {
            None
        }
    }
}

/// Why a resolution pass stopped without producing a value.
#[derive(Debug)]
pub enum ResolveError {
    /// No outcome was recorded for this command; it still has to be run.
    ShellPending(String),
    /// The named command exited with a failure status or wrote to standard
    /// error; by policy this is fatal, never a value.
    ShellFailed(String),
    /// The named variable's definition refers back to itself, directly or
    /// through other variables.
    CyclicVariable(String),
}

/// The mathematical outcome of a resolution: the resolved text, or how the
/// resolution stopped.
pub enum Resolution {
    Done(Seq<char>),
    ShellPending(Seq<char>),
    ShellFailed(Seq<char>),
    CyclicVariable(Seq<char>),
}

impl View for ResolveError {
    type V = Resolution;

    open spec fn view(&self) -> Resolution {
        match self {
            ResolveError::ShellPending(cmd) => Resolution::ShellPending(cmd@),
            ResolveError::ShellFailed(cmd) => Resolution::ShellFailed(cmd@),
            ResolveError::CyclicVariable(name) => Resolution::CyclicVariable(name@),
        }
    }
}

} // verus!

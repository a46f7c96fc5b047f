//! The fail-fast command pipeline: an ordered list of command strings run
//! one at a time, stopping at the first failure.
//!
//! The pipeline is a cursor over its commands. The caller asks for the
//! current command, runs it, and reports back: success advances the cursor,
//! failure ends the pipeline for good and wraps the executor's error with
//! the context of the failing command. Commands past a failure are never
//! offered, which is the fail-fast guarantee.

use vstd::prelude::*;

use crate::errors::AoError;
use crate::errors::context_msg;
use crate::parse::strings_view;

verus! {

/// Why the commands run: as the steps of a named task, or as the configured
/// linters or testers of the check flow. The context names the failing
/// command in the error it wraps.
#[derive(Debug)]
pub enum CommandContext {
    Task(String),
    Linter,
    Tester,
}

/// [`CommandContext`] at the specification level.
pub enum CtxView {
    Task(Seq<char>),
    Linter,
    Tester,
}

impl View for CommandContext {
    type V = CtxView;

    open spec fn view(&self) -> CtxView {
        match self {
            CommandContext::Task(t) => CtxView::Task(t@),
            CommandContext::Linter => CtxView::Linter,
            CommandContext::Tester => CtxView::Tester,
        }
    }
}

/// The context line that wraps an executor failure of `cmd`.
pub open spec fn failure_context_msg(ctx: CtxView, cmd: Seq<char>) -> Seq<char> {
    match ctx {
        CtxView::Task(t) => "Command '"@ + cmd + "' in task '"@ + t + "' failed"@,
        CtxView::Linter => "Linter command '"@ + cmd + "' failed"@,
        CtxView::Tester => "Tester command '"@ + cmd + "' failed"@,
    }
}

/// A pipeline's abstract state.
pub struct PipelineView {
    pub commands: Seq<Seq<char>>,
    pub context: CtxView,
    pub next: int,
    pub failed: bool,
}

/// An ordered, fail-fast run of command strings.
#[derive(Debug)]
pub struct CommandPipeline {
    pub commands: Vec<String>,
    pub context: CommandContext,
    pub next: usize,
    pub failed: bool,
}

impl View for CommandPipeline {
    type V = PipelineView;

    open spec fn view(&self) -> PipelineView {
        PipelineView {
            commands: strings_view(self.commands@),
            context: self.context@,
            next: self.next as int,
            failed: self.failed,
        }
    }
}

/// The pipeline still has a command to offer.
pub open spec fn spec_active(v: PipelineView) -> bool {
    !v.failed && v.next < v.commands.len()
}

/// The command a pipeline offers: the one at its cursor, unless it is
/// complete or has failed.
pub open spec fn spec_current(v: PipelineView) -> Option<Seq<char>> {
    if spec_active(v) {
        Some(v.commands[v.next])
    } else {
        None
    }
}

/// Every command ran and none failed.
pub open spec fn spec_complete(v: PipelineView) -> bool {
    !v.failed && v.next == v.commands.len()
}

impl CommandPipeline {
    pub open spec fn wf(&self) -> bool {
        0 <= self@.next <= self@.commands.len()
    }

    /// A fresh pipeline over the given commands, in order.
    pub fn new(commands: Vec<String>, context: CommandContext) -> (p: CommandPipeline)
        ensures
            p.wf(),
            p@.commands == strings_view(commands@),
            p@.context == context@,
            p@.next == 0,
            !p@.failed,
    {
        CommandPipeline { commands, context, next: 0, failed: false }
    }

    /// The command to run next, if the pipeline is neither complete nor
    /// failed.
    pub fn current(&self) -> (r: Option<&String>)
        requires
            self.wf(),
        ensures
            match r {
                Some(c) => spec_current(self@) == Some(c@),
                None => spec_current(self@) is None,
            },
    {
        if !self.failed && self.next < self.commands.len() {
            proof {
                assert(strings_view(self.commands@)[self.next as int]
                    == self.commands@[self.next as int]@);
            }
            Some(&self.commands[self.next])
        } else {
            None
        }
    }

    /// Records that the current command succeeded; the cursor moves to the
    /// next command.
    pub fn command_succeeded(&mut self)
        requires
            old(self).wf(),
            spec_active(old(self)@),
        ensures
            final(self).wf(),
            final(self)@.commands == old(self)@.commands,
            final(self)@.context == old(self)@.context,
            !final(self)@.failed,
            final(self)@.next == old(self)@.next + 1,
    {
        let n = self.commands.len();
        assert(self.next < n);
        self.next = self.next + 1;
    }

    /// Records that the current command failed: the pipeline ends here, and
    /// the executor's error is wrapped with the context naming the failing
    /// command. No later command is ever offered.
    pub fn command_failed(&mut self, cause: AoError) -> (e: AoError)
        requires
            old(self).wf(),
            spec_active(old(self)@),
        ensures
            final(self).wf(),
            final(self)@.commands == old(self)@.commands,
            final(self)@.context == old(self)@.context,
            final(self)@.failed,
            final(self)@.next == old(self)@.next,
            e.kind == cause.kind,
            e.message@ == context_msg(
                failure_context_msg(old(self)@.context, old(self)@.commands[old(self)@.next]),
                cause.message@,
            ),
    {
        proof {
            assert(strings_view(self.commands@)[self.next as int]
                == self.commands@[self.next as int]@);
        }
        let prefix = match &self.context {
            CommandContext::Task(t) => String::from_str("Command '").concat(
                self.commands[self.next].as_str(),
            ).concat("' in task '").concat(t.as_str()).concat("' failed"),
            CommandContext::Linter => String::from_str("Linter command '").concat(
                self.commands[self.next].as_str(),
            ).concat("' failed"),
            CommandContext::Tester => String::from_str("Tester command '").concat(
                self.commands[self.next].as_str(),
            ).concat("' failed"),
        };
        self.failed = true;
        cause.with_context(prefix.as_str())
    }

    /// True when every command ran and none failed.
    pub fn is_complete(&self) -> (r: bool)
        requires
            self.wf(),
        ensures
            r == spec_complete(self@),
    {
        !self.failed && self.next == self.commands.len()
    }

    /// True when a failure has been recorded.
    pub fn has_failed(&self) -> (r: bool)
        ensures
            r == self@.failed,
    {
        self.failed
    }
}

/// Fail-fast: a pipeline that has recorded a failure offers no further
/// command and never counts as complete.
pub proof fn lemma_failed_pipeline_is_done(v: PipelineView)
    requires
        v.failed,
    ensures
        spec_current(v) is None,
        !spec_complete(v),
{
}

} // verus!

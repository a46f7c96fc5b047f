//! Handler core for the `run` operation: executing a named task from the
//! loaded configuration.

use vstd::prelude::*;

use crate::config::Config;
use crate::config::lookup_task;
use crate::errors::AoError;
use crate::errors::ErrorKind;
use crate::errors::task_not_found_msg;
use crate::pipeline::CommandContext;
use crate::pipeline::CommandPipeline;
use crate::pipeline::CtxView;
use crate::pipeline::PipelineView;
use crate::pipeline::spec_complete;
use crate::pipeline::spec_current;
use crate::text::clone_strings;

verus! {

/// Looks the named task up in the configuration and yields the pipeline of
/// its commands, to be executed in declared order, fail-fast, at the
/// project root.
///
/// An absent task name fails with `TaskNotFound`, naming the task; a
/// present task with an empty command list yields a pipeline that is
/// complete at once, so nothing is ever spawned for it.
pub fn run(config: &Config, task_name: &str) -> (r: Result<CommandPipeline, AoError>)
    ensures
        match r {
            Ok(p) => {
                &&& lookup_task(config@.tasks, task_name@) == Some(p@.commands)
                &&& p.wf()
                &&& p@.next == 0
                &&& !p@.failed
                &&& p@.context == CtxView::Task(task_name@)
            },
            Err(e) => {
                &&& lookup_task(config@.tasks, task_name@) is None
                &&& e.kind == ErrorKind::TaskNotFound
                &&& e.message@ == task_not_found_msg(task_name@)
            },
        },
{
    match crate::config::find_task(config, task_name) {
        Some(cmds) => {
            let commands = clone_strings(cmds);
            proof {
                assert(crate::parse::strings_view(commands@) =~= crate::parse::strings_view(
                    cmds@,
                ));
            }
            let p = CommandPipeline::new(
                commands,
                CommandContext::Task(String::from_str(task_name)),
            );
            Ok(p)
        },
        None => Err(AoError::task_not_found(task_name)),
    }
}

/// A found task with no commands runs nothing: its fresh pipeline is
/// complete at once and never offers a command.
pub proof fn lemma_empty_task_runs_nothing(v: PipelineView)
    requires
        v.commands.len() == 0,
        v.next == 0,
        !v.failed,
    ensures
        spec_complete(v),
        spec_current(v) is None,
{
}

/// The task-not-found message quotes the task's name and contains the
/// words "not found".
pub proof fn lemma_task_not_found_message_names_task(name: Seq<char>)
    ensures
        task_not_found_msg(name).subrange(6, 6 + name.len() as int) == name,
        task_not_found_msg(name).subrange(8 + name.len() as int, 17 + name.len() as int)
            == "not found"@,
{
    reveal_strlit("Task '");
    reveal_strlit("' not found in ao.toml");
    reveal_strlit("not found");
    assert(task_not_found_msg(name).subrange(6, 6 + name.len() as int) =~= name);
    assert(task_not_found_msg(name).subrange(8 + name.len() as int, 17 + name.len() as int)
        =~= "not found"@);
}

} // verus!

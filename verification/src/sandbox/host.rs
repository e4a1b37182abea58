//! Commands that run on the host.

use vstd::prelude::*;

use crate::clock::Duration;
use crate::sandbox::config::{ExecResultView, SandboxExecOptions, SandboxExecResult};
use crate::sandbox::process;
use crate::sandbox::process::ExecOutcome;
use crate::text;

verus! {

/// A shell command of the host: where and how long it runs, and the variables that are set for
/// it, one after the other.
pub struct HostCommand {
    pub command: String,
    pub working_dir: Option<String>,
    pub envs: Vec<(String, String)>,
    pub timeout: Duration,
}

/// The variables of one file. A file that could not be read has none.
pub open spec fn variables_of(file: Option<Vec<(String, String)>>) -> Seq<(Seq<char>, Seq<char>)> {
    match file {
        Some(variables) => text::text_pairs(variables@),
        None => Seq::empty(),
    }
}

/// The variables of files, those of the first file first.
pub open spec fn file_variables(files: Seq<Option<Vec<(String, String)>>>) -> Seq<
    (Seq<char>, Seq<char>),
>
    decreases files.len(),
{
    if files.len() == 0 {
        Seq::empty()
    } else {
        file_variables(files.drop_last()) + variables_of(files.last())
    }
}

fn append_pairs(all: &mut Vec<(String, String)>, more: &Vec<(String, String)>)
    ensures
        text::text_pairs(final(all)@) == text::text_pairs(old(all)@) + text::text_pairs(more@),
{
    let ghost before = text::text_pairs(all@);
    let ghost added = text::text_pairs(more@);
    let mut i: usize = 0;
    proof {
        assert(before + added.take(0) =~= before);
    }
    while i < more.len()
        invariant
            i <= more@.len(),
            added == text::text_pairs(more@),
            text::text_pairs(all@) == before + added.take(i as int),
        decreases more@.len() - i,
    {
        let ghost so_far = text::text_pairs(all@);
        all.push((more[i].0.clone(), more[i].1.clone()));
        proof {
            assert(text::text_pairs(all@) =~= so_far.push(added[i as int]));
            assert(so_far.push(added[i as int]) =~= before + added.take(i + 1));
        }
        i += 1;
    }
    proof {
        assert(added.take(i as int) =~= added);
    }
}

/// Settles how a command runs on the host. `files` holds the variables of each of the files in
/// `opts`, in order, and nothing for a file that could not be read. The variables in `opts` are
/// set after those of the files.
pub fn exec_host_command(
    command: &str,
    opts: &SandboxExecOptions,
    files: &Vec<Option<Vec<(String, String)>>>,
) -> (plan: HostCommand)
    ensures
        plan.command@ == command@,
        text::opt_text(plan.working_dir) == opts@.working_dir,
        text::text_pairs(plan.envs@) == file_variables(files@) + opts@.envs,
        plan.timeout == opts@.timeout,
{
    let mut envs: Vec<(String, String)> = Vec::new();
    let mut i: usize = 0;
    proof {
        assert(text::text_pairs(envs@) =~= file_variables(files@.take(0)));
    }
    while i < files.len()
        invariant
            i <= files@.len(),
            text::text_pairs(envs@) == file_variables(files@.take(i as int)),
        decreases files@.len() - i,
    {
        proof {
            assert(files@.take(i + 1).drop_last() =~= files@.take(i as int));
            assert(files@.take(i + 1).last() == files@[i as int]);
        }
        if let Some(variables) = &files[i] {
            append_pairs(&mut envs, variables);
        } else {
            proof {
                assert(file_variables(files@.take(i as int)) + variables_of(files@[i as int])
                    =~= file_variables(files@.take(i as int)));
            }
        }
        i += 1;
    }
    proof {
        assert(files@.take(i as int) =~= files@);
    }
    append_pairs(&mut envs, &opts.envs);
    HostCommand {
        command: command.to_string(),
        working_dir: text::copy_opt_text(&opts.working_dir),
        envs,
        timeout: opts.timeout,
    }
}

/// What a command of the host comes to.
pub open spec fn host_result(outcome: ExecOutcome, timeout: Duration) -> Result<
    ExecResultView,
    Seq<char>,
> {
    match outcome {
        ExecOutcome::NotStarted => Err("failed to start shell command"@),
        ExecOutcome::Exited { code, stdout, stderr } => Ok(
            process::left_behind(code, stdout@, stderr@),
        ),
        ExecOutcome::Failed(e) => Err("failed to run command: "@ + e@),
        ExecOutcome::TimedOut => Err(
            "command timed out after "@ + text::decimal(timeout.secs as nat) + " seconds"@,
        ),
    }
}

/// Says what a command of the host came to.
pub fn finish_host_command(outcome: &ExecOutcome, timeout: Duration) -> (result: Result<
    SandboxExecResult,
    String,
>)
    ensures
        result matches Ok(r) ==> host_result(*outcome, timeout) == Ok::<ExecResultView, Seq<char>>(
            r@,
        ),
        result matches Err(e) ==> host_result(*outcome, timeout) == Err::<
            ExecResultView,
            Seq<char>,
        >(e@),
{
    match outcome {
        ExecOutcome::NotStarted => Err("failed to start shell command".to_string()),
        ExecOutcome::Exited { code, stdout, stderr } => Ok(process::collect(*code, stdout, stderr)),
        ExecOutcome::Failed(e) => {
            let mut s = "failed to run command: ".to_string();
            s.append(e.as_str());
            Err(s)
        },
        ExecOutcome::TimedOut => {
            let mut s = "command timed out after ".to_string();
            s.append(text::decimal_text(timeout.as_secs()).as_str());
            s.append(" seconds");
            Err(s)
        },
    }
}

// ---------------------------------------------------------------------------
// Laws
// ---------------------------------------------------------------------------

/// The value of a variable after all have been set: that of the last setting of it.
pub open spec fn setting(variables: Seq<(Seq<char>, Seq<char>)>, name: Seq<char>) -> Option<
    Seq<char>,
>
    decreases variables.len(),
{
    if variables.len() == 0 {
        None
    } else if variables.last().0 == name {
        Some(variables.last().1)
    } else {
        setting(variables.drop_last(), name)
    }
}

/// A setting that comes later wins; where there is none, the earlier one stands.
pub proof fn law_later_settings_win(
    earlier: Seq<(Seq<char>, Seq<char>)>,
    later: Seq<(Seq<char>, Seq<char>)>,
    name: Seq<char>,
)
    ensures
        setting(earlier + later, name) == match setting(later, name) {
            Some(value) => Some(value),
            None => setting(earlier, name),
        },
    decreases later.len(),
{
    let all = earlier + later;
    if later.len() == 0 {
        assert(all =~= earlier);
    } else {
        assert(all.last() == later.last());
        assert(all.drop_last() =~= earlier + later.drop_last());
        law_later_settings_win(earlier, later.drop_last(), name);
    }
}

/// A file that could not be read makes no difference to a command's variables.
pub proof fn law_unreadable_files_are_skipped(
    before: Seq<Option<Vec<(String, String)>>>,
    after: Seq<Option<Vec<(String, String)>>>,
)
    ensures
        file_variables(before + seq![None] + after) == file_variables(before + after),
    decreases after.len(),
{
    let with = before + seq![None] + after;
    let without = before + after;
    if after.len() == 0 {
        assert(with.drop_last() =~= before);
        assert(without =~= before);
        assert(with.last() == None::<Vec<(String, String)>>);
        assert(file_variables(with) =~= file_variables(before));
    } else {
        assert(with.drop_last() =~= before + seq![None] + after.drop_last());
        assert(without.drop_last() =~= before + after.drop_last());
        law_unreadable_files_are_skipped(before, after.drop_last());
    }
}

/// The variables of files come file by file: those of one more file follow all the others, in
/// its own order.
pub proof fn law_variables_come_file_by_file(
    files: Seq<Option<Vec<(String, String)>>>,
    variables: Vec<(String, String)>,
    i: int,
)
    ensures
        file_variables(Seq::empty()).len() == 0,
        file_variables(files.push(None)) == file_variables(files),
        ({
            let before = file_variables(files);
            let all = file_variables(files.push(Some(variables)));
            &&& all.len() == before.len() + variables@.len()
            &&& 0 <= i < before.len() ==> all[i] == before[i]
            &&& 0 <= i < variables@.len() ==> all[before.len() + i].0 == variables@[i].0@
                && all[before.len() + i].1 == variables@[i].1@
        }),
{
    assert(files.push(None).drop_last() =~= files);
    assert(files.push(Some(variables)).drop_last() =~= files);
    assert(file_variables(files.push(None)) =~= file_variables(files));
}

/// A command of the host that ended is no error, whatever its code; one that did not end is, and
/// the error says why.
pub proof fn law_host_commands_that_end_are_no_errors(
    code: Option<i32>,
    stdout: Vec<u8>,
    stderr: Vec<u8>,
    cause: String,
    timeout: Duration,
)
    ensures
        ({
            let ended = host_result(ExecOutcome::Exited { code, stdout, stderr }, timeout);
            &&& ended is Ok
            &&& ended->Ok_0.stdout == text::utf8_lossy(stdout@)
            &&& ended->Ok_0.stderr == text::utf8_lossy(stderr@)
            &&& code is Some ==> ended->Ok_0.exit_code == code->Some_0
            &&& code is None ==> ended->Ok_0.exit_code == -1
        }),
        host_result(ExecOutcome::NotStarted, timeout) == Err::<ExecResultView, Seq<char>>(
            "failed to start shell command"@,
        ),
        host_result(ExecOutcome::Failed(cause), timeout) == Err::<ExecResultView, Seq<char>>(
            "failed to run command: "@ + cause@,
        ),
        host_result(ExecOutcome::TimedOut, timeout) == Err::<ExecResultView, Seq<char>>(
            "command timed out after "@ + text::decimal(timeout.secs as nat) + " seconds"@,
        ),
{
}

} // verus!

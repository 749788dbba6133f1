//! How a child is started inside a pseudo-terminal: the program, and the
//! arguments, environment and directory given to it, as the steps by which
//! a command builder is filled. The steps are carried out in order; a
//! later step overrides an earlier one on the same variable, and clearing
//! the environment wipes whatever was set before it. So a plan clears
//! first and sets afterwards.

use crate::ids::{hyphenated, SessionId};
use crate::models::Task;
use crate::text::{chars_of, contains, contains_text, ends_with, extend, has_suffix, text_of};
use vstd::prelude::*;

verus! {

/// One step of filling a command builder.
#[derive(Clone, Debug, PartialEq, Eq)]
pub enum LaunchStep {
    /// Append an argument.
    Arg(String),
    /// Set an environment variable.
    Env(String, String),
    /// Set the working directory.
    Cwd(String),
    /// Wipe the environment that the child would get.
    EnvClear,
}

/// What a `LaunchStep` holds.
pub enum StepModel {
    Arg(Seq<char>),
    Env(Seq<char>, Seq<char>),
    Cwd(Seq<char>),
    EnvClear,
}

impl View for LaunchStep {
    type V = StepModel;

    open spec fn view(&self) -> StepModel {
        match self {
            LaunchStep::Arg(a) => StepModel::Arg(a@),
            LaunchStep::Env(k, v) => StepModel::Env(k@, v@),
            LaunchStep::Cwd(d) => StepModel::Cwd(d@),
            LaunchStep::EnvClear => StepModel::EnvClear,
        }
    }
}

/// A program and the steps that prepare its start.
#[derive(Clone, Debug, PartialEq, Eq)]
pub struct LaunchPlan {
    pub program: String,
    pub steps: Vec<LaunchStep>,
}

/// What a list of steps holds.
pub open spec fn steps_view(steps: Seq<LaunchStep>) -> Seq<StepModel> {
    Seq::new(steps.len(), |i: int| steps[i]@)
}

/// Whether a shell is bash: its path ends in `bash` or holds `/bash`.
pub open spec fn is_bash(shell: Seq<char>) -> bool {
    ends_with(shell, "bash"@) || contains_text(shell, "/bash"@)
}

/// The arguments that make the shell run `command` and stay open: bash
/// starts as an interactive shell that reads the hook file `rcfile`; any
/// other shell runs the command and then replaces itself with a fresh
/// shell.
pub open spec fn shell_args(shell: Seq<char>, command: Seq<char>, rcfile: Seq<char>) -> Seq<
    StepModel,
> {
    if is_bash(shell) {
        seq![
            StepModel::Arg("--noprofile"@),
            StepModel::Arg("--rcfile"@),
            StepModel::Arg(rcfile),
            StepModel::Arg("-i"@),
        ]
    } else {
        seq![StepModel::Arg("-c"@), StepModel::Arg(command + "; exec "@ + shell)]
    }
}

/// The variable by which bash's hook file learns the command to run; no
/// other shell needs one.
pub open spec fn shell_env(shell: Seq<char>, command: Seq<char>) -> Seq<StepModel> {
    if is_bash(shell) {
        seq![StepModel::Env("CMDHUB_INIT_CMD"@, command)]
    } else {
        Seq::empty()
    }
}

/// The step that sets the working directory, if one is asked for.
pub open spec fn cwd_steps(cwd: Option<String>) -> Seq<StepModel> {
    match cwd {
        Some(dir) => seq![StepModel::Cwd(dir@)],
        None => Seq::empty(),
    }
}

/// The step that wipes the environment, if that is asked for.
pub open spec fn clear_steps(env_clear: Option<bool>) -> Seq<StepModel> {
    if env_clear == Some(true) {
        seq![StepModel::EnvClear]
    } else {
        Seq::empty()
    }
}

/// One step for each variable of `env`, in order.
pub open spec fn env_steps(env: Option<Vec<(String, String)>>) -> Seq<StepModel> {
    match env {
        Some(pairs) => Seq::new(pairs@.len(), |i: int| StepModel::Env(pairs@[i].0@, pairs@[i].1@)),
        None => Seq::empty(),
    }
}

/// The steps that start an instance of `task`: the shell's arguments, the
/// task's directory, the wipe of the inherited environment, and only then
/// the variables: the one that carries the command to bash, and the task's
/// own.
pub open spec fn instance_steps(
    shell: Seq<char>,
    command: Seq<char>,
    rcfile: Seq<char>,
    task: Task,
) -> Seq<StepModel> {
    shell_args(shell, command, rcfile) + cwd_steps(task.cwd) + clear_steps(task.env_clear)
        + shell_env(shell, command) + env_steps(task.env)
}

/// Whether a step changes what the variable `key` holds: it sets it, or it
/// wipes the environment.
pub open spec fn touches(step: StepModel, key: Seq<char>) -> bool {
    match step {
        StepModel::Env(k, _) => k == key,
        StepModel::EnvClear => true,
        _ => false,
    }
}

/// Whether a step concerns the environment only.
pub open spec fn is_env_step(step: StepModel) -> bool {
    step is Env || step is EnvClear
}

/// The directory in which the child starts when `steps` are carried out:
/// the one that the last directory step names.
pub open spec fn cwd_after(steps: Seq<StepModel>) -> Option<Seq<char>>
    decreases steps.len(),
{
    if steps.len() == 0 {
        None
    } else {
        match steps.last() {
            StepModel::Cwd(dir) => Some(dir),
            _ => cwd_after(steps.drop_last()),
        }
    }
}

/// The arguments that the child gets after the program's name when `steps`
/// are carried out.
pub open spec fn args_after(steps: Seq<StepModel>) -> Seq<Seq<char>>
    decreases steps.len(),
{
    if steps.len() == 0 {
        Seq::empty()
    } else {
        match steps.last() {
            StepModel::Arg(a) => args_after(steps.drop_last()).push(a),
            _ => args_after(steps.drop_last()),
        }
    }
}

/// The arguments with which the shell of an instance starts.
pub open spec fn shell_arguments(shell: Seq<char>, command: Seq<char>, rcfile: Seq<char>) -> Seq<
    Seq<char>,
> {
    if is_bash(shell) {
        seq!["--noprofile"@, "--rcfile"@, rcfile, "-i"@]
    } else {
        seq!["-c"@, command + "; exec "@ + shell]
    }
}

/// The environment that the child gets when `steps` are carried out on a
/// builder that starts with the environment `base`.
pub open spec fn env_after(base: Map<Seq<char>, Seq<char>>, steps: Seq<StepModel>) -> Map<
    Seq<char>,
    Seq<char>,
>
    decreases steps.len(),
{
    if steps.len() == 0 {
        base
    } else {
        let before = env_after(base, steps.drop_last());
        match steps.last() {
            StepModel::Env(key, value) => before.insert(key, value),
            StepModel::EnvClear => Map::empty(),
            _ => before,
        }
    }
}

/// Carrying out two lists of steps one after the other is carrying out
/// the second on what the first left.
pub proof fn lemma_env_after_concat(
    base: Map<Seq<char>, Seq<char>>,
    first: Seq<StepModel>,
    second: Seq<StepModel>,
)
    ensures
        env_after(base, first + second) == env_after(env_after(base, first), second),
    decreases second.len(),
{
    if second.len() > 0 {
        lemma_env_after_concat(base, first, second.drop_last());
        assert((first + second).drop_last() =~= first + second.drop_last());
    }
}

/// The last step that sets a variable decides what it holds: a variable
/// set at step `i` and touched by no later step holds that value in the
/// end.
pub proof fn lemma_last_setting_wins(
    base: Map<Seq<char>, Seq<char>>,
    steps: Seq<StepModel>,
    i: int,
    key: Seq<char>,
    value: Seq<char>,
)
    requires
        0 <= i < steps.len(),
        steps[i] == StepModel::Env(key, value),
        forall|j: int| i < j < steps.len() ==> !touches(#[trigger] steps[j], key),
    ensures
        env_after(base, steps).dom().contains(key),
        env_after(base, steps)[key] == value,
    decreases steps.len(),
{
    if i < steps.len() - 1 {
        let front = steps.drop_last();
        assert forall|j: int| i < j < front.len() implies !touches(#[trigger] front[j], key) by {
            assert(front[j] == steps[j]);
        }
        lemma_last_setting_wins(base, front, i, key, value);
        assert(!touches(steps[steps.len() - 1], key));
    }
}

/// Steps that concern the environment only give no argument and name no
/// directory.
pub proof fn lemma_env_steps_only(steps: Seq<StepModel>)
    requires
        forall|j: int| 0 <= j < steps.len() ==> is_env_step(#[trigger] steps[j]),
    ensures
        cwd_after(steps) is None,
        args_after(steps) == Seq::<Seq<char>>::empty(),
    decreases steps.len(),
{
    if steps.len() > 0 {
        let front = steps.drop_last();
        assert forall|j: int| 0 <= j < front.len() implies is_env_step(#[trigger] front[j]) by {
            assert(front[j] == steps[j]);
        }
        lemma_env_steps_only(front);
        assert(is_env_step(steps[steps.len() - 1]));
    }
}

/// Of two lists of steps carried out one after the other, the second
/// decides the directory if it names one, and the arguments of both are put
/// together in order.
pub proof fn lemma_place_after_concat(first: Seq<StepModel>, second: Seq<StepModel>)
    ensures
        cwd_after(first + second) == match cwd_after(second) {
            Some(dir) => Some(dir),
            None => cwd_after(first),
        },
        args_after(first + second) == args_after(first) + args_after(second),
    decreases second.len(),
{
    if second.len() == 0 {
        assert(first + second =~= first);
        assert(args_after(first) + args_after(second) =~= args_after(first));
    } else {
        lemma_place_after_concat(first, second.drop_last());
        assert((first + second).drop_last() =~= first + second.drop_last());
        assert((first + second).last() == second.last());
        match second.last() {
            StepModel::Arg(a) => {
                assert(args_after(first) + args_after(second.drop_last()).push(a) =~= (args_after(
                    first,
                ) + args_after(second.drop_last())).push(a));
            },
            _ => {},
        }
    }
}

/// A task that asks for a clean environment gets one: its child sees the
/// variable that carries the command to bash and the task's own
/// variables, and nothing of the environment it would have inherited.
pub proof fn lemma_clear_wipes_inherited(
    base: Map<Seq<char>, Seq<char>>,
    shell: Seq<char>,
    command: Seq<char>,
    rcfile: Seq<char>,
    task: Task,
)
    requires
        task.env_clear == Some(true),
    ensures
        env_after(base, instance_steps(shell, command, rcfile, task)) == env_after(
            Map::empty(),
            shell_env(shell, command) + env_steps(task.env),
        ),
{
    let head = shell_args(shell, command, rcfile) + cwd_steps(task.cwd);
    let clear = clear_steps(task.env_clear);
    let tail = shell_env(shell, command) + env_steps(task.env);
    assert(instance_steps(shell, command, rcfile, task) =~= (head + clear) + tail);
    lemma_env_after_concat(base, head + clear, tail);
    assert((head + clear).last() == StepModel::EnvClear);
}

/// Under bash the command reaches the hook file whatever the task asks
/// for: the child's environment holds it in `CMDHUB_INIT_CMD`, also where
/// the inherited environment is wiped, as long as the task itself does not
/// set that variable.
pub proof fn lemma_command_survives_clear(
    base: Map<Seq<char>, Seq<char>>,
    shell: Seq<char>,
    command: Seq<char>,
    rcfile: Seq<char>,
    task: Task,
)
    requires
        is_bash(shell),
        task.env matches Some(pairs) ==> forall|i: int|
            0 <= i < pairs@.len() ==> (#[trigger] pairs@[i]).0@ != "CMDHUB_INIT_CMD"@,
    ensures
        env_after(base, instance_steps(shell, command, rcfile, task)).dom().contains(
            "CMDHUB_INIT_CMD"@,
        ),
        env_after(base, instance_steps(shell, command, rcfile, task))["CMDHUB_INIT_CMD"@]
            == command,
{
    let steps = instance_steps(shell, command, rcfile, task);
    let head = shell_args(shell, command, rcfile) + cwd_steps(task.cwd) + clear_steps(
        task.env_clear,
    );
    let i = head.len() as int;
    let key = "CMDHUB_INIT_CMD"@;
    assert(steps =~= head + shell_env(shell, command) + env_steps(task.env));
    assert(steps[i] == StepModel::Env(key, command));
    assert forall|j: int| i < j < steps.len() implies !touches(#[trigger] steps[j], key) by {
        assert(steps[j] == env_steps(task.env)[j - i - 1]);
    }
    lemma_last_setting_wins(base, steps, i, key, command);
}

/// Every variable of the task reaches the child: the environment holds
/// the value of the `k`-th pair under its name, unless a later pair of the
/// task sets the same name again.
pub proof fn lemma_task_variables_set(
    base: Map<Seq<char>, Seq<char>>,
    shell: Seq<char>,
    command: Seq<char>,
    rcfile: Seq<char>,
    task: Task,
    k: int,
)
    requires
        task.env is Some,
        0 <= k < task.env->0@.len(),
        forall|j: int|
            k < j < task.env->0@.len() ==> (#[trigger] task.env->0@[j]).0@ != task.env->0@[k].0@,
    ensures
        env_after(base, instance_steps(shell, command, rcfile, task)).dom().contains(
            task.env->0@[k].0@,
        ),
        env_after(base, instance_steps(shell, command, rcfile, task))[task.env->0@[k].0@]
            == task.env->0@[k].1@,
{
    let pairs = task.env->0@;
    let steps = instance_steps(shell, command, rcfile, task);
    let head = shell_args(shell, command, rcfile) + cwd_steps(task.cwd) + clear_steps(
        task.env_clear,
    ) + shell_env(shell, command);
    let i = head.len() + k;
    assert(steps =~= head + env_steps(task.env));
    assert(steps[i] == env_steps(task.env)[k]);
    assert forall|j: int| i < j < steps.len() implies !touches(
        #[trigger] steps[j],
        pairs[k].0@,
    ) by {
        assert(steps[j] == env_steps(task.env)[j - head.len()]);
        assert(pairs[j - head.len()].0@ != pairs[k].0@);
    }
    lemma_last_setting_wins(base, steps, i, pairs[k].0@, pairs[k].1@);
}

/// An instance starts in the task's directory, if the task names one, and
/// its shell gets the arguments that make it run the command and stay
/// open, whatever the task asks of the environment.
pub proof fn lemma_instance_place(
    shell: Seq<char>,
    command: Seq<char>,
    rcfile: Seq<char>,
    task: Task,
)
    ensures
        cwd_after(instance_steps(shell, command, rcfile, task)) == match task.cwd {
            Some(dir) => Some(dir@),
            None => None,
        },
        args_after(instance_steps(shell, command, rcfile, task)) == shell_arguments(
            shell,
            command,
            rcfile,
        ),
{
    let args = shell_args(shell, command, rcfile);
    let dir = cwd_steps(task.cwd);
    let rest = clear_steps(task.env_clear) + shell_env(shell, command) + env_steps(task.env);
    assert(instance_steps(shell, command, rcfile, task) =~= (args + dir) + rest);
    lemma_env_steps_only(rest);
    lemma_place_after_concat(args + dir, rest);
    lemma_place_after_concat(args, dir);
    reveal_with_fuel(args_after, 6);
    reveal_with_fuel(cwd_after, 6);
    if is_bash(shell) {
        assert(args.drop_last() =~= seq![
            StepModel::Arg("--noprofile"@),
            StepModel::Arg("--rcfile"@),
            StepModel::Arg(rcfile),
        ]);
        assert(args.drop_last().drop_last() =~= seq![
            StepModel::Arg("--noprofile"@),
            StepModel::Arg("--rcfile"@),
        ]);
        assert(args.drop_last().drop_last().drop_last() =~= seq![StepModel::Arg("--noprofile"@)]);
        assert(args_after(args) =~= shell_arguments(shell, command, rcfile));
    } else {
        assert(args.drop_last() =~= seq![StepModel::Arg("-c"@)]);
        assert(args_after(args) =~= shell_arguments(shell, command, rcfile));
    }
    assert(args_after(args) + args_after(dir) =~= args_after(args));
    assert(args_after(args + dir) + args_after(rest) =~= args_after(args + dir));
}

/// Whether a shell is bash: its path ends in `bash` or holds `/bash`.
pub fn is_bash_shell(shell: &str) -> (b: bool)
    ensures
        b == is_bash(shell@),
{
    let s = chars_of(shell);
    let bash = chars_of("bash");
    let slash_bash = chars_of("/bash");
    has_suffix(&s, &bash) || contains(&s, &slash_bash)
}

/// The shell to use: the user's, or `bash` when none is set.
pub fn shell_or_default(shell: Option<String>) -> (r: String)
    ensures
        r@ == match shell {
            Some(s) => s@,
            None => "bash"@,
        },
{
    match shell {
        Some(s) => s,
        None => "bash".to_owned(),
    }
}

fn arg(text: &str) -> (step: LaunchStep)
    ensures
        step@ == StepModel::Arg(text@),
{
    LaunchStep::Arg(text.to_owned())
}

/// Appends to `steps` where a task wants to start and whether it wants
/// the inherited environment wiped.
fn push_place_steps(steps: &mut Vec<LaunchStep>, task: &Task)
    ensures
        steps_view(final(steps)@) == steps_view(old(steps)@) + cwd_steps(task.cwd) + clear_steps(
            task.env_clear,
        ),
{
    match &task.cwd {
        Some(dir) => {
            steps.push(LaunchStep::Cwd(dir.clone()));
        },
        None => {},
    }
    match task.env_clear {
        Some(true) => {
            steps.push(LaunchStep::EnvClear);
        },
        _ => {},
    }
}

/// Appends to `steps` one step for each variable of the task, in order.
fn push_env_steps(steps: &mut Vec<LaunchStep>, task: &Task)
    ensures
        steps_view(final(steps)@) == steps_view(old(steps)@) + env_steps(task.env),
{
    let ghost start = steps_view(steps@);
    match &task.env {
        Some(pairs) => {
            let mut i: usize = 0;
            while i < pairs.len()
                invariant
                    i <= pairs@.len(),
                    task.env == Some(*pairs),
                    steps_view(steps@) == start + env_steps(task.env).take(i as int),
                decreases pairs@.len() - i,
            {
                let ghost had = steps_view(steps@);
                let step = LaunchStep::Env(pairs[i].0.clone(), pairs[i].1.clone());
                steps.push(step);
                assert(steps_view(steps@) =~= had.push(step@));
                i += 1;
            }
        },
        None => {},
    }
}

/// How to start an instance of `task` whose rendered command is `command`
/// inside the user's shell `shell`, so that the terminal stays open when
/// the command has finished. `rcfile` is where the bash hook file stands.
/// The inherited environment is wiped, where the task asks for that,
/// before any variable is set, so that the command reaches bash and the
/// task's variables reach the child.
pub fn instance_plan(shell: &str, command: &str, rcfile: &str, task: &Task) -> (plan: LaunchPlan)
    ensures
        plan.program@ == shell@,
        steps_view(plan.steps@) == instance_steps(shell@, command@, rcfile@, *task),
{
    let bash = is_bash_shell(shell);
    let mut steps: Vec<LaunchStep> = Vec::new();
    if bash {
        steps.push(arg("--noprofile"));
        steps.push(arg("--rcfile"));
        steps.push(arg(rcfile));
        steps.push(arg("-i"));
    } else {
        steps.push(arg("-c"));
        let mut line = chars_of(command);
        let glue = chars_of("; exec ");
        let tail = chars_of(shell);
        extend(&mut line, &glue);
        extend(&mut line, &tail);
        steps.push(LaunchStep::Arg(text_of(&line)));
    }
    assert(steps_view(steps@) =~= shell_args(shell@, command@, rcfile@));
    push_place_steps(&mut steps, task);
    let ghost placed = steps_view(steps@);
    if bash {
        steps.push(LaunchStep::Env("CMDHUB_INIT_CMD".to_owned(), command.to_owned()));
    }
    assert(steps_view(steps@) =~= placed + shell_env(shell@, command@));
    push_env_steps(&mut steps, task);
    LaunchPlan { program: shell.to_owned(), steps: steps }
}

/// How to start a one-off command: `sh -c command`, in `cwd` when one is
/// given.
pub fn command_plan(command: &str, cwd: Option<String>) -> (plan: LaunchPlan)
    ensures
        plan.program@ == "sh"@,
        steps_view(plan.steps@) == seq![StepModel::Arg("-c"@), StepModel::Arg(command@)]
            + cwd_steps(cwd),
{
    let mut steps: Vec<LaunchStep> = Vec::new();
    steps.push(arg("-c"));
    steps.push(arg(command));
    match cwd {
        Some(dir) => {
            steps.push(LaunchStep::Cwd(dir));
        },
        None => {},
    }
    LaunchPlan { program: "sh".to_owned(), steps: steps }
}

/// How the interface starts a task whose rendered command is `command`:
/// `sh -c command`, with the task's directory, wipe of the environment
/// and variables.
pub fn task_command_plan(command: &str, task: &Task) -> (plan: LaunchPlan)
    ensures
        plan.program@ == "sh"@,
        steps_view(plan.steps@) == seq![StepModel::Arg("-c"@), StepModel::Arg(command@)]
            + cwd_steps(task.cwd) + clear_steps(task.env_clear) + env_steps(task.env),
{
    let mut steps: Vec<LaunchStep> = Vec::new();
    steps.push(arg("-c"));
    steps.push(arg(command));
    push_place_steps(&mut steps, task);
    push_env_steps(&mut steps, task);
    LaunchPlan { program: "sh".to_owned(), steps: steps }
}

/// How the host of session `id` starts its payload: the program `exe`
/// itself, as the interface of that session, in the directory `cwd`.
pub fn host_child_plan(exe: &str, cwd: &str, id: SessionId) -> (plan: LaunchPlan)
    ensures
        plan.program@ == exe@,
        steps_view(plan.steps@) == seq![
            StepModel::Arg("tui"@),
            StepModel::Arg("--session"@),
            StepModel::Arg(hyphenated(id.bits)),
            StepModel::Cwd(cwd@),
        ],
{
    let mut steps: Vec<LaunchStep> = Vec::new();
    steps.push(arg("tui"));
    steps.push(arg("--session"));
    steps.push(LaunchStep::Arg(id.to_text()));
    steps.push(LaunchStep::Cwd(cwd.to_owned()));
    LaunchPlan { program: exe.to_owned(), steps: steps }
}

} // verus!

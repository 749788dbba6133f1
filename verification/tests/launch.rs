use cmdhub::ids::SessionId;
use cmdhub::launch::{
    command_plan, host_child_plan, instance_plan, is_bash_shell, shell_or_default,
    task_command_plan, LaunchPlan,
    LaunchStep,
};
use cmdhub::models::Task;

fn task() -> Task {
    Task {
        id: "t".to_string(),
        name: "T".to_string(),
        command: "make".to_string(),
        category: None,
        cwd: None,
        env: None,
        env_clear: None,
        inputs: None,
    }
}

fn arg(s: &str) -> LaunchStep {
    LaunchStep::Arg(s.to_string())
}

#[test]
fn bash_is_recognised_by_its_path() {
    assert!(is_bash_shell("bash"));
    assert!(is_bash_shell("/bin/bash"));
    assert!(is_bash_shell("/usr/local/bash/bin/sh"));
    assert!(is_bash_shell("rbash"));
    assert!(!is_bash_shell("/bin/zsh"));
    assert!(is_bash_shell("/bin/bash5"));
    assert!(!is_bash_shell("/bin/dash"));
    assert!(!is_bash_shell(""));
    assert!(!is_bash_shell("bas"));
}

#[test]
fn shell_defaults_to_bash() {
    assert_eq!(shell_or_default(None), "bash");
    assert_eq!(shell_or_default(Some("/bin/zsh".to_string())), "/bin/zsh");
}

#[test]
fn bash_gets_the_hook_file_and_the_command_in_the_environment() {
    let plan = instance_plan("/bin/bash", "make all", "/tmp/cmdhub_bashrc", &task());
    assert_eq!(
        plan,
        LaunchPlan {
            program: "/bin/bash".to_string(),
            steps: vec![
                arg("--noprofile"),
                arg("--rcfile"),
                arg("/tmp/cmdhub_bashrc"),
                arg("-i"),
                LaunchStep::Env("CMDHUB_INIT_CMD".to_string(), "make all".to_string()),
            ],
        }
    );
}

#[test]
fn other_shells_run_the_command_and_stay() {
    let plan = instance_plan("/bin/zsh", "make all", "/tmp/rc", &task());
    assert_eq!(
        plan,
        LaunchPlan {
            program: "/bin/zsh".to_string(),
            steps: vec![arg("-c"), arg("make all; exec /bin/zsh")],
        }
    );
}

#[test]
fn task_settings_follow_in_order() {
    let mut t = task();
    t.cwd = Some("/work".to_string());
    t.env_clear = Some(true);
    t.env = Some(vec![
        ("A".to_string(), "1".to_string()),
        ("B".to_string(), "2".to_string()),
    ]);
    let plan = instance_plan("/bin/sh", "x", "/rc", &t);
    assert_eq!(
        plan.steps,
        vec![
            arg("-c"),
            arg("x; exec /bin/sh"),
            LaunchStep::Cwd("/work".to_string()),
            LaunchStep::EnvClear,
            LaunchStep::Env("A".to_string(), "1".to_string()),
            LaunchStep::Env("B".to_string(), "2".to_string()),
        ]
    );
    t.env_clear = Some(false);
    t.env = Some(Vec::new());
    let plan = instance_plan("/bin/sh", "x", "/rc", &t);
    assert_eq!(
        plan.steps,
        vec![arg("-c"), arg("x; exec /bin/sh"), LaunchStep::Cwd("/work".to_string())]
    );
}

#[test]
fn one_off_command_runs_under_sh() {
    assert_eq!(
        command_plan("ls", None),
        LaunchPlan { program: "sh".to_string(), steps: vec![arg("-c"), arg("ls")] }
    );
    assert_eq!(
        command_plan("ls", Some("/tmp".to_string())),
        LaunchPlan {
            program: "sh".to_string(),
            steps: vec![arg("-c"), arg("ls"), LaunchStep::Cwd("/tmp".to_string())],
        }
    );
}

#[test]
fn host_starts_the_interface_of_its_session() {
    let id = SessionId { bits: 0x550e8400e29b41d4a716446655440000 };
    assert_eq!(
        host_child_plan("/usr/bin/cmdhub", "/work", id),
        LaunchPlan {
            program: "/usr/bin/cmdhub".to_string(),
            steps: vec![
                arg("tui"),
                arg("--session"),
                arg("550e8400-e29b-41d4-a716-446655440000"),
                LaunchStep::Cwd("/work".to_string()),
            ],
        }
    );
}

#[test]
fn interface_runs_a_task_under_sh_with_its_settings() {
    let mut t = task();
    assert_eq!(
        task_command_plan("make", &t),
        LaunchPlan { program: "sh".to_string(), steps: vec![arg("-c"), arg("make")] }
    );
    t.cwd = Some("/w".to_string());
    t.env_clear = Some(true);
    t.env = Some(vec![("K".to_string(), "V".to_string())]);
    assert_eq!(
        task_command_plan("make", &t).steps,
        vec![
            arg("-c"),
            arg("make"),
            LaunchStep::Cwd("/w".to_string()),
            LaunchStep::EnvClear,
            LaunchStep::Env("K".to_string(), "V".to_string()),
        ]
    );
}

/// Carries the steps out as a command builder does: a later setting
/// overrides an earlier one, and a wipe empties the whole environment.
fn carry_out(
    inherited: &[(&str, &str)],
    steps: &[LaunchStep],
) -> (Vec<String>, Option<String>, std::collections::BTreeMap<String, String>) {
    let mut args = Vec::new();
    let mut cwd = None;
    let mut env: std::collections::BTreeMap<String, String> =
        inherited.iter().map(|(k, v)| (k.to_string(), v.to_string())).collect();
    for step in steps {
        match step {
            LaunchStep::Arg(a) => args.push(a.clone()),
            LaunchStep::Env(k, v) => {
                env.insert(k.clone(), v.clone());
            }
            LaunchStep::Cwd(d) => cwd = Some(d.clone()),
            LaunchStep::EnvClear => env.clear(),
        }
    }
    (args, cwd, env)
}

#[test]
fn bash_with_a_clean_environment_clears_before_it_sets() {
    let mut t = task();
    t.cwd = Some("/work".to_string());
    t.env_clear = Some(true);
    t.env = Some(vec![
        ("A".to_string(), "1".to_string()),
        ("B".to_string(), "2".to_string()),
    ]);
    let plan = instance_plan("/bin/bash", "make all", "/tmp/rc", &t);
    assert_eq!(
        plan.steps,
        vec![
            arg("--noprofile"),
            arg("--rcfile"),
            arg("/tmp/rc"),
            arg("-i"),
            LaunchStep::Cwd("/work".to_string()),
            LaunchStep::EnvClear,
            LaunchStep::Env("CMDHUB_INIT_CMD".to_string(), "make all".to_string()),
            LaunchStep::Env("A".to_string(), "1".to_string()),
            LaunchStep::Env("B".to_string(), "2".to_string()),
        ]
    );
}

#[test]
fn command_reaches_bash_when_the_environment_is_wiped() {
    let mut t = task();
    t.cwd = Some("/work".to_string());
    t.env_clear = Some(true);
    t.env = Some(vec![
        ("A".to_string(), "1".to_string()),
        ("B".to_string(), "2".to_string()),
        ("A".to_string(), "3".to_string()),
    ]);
    let plan = instance_plan("/bin/bash", "make all", "/tmp/rc", &t);
    let (args, cwd, env) =
        carry_out(&[("HOME", "/home/u"), ("CMDHUB_INIT_CMD", "stale")], &plan.steps);
    assert_eq!(args, vec!["--noprofile", "--rcfile", "/tmp/rc", "-i"]);
    assert_eq!(cwd, Some("/work".to_string()));
    let want: std::collections::BTreeMap<String, String> = [
        ("CMDHUB_INIT_CMD", "make all"),
        ("A", "3"),
        ("B", "2"),
    ]
    .iter()
    .map(|(k, v)| (k.to_string(), v.to_string()))
    .collect();
    assert_eq!(env, want);
}

#[test]
fn inherited_environment_stays_without_a_wipe() {
    let mut t = task();
    t.env = Some(vec![("A".to_string(), "1".to_string())]);
    let plan = instance_plan("bash", "ls", "/rc", &t);
    let (_, cwd, env) = carry_out(&[("HOME", "/home/u")], &plan.steps);
    assert_eq!(cwd, None);
    assert_eq!(env.get("HOME").map(|s| s.as_str()), Some("/home/u"));
    assert_eq!(env.get("CMDHUB_INIT_CMD").map(|s| s.as_str()), Some("ls"));
    assert_eq!(env.get("A").map(|s| s.as_str()), Some("1"));
    let other = instance_plan("/bin/zsh", "ls", "/rc", &t);
    let (args, _, env) = carry_out(&[("HOME", "/home/u")], &other.steps);
    assert_eq!(args, vec!["-c", "ls; exec /bin/zsh"]);
    assert_eq!(env.get("CMDHUB_INIT_CMD"), None);
}

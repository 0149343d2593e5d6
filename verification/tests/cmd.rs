use kubeinit::cmd::{self, Command, Exit, Invocation, Outcome};
use kubeinit::error::Error;
use kubeinit::plan::{Io, Plan, Step, Topic};

fn strings(list: &[&str]) -> Vec<String> {
    list.iter().map(|s| s.to_string()).collect()
}

#[test]
fn root_runs_commands_as_they_are() {
    let r = cmd::run_privileged(true, "rm".to_string(), strings(&["-f", "/x"]));
    assert_eq!(r, Invocation { program: "rm".to_string(), args: strings(&["-f", "/x"]) });
}

#[test]
fn others_prefix_privileged_commands_with_sudo() {
    let r = cmd::run_privileged(false, "rm".to_string(), strings(&["-f", "/x"]));
    assert_eq!(r, Invocation { program: "sudo".to_string(), args: strings(&["rm", "-f", "/x"]) });
}

#[test]
fn commands_elevate_only_if_they_need_it() {
    let user = Command::as_user("kubectl").arg("get").arg("nodes");
    assert_eq!(
        user.invocation(false),
        Invocation { program: "kubectl".to_string(), args: strings(&["get", "nodes"]) }
    );
    let root = Command::as_root("kubeadm").arg("reset");
    assert_eq!(
        root.invocation(false),
        Invocation { program: "sudo".to_string(), args: strings(&["kubeadm", "reset"]) }
    );
    let root = Command::as_root("kubeadm").arg("reset");
    assert_eq!(
        root.invocation(true),
        Invocation { program: "kubeadm".to_string(), args: strings(&["reset"]) }
    );
}

#[test]
fn binaries_are_looked_up_on_the_path() {
    assert_eq!(
        cmd::binary_exists("helm"),
        Command { privileged: false, program: "which".to_string(), args: strings(&["helm"]) }
    );
}

#[test]
fn the_end_of_a_program_is_its_text_or_an_error() {
    assert_eq!(cmd::run("ip", Outcome::Success("x".to_string())), Ok("x".to_string()));
    let error = cmd::run("ip", Outcome::NotStarted("no such file".to_string())).unwrap_err();
    assert_eq!(
        error,
        Error::NotStarted { program: "ip".to_string(), cause: "no such file".to_string() }
    );
    assert_eq!(error.message(), "failed to execute ip");
    assert_eq!(error.cause(), Some("no such file"));
    assert_eq!(error.describe(), "failed to execute ip: no such file");
    let error = cmd::run("ip", Outcome::Failure("exit status: 2".to_string())).unwrap_err();
    assert_eq!(
        error,
        Error::Exited { program: "ip".to_string(), status: "exit status: 2".to_string() }
    );
    assert_eq!(error.message(), "ip exited with status exit status: 2");
    assert_eq!(error.cause(), None);
    assert_eq!(error.describe(), "ip exited with status exit status: 2");
}

fn exit(success: bool, status: &str) -> Result<Exit, String> {
    Ok(Exit { success, status: status.to_string() })
}

fn captured(stdout: &[u8]) -> String {
    cmd::run_output(exit(true, "exit status: 0"), stdout).text()
}

#[test]
fn captured_output_is_decoded_and_trimmed() {
    assert_eq!(captured(b"  node-1\n"), "node-1");
    assert_eq!(captured("gr\u{fc}n \n".as_bytes()), "gr\u{fc}n");
    assert_eq!(captured(b"a\xffb\n"), "a\u{fffd}b");
    assert_eq!(captured(b""), "");
}

#[test]
fn the_exit_of_a_program_is_its_outcome() {
    assert_eq!(
        cmd::ended(exit(true, "exit status: 0"), "text".to_string()),
        Outcome::Success("text".to_string())
    );
    assert_eq!(
        cmd::ended(exit(false, "signal: 9 (SIGKILL)"), "text".to_string()),
        Outcome::Failure("signal: 9 (SIGKILL)".to_string())
    );
    assert_eq!(
        cmd::ended(Err("denied".to_string()), "text".to_string()),
        Outcome::NotStarted("denied".to_string())
    );
    assert_eq!(
        cmd::run_output(exit(false, "exit status: 1"), b"partial"),
        Outcome::Failure("exit status: 1".to_string())
    );
    assert_eq!(
        cmd::run_output(Err("denied".to_string()), b""),
        Outcome::NotStarted("denied".to_string())
    );
}

#[test]
fn outcomes_give_their_text() {
    assert!(Outcome::Success("a".to_string()).succeeded());
    assert!(!Outcome::NotStarted("denied".to_string()).succeeded());
    assert_eq!(Outcome::Success("a".to_string()).text(), "a");
    assert_eq!(Outcome::Failure("a".to_string()).text(), "");
}

#[test]
fn root_needs_no_privilege_check() {
    assert_eq!(cmd::ensure_privilege(true), Plan { steps: Vec::new() });
}

#[test]
fn others_ask_sudo_on_the_terminal() {
    assert_eq!(
        cmd::ensure_privilege(false),
        Plan {
            steps: vec![Step::Ask {
                io: Io::Interactive,
                command: Command {
                    privileged: false,
                    program: "sudo".to_string(),
                    args: strings(&["-v"]),
                },
                topic: Topic::Elevation,
            }],
        }
    );
}

#[test]
fn sudo_must_grant_privileges() {
    assert_eq!(cmd::elevation(Outcome::Success(String::new())), Plan { steps: Vec::new() });
    assert_eq!(
        cmd::elevation(Outcome::NotStarted("denied".to_string())),
        Plan {
            steps: vec![Step::Fail(Error::NotStarted {
                program: "sudo".to_string(),
                cause: "denied".to_string(),
            })],
        }
    );
    assert_eq!(
        cmd::elevation(Outcome::Failure("exit status: 1".to_string())),
        Plan { steps: vec![Step::Fail(Error::SudoRequired)] }
    );
    assert_eq!(
        Error::<String>::SudoRequired.message(),
        "sudo access is required to install dependencies"
    );
}

//! What joining a cluster does, and what a new node is told to do.
use crate::cli;
use crate::cli::Request;
use crate::cluster;
use crate::cluster::{JoinConfig, NodeRole};
use crate::cmd::{InvocationView, Outcome};
use crate::config::Host;
use crate::deps;
use crate::error::Error;
use crate::laws;
use crate::laws::initializing;
use crate::laws::steps;
use crate::laws::texts;
use crate::plan::{Io, StepView};
use crate::run;
use crate::run::World;
use crate::text;
use crate::workflow::{ActionView, ProgressView};
use vstd::prelude::*;

verus! {

// ── Joining ──────────────────────────────────────────────────────────────────

/// What kubeadm is told to join: the options of a control-plane node come last,
/// and only there.
pub open spec fn told(config: JoinConfig<Seq<char>>) -> Seq<Seq<char>> {
    let common = seq![
        "join"@,
        config.api_server,
        "--token"@,
        config.token,
        "--discovery-token-ca-cert-hash"@,
        config.ca_cert_hash,
    ];
    if config.role == NodeRole::ControlPlane {
        common.push("--control-plane"@).push("--certificate-key"@).push(config.certificate_key->0)
    } else {
        common
    }
}

/// Joining has kubeadm join as root, with the values of the configuration, and
/// then hands the kubeconfig over. Another user than root does so through
/// `sudo`, and that is the first thing that is executed.
pub proof fn a_node_joins_as_root(host: Host, config: JoinConfig<Seq<char>>, world: World)
    requires
        config.role == NodeRole::ControlPlane ==> config.certificate_key is Some,
    ensures
        ({
            let plan = cluster::join_cluster_plan(host, config);
            &&& plan[0] == steps::root_must("kubeadm"@, told(config))
            &&& initializing::gives_kubeconfig(host, plan)
            &&& run::run_at(host, plan, world, 0).0 == ProgressView::Act(
                ActionView::Execute {
                    io: Io::Stream,
                    invocation: if host.root {
                        InvocationView { program: "kubeadm"@, args: told(config) }
                    } else {
                        InvocationView { program: "sudo"@, args: seq!["kubeadm"@] + told(config) }
                    },
                },
            )
        }),
{
    let plan = cluster::join_cluster_plan(host, config);
    let first = steps::root_must("kubeadm"@, told(config));
    assert(cluster::join_args(config) =~= told(config));
    assert(plan[0] =~~= first);
    let none = Seq::<StepView>::empty();
    initializing::lemma_gives_kubeconfig(host, seq![first], none);
    assert(plan =~= seq![first] + cluster::setup_kubeconfig_plan(host) + none);
    run::lemma_run_begins(host, plan, world, 0);
}

/// A join request installs what is missing and makes the preflight checks. It
/// then joins in the role that is named, with the values of the request, unless
/// there is no such role or a control-plane node has no key.
pub proof fn a_join_request_uses_its_values(
    host: Host,
    role: Seq<char>,
    token: Seq<char>,
    api_server: Seq<char>,
    ca_cert_hash: Seq<char>,
    certificate_key: Option<Seq<char>>,
    kubernetes_version: Option<Seq<char>>,
    cilium_version: Option<Seq<char>>,
)
    ensures
        ({
            let plan = cli::request_plan(
                host,
                Request::Join {
                    role,
                    token,
                    api_server,
                    ca_cert_hash,
                    certificate_key,
                    kubernetes_version,
                    cilium_version,
                },
            );
            let before = deps::install_all_plan(host, kubernetes_version, cilium_version)
                + cluster::preflight_checks_plan();
            let n = before.len() as int;
            let name = text::lowercase(role);
            let is_worker = name == "worker"@;
            let is_control_plane = name == "control-plane"@ || name == "controlplane"@ || name
                == "master"@ || name == "both"@;
            &&& n <= plan.len() && plan.take(n) == before
            &&& is_worker ==> {
                &&& plan[n] == steps::root_must(
                    "kubeadm"@,
                    told(
                        JoinConfig {
                            role: NodeRole::Worker,
                            token,
                            api_server,
                            ca_cert_hash,
                            certificate_key,
                        },
                    ),
                )
                &&& initializing::gives_kubeconfig(host, plan.skip(n))
            }
            &&& is_control_plane && certificate_key is Some ==> {
                &&& plan[n] == steps::root_must(
                    "kubeadm"@,
                    told(
                        JoinConfig {
                            role: NodeRole::ControlPlane,
                            token,
                            api_server,
                            ca_cert_hash,
                            certificate_key,
                        },
                    ),
                )
                &&& initializing::gives_kubeconfig(host, plan.skip(n))
            }
            &&& is_control_plane && certificate_key is None ==> plan.skip(n) =~= seq![
                StepView::Fail(Error::CertificateKeyRequired),
            ]
            &&& !is_worker && !is_control_plane ==> plan.skip(n) =~= seq![
                StepView::Fail(Error::InvalidRole(role)),
            ]
        }),
{
    let before = deps::install_all_plan(host, kubernetes_version, cilium_version)
        + cluster::preflight_checks_plan();
    let n = before.len() as int;
    let name = text::lowercase(role);
    let last = cli::join_as_plan(
        host,
        cluster::role_of(role),
        token,
        api_server,
        ca_cert_hash,
        certificate_key,
    );
    lemma_other_roles_are_no_workers();
    lemma_behind(before, last);
    let is_worker = name == "worker"@;
    let is_control_plane = name == "control-plane"@ || name == "controlplane"@ || name
        == "master"@ || name == "both"@;
    if is_worker || is_control_plane && certificate_key is Some {
        let config = JoinConfig {
            role: if is_worker {
                NodeRole::Worker
            } else {
                NodeRole::ControlPlane
            },
            token,
            api_server,
            ca_cert_hash,
            certificate_key,
        };
        assert(last == cluster::join_cluster_plan(host, config));
        let world: World = |i: nat| Outcome::Success(seq![]);
        a_node_joins_as_root(host, config, world);
    }
}

/// The steps in front of others, and those others.
proof fn lemma_behind(before: Seq<StepView>, last: Seq<StepView>)
    ensures
        (before + last).take(before.len() as int) == before,
        (before + last).skip(before.len() as int) == last,
        last.len() > 0 ==> (before + last)[before.len() as int] == last[0],
{
    assert((before + last).take(before.len() as int) =~= before);
    assert((before + last).skip(before.len() as int) =~= last);
}

/// No name of a control-plane node is that of a worker.
proof fn lemma_other_roles_are_no_workers()
    ensures
        "worker"@ != "control-plane"@,
        "worker"@ != "controlplane"@,
        "worker"@ != "master"@,
        "worker"@ != "both"@,
{
    reveal_strlit("worker");
    reveal_strlit("control-plane");
    reveal_strlit("controlplane");
    reveal_strlit("master");
    reveal_strlit("both");
    assert("worker"@[0] == 'w' && "control-plane"@[0] == 'c' && "controlplane"@[0] == 'c'
        && "master"@[0] == 'm' && "both"@[0] == 'b');
}

// ── Join commands ────────────────────────────────────────────────────────────

/// The certificate key is what stands behind the last newline of what kubeadm
/// prints, without white space around it, however many lines are in front; or
/// everything, if there is no newline.
pub proof fn the_key_is_the_last_line(
    before: Seq<char>,
    lead: Seq<char>,
    key: Seq<char>,
    trail: Seq<char>,
)
    requires
        laws::is_word(key),
        texts::is_blank(lead) && texts::is_line(lead),
        texts::is_blank(trail) && texts::is_line(trail),
    ensures
        cluster::uploaded_key(before + seq!['\n'] + (lead + key + trail)) == key,
        cluster::uploaded_key(lead + key + trail) == key,
{
    let line = lead + key + trail;
    assert(!text::is_white(key[0]) && !text::is_white(key.last()));
    texts::trimming_removes_the_surrounding_space(lead, key, trail);
    assert forall|i: int| 0 <= i < line.len() implies #[trigger] line[i] != '\n' by {
        if i < lead.len() {
            assert(line[i] == lead[i]);
        } else if i < lead.len() + key.len() {
            assert(line[i] == key[i - lead.len()]);
        } else {
            assert(line[i] == trail[i - lead.len() - key.len()]);
        }
    }
    texts::the_last_line_stands_behind_the_last_newline(before, line);
    texts::lemma_run_before_of(line, Seq::empty(), '\n');
    assert(line + Seq::<char>::empty() =~= line);
    assert(text::lines(line) == seq![line]);
}

/// Whether a text ends in another.
pub open spec fn ends_in(s: Seq<char>, end: Seq<char>) -> bool {
    exists|a: Seq<char>| s == #[trigger] (a + end)
}

/// The hint for a role and the values of a join command.
pub open spec fn hint(
    role: Seq<char>,
    api_server: Seq<char>,
    token: Seq<char>,
    ca_cert_hash: Seq<char>,
) -> Seq<char> {
    "  kubeinit join --role "@ + role + " \\\n    --api-server "@ + api_server
        + " \\\n    --token "@ + token + " \\\n    --ca-cert-hash "@ + ca_cert_hash
}

/// For a worker, the join command that kubeadm prints is printed unchanged, and
/// with it a hint that has the values of that command.
pub proof fn a_worker_is_told_the_join_command(
    host: Host,
    api_server: Seq<char>,
    token: Seq<char>,
    ca_cert_hash: Seq<char>,
)
    requires
        laws::is_word(api_server),
        laws::is_word(token),
        laws::is_word(ca_cert_hash),
        api_server != "--token"@,
        api_server != "--discovery-token-ca-cert-hash"@,
        token != "--discovery-token-ca-cert-hash"@,
    ensures
        ({
            let plan = cli::request_plan(host, Request::JoinToken { control_plane: false });
            let command = laws::printed_join_command(api_server, token, ca_cert_hash);
            &&& plan.len() == 1
            &&& steps::reads(
                plan[0],
                true,
                "kubeadm"@,
                seq!["token"@, "create"@, "--print-join-command"@],
            )
            &&& steps::answered(host, plan[0], Outcome::Success(command)) =~= seq![
                StepView::Print(command),
                StepView::Print(""@),
                StepView::Print("Or use kubeinit on the joining node:"@),
                StepView::Print(hint("worker"@, api_server, token, ca_cert_hash)),
            ]
        }),
{
    laws::a_join_hint_amounts_to_its_join_command(api_server, token, ca_cert_hash, api_server);
}

/// For a control-plane node, the certificates are uploaded after the join
/// command is made. That command is printed with the key behind it that stands
/// in the last line of the upload's output, and so is the hint.
pub proof fn a_control_plane_node_is_told_the_key(
    host: Host,
    api_server: Seq<char>,
    token: Seq<char>,
    ca_cert_hash: Seq<char>,
    before: Seq<char>,
    key: Seq<char>,
)
    requires
        laws::is_word(api_server),
        laws::is_word(token),
        laws::is_word(ca_cert_hash),
        laws::is_word(key),
        api_server != "--token"@,
        api_server != "--discovery-token-ca-cert-hash"@,
        token != "--discovery-token-ca-cert-hash"@,
    ensures
        ({
            let plan = cli::request_plan(host, Request::JoinToken { control_plane: true });
            let command = laws::printed_join_command(api_server, token, ca_cert_hash);
            let upload = steps::answered(host, plan[0], Outcome::Success(command));
            let output = before + seq!['\n'] + key;
            &&& plan.len() == 1
            &&& steps::reads(
                plan[0],
                true,
                "kubeadm"@,
                seq!["token"@, "create"@, "--print-join-command"@],
            )
            &&& upload.len() == 1
            &&& steps::reads(
                upload[0],
                true,
                "kubeadm"@,
                seq!["init"@, "phase"@, "upload-certs"@, "--upload-certs"@],
            )
            &&& steps::answered(host, upload[0], Outcome::Success(output)) =~= seq![
                StepView::Print(command + " --control-plane --certificate-key "@ + key),
                StepView::Print(""@),
                StepView::Print("Or use kubeinit on the joining node:"@),
                StepView::Print(
                    hint("control-plane"@, api_server, token, ca_cert_hash)
                        + " \\\n    --certificate-key "@ + key,
                ),
            ]
        }),
{
    let none = Seq::<char>::empty();
    laws::a_join_hint_amounts_to_its_join_command(api_server, token, ca_cert_hash, key);
    the_key_is_the_last_line(before, none, key, none);
    assert(none + key + none =~= key);
}

/// Whatever the join command is, it is printed with the key behind it, and the
/// hint ends in the key too: the key is what stands behind the last newline of
/// the upload's output, with any text in front of that newline.
pub proof fn the_printed_key_is_the_uploaded_one(
    host: Host,
    command: Seq<char>,
    before: Seq<char>,
    key: Seq<char>,
)
    requires
        laws::is_word(key),
    ensures
        ({
            let plan = cli::request_plan(host, Request::JoinToken { control_plane: true });
            let upload = steps::answered(host, plan[0], Outcome::Success(command));
            let output = before + seq!['\n'] + key;
            let printed = steps::answered(host, upload[0], Outcome::Success(output));
            &&& printed.len() == 4
            &&& printed[0] == StepView::Print(
                command + " --control-plane --certificate-key "@ + key,
            )
            &&& printed[3] matches StepView::Print(line) && ends_in(
                line,
                " \\\n    --certificate-key "@ + key,
            )
            &&& steps::answered(host, upload[0], Outcome::Success(key)) =~= printed
        }),
{
    let none = Seq::<char>::empty();
    the_key_is_the_last_line(before, none, key, none);
    assert(none + key + none =~= key);
    let a = cluster::join_hint("control-plane"@, command);
    let end = " \\\n    --certificate-key "@ + key;
    assert(a + " \\\n    --certificate-key "@ + key =~= a + end);
}

/// If kubeadm cannot make a join command, or cannot upload the certificates,
/// that is the error, with the program that was executed.
pub proof fn tokens_need_kubeadm(
    host: Host,
    control_plane: bool,
    command: Seq<char>,
    status: Seq<char>,
    cause: Seq<char>,
)
    ensures
        ({
            let plan = cli::request_plan(host, Request::JoinToken { control_plane });
            let asked = cli::request_plan(host, Request::JoinToken { control_plane: true });
            let upload = steps::answered(host, asked[0], Outcome::Success(command));
            let program = if host.root {
                "kubeadm"@
            } else {
                "sudo"@
            };
            let exited = seq![StepView::Fail(Error::Exited { program, status })];
            let unstarted = seq![StepView::Fail(Error::NotStarted { program, cause })];
            &&& steps::answered(host, plan[0], Outcome::Failure(status)) =~= exited
            &&& steps::answered(host, plan[0], Outcome::NotStarted(cause)) =~= unstarted
            &&& steps::answered(host, upload[0], Outcome::Failure(status)) =~= exited
            &&& steps::answered(host, upload[0], Outcome::NotStarted(cause)) =~= unstarted
        }),
{
}

/// A join command with fewer than three words has no API server, and one
/// without an option has no value for it: the hint then has placeholders.
pub proof fn hints_have_placeholders(words: Seq<Seq<char>>, role: Seq<char>)
    requires
        forall|i: int| 0 <= i < words.len() ==> laws::is_word(#[trigger] words[i]),
        !words.contains("--token"@),
        !words.contains("--discovery-token-ca-cert-hash"@),
    ensures
        cluster::join_hint(role, laws::spaced(words)) == hint(
            role,
            if words.len() > 2 {
                words[2]
            } else {
                "<api-server:6443>"@
            },
            "<token>"@,
            "<hash>"@,
        ),
{
    laws::splitting_undoes_spacing(words);
    texts::the_word_behind_is_found(words, "--token"@, seq![], seq![]);
    texts::the_word_behind_is_found(words, "--discovery-token-ca-cert-hash"@, seq![], seq![]);
}

} // verus!

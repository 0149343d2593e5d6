# kubeinit

A command-line tool that bootstraps vanilla Kubernetes clusters with kubeadm,
Cilium, the Gateway API, and OpenEBS LocalPV, written in Rust and verified with
Verus.

## How it works

Every command of the tool is a *plan*: a list of steps that run programs, ask
the host something, prompt the user, print, or wait. A *workflow* carries a plan
out. It hands its caller one action at a time, takes how the action ended, and
decides what follows. The library never touches the system itself; `app/` does,
and leaves it to the library what is done.

A step that runs a program either must succeed, so that its failure stops the
workflow with an error, or may fail, so that the workflow goes on. While
workloads are being stopped, such a failure is logged. A question leads to
further steps, which come before those that were left.

## Layout

| Path | Contents |
|------|----------|
| `src/cli.rs` | The requests of the user and their plans |
| `src/cluster.rs` | Preflight checks, init, join, join tokens, reset, summary, status |
| `src/cni.rs` | Cilium and the Gateway API definitions |
| `src/storage.rs` | The OpenEBS LocalPV provisioner |
| `src/deps.rs` | Installing and uninstalling binaries; stopping workloads |
| `src/net.rs` | Finding the control-plane endpoint |
| `src/cmd.rs` | Commands, root privileges, and outcomes |
| `src/plan.rs` | Plans, steps, and the topics of questions |
| `src/workflow.rs` | The machine that carries a plan out |
| `src/config.rs` | Default versions, settings, and what is known of the host |
| `src/error.rs` | Why a workflow stops, and what the user is told |
| `src/text.rs` | Text handling with contracts over characters |
| `src/run.rs` | Whole runs, whatever the host answers |
| `src/ends.rs` | Every workflow ends; what may fail; how long it waits |
| `src/laws.rs` | What holds of the tool as a whole |
| `app/` | Arguments, configuration file, and performing actions |
| `tests/` | Tests against simulated hosts |

## Initializing a cluster

1. Install all dependencies that are not present
2. Settle the control-plane endpoint, given or detected and confirmed
3. Run the preflight checks
4. Run `kubeadm init`, with kube-proxy skipped
5. Remove the control-plane `NoSchedule` taint
6. Copy the admin kubeconfig to `~/.kube/config`, owned by the invoking user
7. Apply the Gateway API definitions
8. Install Cilium, with the Gateway API in host-network mode
9. Install the OpenEBS LocalPV provisioner
10. Print a summary

## Configuration

Paths, URL templates, and network defaults are compiled into the binary from
`app/defaults.rs`, in TOML. It has the sections `network`, `runtime`, `paths`,
and `urls`; `config::setting_names` lists every key. URL templates hold
`{version}` and `{arch}`.

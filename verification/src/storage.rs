//! The OpenEBS LocalPV storage provisioner.
use crate::cmd;
use crate::cmd::Command;
use crate::config;
use crate::config::Host;
use crate::error::Error;
use crate::plan;
use crate::plan::{Plan, StepView, Topic};
use crate::text;
use vstd::prelude::*;

verus! {

/// Configuration for the OpenEBS LocalPV Provisioner installation.
#[derive(Debug, PartialEq, Eq)]
pub struct StorageConfig<T = String> {
    /// OpenEBS LocalPV Helm chart version. `None` means the default version.
    pub version: Option<T>,
}

impl View for StorageConfig<String> {
    type V = StorageConfig<Seq<char>>;

    open spec fn view(&self) -> StorageConfig<Seq<char>> {
        StorageConfig { version: text::optional(self.version) }
    }
}

/// The command that removes the control-plane `NoSchedule` taint of a node.
pub open spec fn untaint_command(node: Seq<char>) -> cmd::CommandView {
    cmd::as_user(
        "kubectl"@,
        seq!["taint"@, "nodes"@, node, "node-role.kubernetes.io/control-plane:NoSchedule-"@],
    )
}

/// Removes the control-plane `NoSchedule` taint of a node.
pub fn untaint(node: &str) -> (r: Command)
    ensures
        r@ =~~= untaint_command(node@),
{
    Command::as_user("kubectl").arg("taint").arg("nodes").arg(node).arg(
        "node-role.kubernetes.io/control-plane:NoSchedule-",
    )
}

/// How the node is made schedulable: its name is asked for first.
pub open spec fn ensure_control_plane_schedulable_plan() -> Seq<StepView> {
    seq![
        plan::capture(
            cmd::as_user(
                "kubectl"@,
                seq!["get"@, "nodes"@, "-o"@, "jsonpath={.items[0].metadata.name}"@],
            ),
            Topic::NodeName,
        ),
    ]
}

/// Removes the control-plane `NoSchedule` taint so that workloads can be
/// scheduled on single-node or small clusters, and verifies the removal.
///
/// The node name comes from kubectl, which is more reliable than the host
/// name: that may differ from the name of the node.
pub fn ensure_control_plane_schedulable() -> (r: Plan)
    ensures
        r@ =~~= ensure_control_plane_schedulable_plan(),
{
    Plan::new().capture(
        Command::as_user("kubectl").arg("get").arg("nodes").arg("-o").arg(
            "jsonpath={.items[0].metadata.name}",
        ),
        Topic::NodeName,
    )
}

/// What follows from the name of the node.
pub open spec fn node_named_plan(node: Seq<char>) -> Seq<StepView> {
    if node.len() == 0 {
        seq![StepView::Fail(Error::UnknownNode)]
    } else {
        seq![
            plan::attempt(untaint_command(node)),
            plan::capture(
                cmd::as_user(
                    "kubectl"@,
                    seq!["get"@, "node"@, node, "-o"@, "jsonpath={.spec.taints}"@],
                ),
                Topic::Taints(node),
            ),
        ]
    }
}

/// Removes the taint of the named node and asks which taints are left.
pub fn node_named(node: String) -> (r: Plan)
    ensures
        r@ =~~= node_named_plan(node@),
{
    if node.as_str().is_empty() {
        Plan::new().fail(Error::UnknownNode)
    } else {
        Plan::new().attempt(untaint(node.as_str())).capture(
            Command::as_user("kubectl").arg("get").arg("node").arg(node.as_str()).arg("-o").arg(
                "jsonpath={.spec.taints}",
            ),
            Topic::Taints(node),
        )
    }
}

/// Whether the control-plane `NoSchedule` taint is among the taints of a node,
/// as kubectl lists them: one taint has both the effect and the key.
pub open spec fn control_plane_taint_remains(taints: Seq<char>) -> bool {
    exists|i: int|
        0 <= i < text::pieces(taints, '}').len() && is_control_plane_taint(
            #[trigger] text::pieces(taints, '}')[i],
        )
}

/// Whether a taint is the control-plane `NoSchedule` taint.
pub open spec fn is_control_plane_taint(taint: Seq<char>) -> bool {
    &&& text::occurs(taint, "\"effect\":\"NoSchedule\""@)
    &&& text::occurs(taint, "\"key\":\"node-role.kubernetes.io/control-plane\""@)
}

/// Decides whether the control-plane `NoSchedule` taint is among the taints of
/// a node.
pub fn find_control_plane_taint(taints: &str) -> (r: bool)
    ensures
        r == control_plane_taint_remains(taints@),
{
    let list = text::split_at_char(taints, '}');
    let ghost all = text::texts(list@);
    for i in 0..list.len()
        invariant
            all == text::texts(list@),
            all == text::pieces(taints@, '}'),
            forall|j: int| 0 <= j < i ==> !is_control_plane_taint(#[trigger] all[j]),
    {
        let taint = list[i].as_str();
        assert(all[i as int] == taint@);
        if text::contains(taint, "\"effect\":\"NoSchedule\"") && text::contains(
            taint,
            "\"key\":\"node-role.kubernetes.io/control-plane\"",
        ) {
            return true;
        }
    }
    assert(all.len() == list@.len());
    false
}

/// What follows from the taints that are left on a node.
pub open spec fn taints_listed_plan(node: Seq<char>, taints: Seq<char>) -> Seq<StepView> {
    if control_plane_taint_remains(taints) {
        seq![StepView::Fail(Error::TaintRemains(node))]
    } else {
        Seq::empty()
    }
}

/// Verifies that the control-plane `NoSchedule` taint is gone from a node. Other
/// taints may stay.
pub fn taints_listed(node: String, taints: &str) -> (r: Plan)
    ensures
        r@ =~~= taints_listed_plan(node@, taints@),
{
    if find_control_plane_taint(taints) {
        Plan::new().fail(Error::TaintRemains(node))
    } else {
        Plan::new()
    }
}

/// How storage is installed: only where Helm is there.
pub open spec fn install_storage_plan(config: StorageConfig<Seq<char>>) -> Seq<StepView> {
    seq![plan::probe("helm"@, Topic::Storage(config))]
}

/// Installs the OpenEBS Dynamic LocalPV Provisioner via Helm.
pub fn install_storage(config: StorageConfig) -> (r: Plan)
    ensures
        r@ =~~= install_storage_plan(config@),
{
    Plan::new().probe("helm", Topic::Storage(config))
}

/// The chart version to install.
pub open spec fn storage_version(config: StorageConfig<Seq<char>>) -> Seq<char> {
    text::without_leading(
        match config.version {
            Some(version) => version,
            None => config::DEFAULT_OPENEBS_LOCALPV_VERSION@,
        },
        'v',
    )
}

/// What follows from whether Helm is there.
pub open spec fn helm_probed_plan(
    host: Host,
    config: StorageConfig<Seq<char>>,
    present: bool,
) -> Seq<StepView> {
    if !present {
        seq![StepView::Fail(Error::HelmRequired)]
    } else {
        ensure_control_plane_schedulable_plan() + seq![
            plan::require(
                cmd::as_user(
                    "helm"@,
                    seq![
                        "repo"@,
                        "add"@,
                        "openebs-localpv"@,
                        host.settings.url_openebs_localpv_helm_repo@,
                    ],
                ),
            ),
            plan::require(cmd::as_user("helm"@, seq!["repo"@, "update"@])),
            plan::require(
                cmd::as_user(
                    "helm"@,
                    seq![
                        "install"@,
                        "openebs-localpv"@,
                        "openebs-localpv/localpv-provisioner"@,
                        "--namespace"@,
                        "openebs"@,
                        "--create-namespace"@,
                        "--version"@,
                        storage_version(config),
                        "--set"@,
                        "storageClass.isDefaultClass=true"@,
                    ],
                ),
            ),
            plan::require(
                cmd::as_user(
                    "kubectl"@,
                    seq![
                        "rollout"@,
                        "status"@,
                        "deployment"@,
                        "-n"@,
                        "openebs"@,
                        "openebs-localpv-localpv-provisioner"@,
                        "--timeout=300s"@,
                    ],
                ),
            ),
        ]
    }
}

/// Makes the node schedulable, installs the provisioner, and waits until it is
/// ready; without Helm, none of that can be done.
pub fn helm_probed(host: &Host, config: StorageConfig, present: bool) -> (r: Plan)
    ensures
        r@ =~~= helm_probed_plan(*host, config@, present),
{
    if !present {
        return Plan::new().fail(Error::HelmRequired);
    }
    let version = text::strip_leading(
        config::version_or(
            text::as_deref(&config.version),
            config::DEFAULT_OPENEBS_LOCALPV_VERSION,
        ),
        'v',
    );
    ensure_control_plane_schedulable().require(
        Command::as_user("helm").arg("repo").arg("add").arg("openebs-localpv").arg(
            host.settings.url_openebs_localpv_helm_repo.as_str(),
        ),
    ).require(Command::as_user("helm").arg("repo").arg("update")).require(
        Command::as_user("helm").arg("install").arg("openebs-localpv").arg(
            "openebs-localpv/localpv-provisioner",
        ).arg("--namespace").arg("openebs").arg("--create-namespace").arg("--version").arg(
            version.as_str(),
        ).arg("--set").arg("storageClass.isDefaultClass=true"),
    ).require(
        Command::as_user("kubectl").arg("rollout").arg("status").arg("deployment").arg("-n").arg(
            "openebs",
        ).arg("openebs-localpv-localpv-provisioner").arg("--timeout=300s"),
    )
}

} // verus!

//! What installing Cilium and storage does with the host's answers.
use crate::cni;
use crate::cni::CiliumConfig;
use crate::cmd::Outcome;
use crate::config::Host;
use crate::error::Error;
use crate::laws::steps;
use crate::laws::texts;
use crate::plan::StepView;
use crate::storage;
use crate::storage::StorageConfig;
use crate::text;
use vstd::prelude::*;

verus! {

// ── Cilium ───────────────────────────────────────────────────────────────────

/// The definitions of the Gateway API are taken from the configured URL, in
/// version 1.5.1.
pub proof fn gateway_api_definitions_have_their_version(
    host: Host,
    before: Seq<char>,
    after: Seq<char>,
)
    requires
        host.settings.url_gateway_api_crds@ == before + "{version}"@ + after,
        !before.contains('{'),
        !after.contains('{'),
    ensures
        cni::gateway_api_url_of(host) == before + "1.5.1"@ + after,
{
    reveal_strlit("{version}");
    texts::the_first_occurrence_is_replaced(before, "{version}"@, after, "1.5.1"@);
    texts::a_text_without_the_pattern_stays(after, "{version}"@, "1.5.1"@);
}

/// With its CLI, Cilium is installed and then waited for. With Helm, it is
/// installed from the configured repository, once that is known and up to date.
pub proof fn cilium_is_installed_from_its_repository(
    host: Host,
    config: CiliumConfig<Seq<char>>,
    found: Outcome<Seq<char>>,
    missing: Outcome<Seq<char>>,
)
    requires
        found is Success,
        !(missing is Success),
    ensures
        ({
            let plan = cni::install_cilium_plan(config);
            let by_cli = steps::answered(host, plan[0], found);
            let asked = steps::answered(host, plan[0], missing);
            let by_helm = steps::answered(host, asked[0], found);
            let n = by_helm.len() as int;
            let gate = if config.gateway_api {
                1int
            } else {
                0int
            };
            &&& plan.len() == 1
            &&& steps::looks_up(plan[0], "cilium"@)
            &&& by_cli.len() == gate + 2
            &&& by_cli.last() == steps::user_must("cilium"@, seq!["status"@, "--wait"@])
            &&& asked.len() == 1
            &&& steps::looks_up(asked[0], "helm"@)
            &&& steps::answered(host, asked[0], missing) =~= seq![
                StepView::Fail(Error::NoCniInstaller),
            ]
            &&& n == gate + 3
            &&& by_helm[n - 3] == steps::user_must(
                "helm"@,
                seq!["repo"@, "add"@, "cilium"@, host.settings.url_cilium_helm_repo@],
            )
            &&& by_helm[n - 2] == steps::user_must("helm"@, seq!["repo"@, "update"@])
            &&& by_helm[n - 1] matches StepView::Run { command, .. } && command.args.take(5)
                =~= seq!["install"@, "cilium"@, "cilium/cilium"@, "--namespace"@, "kube-system"@]
        }),
{
    let plan = cni::install_cilium_plan(config);
    let by_cli = steps::answered(host, plan[0], found);
    let asked = steps::answered(host, plan[0], missing);
    let by_helm = steps::answered(host, asked[0], found);
    let n = by_helm.len() as int;
    assert(by_cli.last() =~~= steps::user_must("cilium"@, seq!["status"@, "--wait"@]));
    assert(by_helm[n - 3] =~~= steps::user_must(
        "helm"@,
        seq!["repo"@, "add"@, "cilium"@, host.settings.url_cilium_helm_repo@],
    ));
    assert(by_helm[n - 2] =~~= steps::user_must("helm"@, seq!["repo"@, "update"@]));
}

// ── Storage ──────────────────────────────────────────────────────────────────

/// Storage needs Helm. The node is made schedulable first; the chart then comes
/// from the configured repository, and its deployment is waited for.
pub proof fn storage_is_installed_from_its_repository(
    host: Host,
    config: StorageConfig<Seq<char>>,
    found: Outcome<Seq<char>>,
    missing: Outcome<Seq<char>>,
)
    requires
        found is Success,
        !(missing is Success),
    ensures
        ({
            let plan = storage::install_storage_plan(config);
            let more = steps::answered(host, plan[0], found);
            &&& plan.len() == 1
            &&& steps::looks_up(plan[0], "helm"@)
            &&& steps::answered(host, plan[0], missing) =~= seq![
                StepView::Fail(Error::HelmRequired),
            ]
            &&& more.len() == 5
            &&& steps::reads(
                more[0],
                false,
                "kubectl"@,
                seq!["get"@, "nodes"@, "-o"@, "jsonpath={.items[0].metadata.name}"@],
            )
            &&& more[1] == steps::user_must(
                "helm"@,
                seq![
                    "repo"@,
                    "add"@,
                    "openebs-localpv"@,
                    host.settings.url_openebs_localpv_helm_repo@,
                ],
            )
            &&& more[2] == steps::user_must("helm"@, seq!["repo"@, "update"@])
            &&& more[4] == steps::user_must(
                "kubectl"@,
                seq![
                    "rollout"@,
                    "status"@,
                    "deployment"@,
                    "-n"@,
                    "openebs"@,
                    "openebs-localpv-localpv-provisioner"@,
                    "--timeout=300s"@,
                ],
            )
        }),
{
    let plan = storage::install_storage_plan(config);
    let more = steps::answered(host, plan[0], found);
    assert(more[0] == storage::ensure_control_plane_schedulable_plan()[0]);
    assert(more[1] =~~= steps::user_must(
        "helm"@,
        seq!["repo"@, "add"@, "openebs-localpv"@, host.settings.url_openebs_localpv_helm_repo@],
    ));
    assert(more[2] =~~= steps::user_must("helm"@, seq!["repo"@, "update"@]));
    assert(more[4] =~~= steps::user_must(
        "kubectl"@,
        seq![
            "rollout"@,
            "status"@,
            "deployment"@,
            "-n"@,
            "openebs"@,
            "openebs-localpv-localpv-provisioner"@,
            "--timeout=300s"@,
        ],
    ));
}

/// Objects, each with its closing brace behind it.
pub open spec fn closed_objects(objects: Seq<Seq<char>>) -> Seq<char>
    decreases objects.len(),
{
    if objects.len() == 0 {
        seq![]
    } else {
        objects[0] + seq!['}'] + closed_objects(objects.skip(1))
    }
}

/// Whether one text has another within it.
pub open spec fn holds(s: Seq<char>, part: Seq<char>) -> bool {
    exists|a: Seq<char>, b: Seq<char>| s == #[trigger] (a + part + b)
}

/// What stands in a text still does with more behind it.
pub proof fn lemma_holds_on(s: Seq<char>, more: Seq<char>)
    ensures
        forall|part: Seq<char>| #[trigger] holds(s, part) ==> holds(s + more, part),
{
    assert forall|part: Seq<char>| #[trigger] holds(s, part) implies holds(s + more, part) by {
        let (a, b) = choose|a: Seq<char>, b: Seq<char>| s == #[trigger] (a + part + b);
        assert(s + more =~= a + part + (b + more));
    }
}

/// Whether an object is the taint that keeps workloads off a control-plane node.
pub open spec fn keeps_workloads_off(object: Seq<char>) -> bool {
    &&& holds(object, "\"key\":\"node-role.kubernetes.io/control-plane\""@)
    &&& holds(object, "\"effect\":\"NoSchedule\""@)
}

/// The braces part the objects.
proof fn lemma_pieces_of_objects(objects: Seq<Seq<char>>, tail: Seq<char>)
    requires
        forall|i: int| 0 <= i < objects.len() ==> !(#[trigger] objects[i]).contains('}'),
        !tail.contains('}'),
    ensures
        text::pieces(closed_objects(objects) + tail, '}') == objects + seq![tail],
    decreases objects.len(),
{
    assert forall|i: int| 0 <= i < tail.len() implies #[trigger] tail[i] != '}' by {
        assert(tail.contains(tail[i]));
    }
    if objects.len() == 0 {
        assert(closed_objects(objects) + tail =~= tail);
        texts::pieces_are_what_stands_between(tail, '}', seq![]);
        assert(objects + seq![tail] =~= seq![tail]);
    } else {
        let first = objects[0];
        let rest = objects.skip(1);
        assert(!first.contains('}'));
        assert forall|i: int| 0 <= i < first.len() implies #[trigger] first[i] != '}' by {
            assert(first.contains(first[i]));
        }
        assert forall|i: int| 0 <= i < rest.len() implies !(#[trigger] rest[i]).contains(
            '}',
        ) by {
            assert(!objects[i + 1].contains('}'));
        }
        lemma_pieces_of_objects(rest, tail);
        texts::pieces_are_what_stands_between(first, '}', closed_objects(rest) + tail);
        assert(closed_objects(objects) + tail =~= first + seq!['}'] + (closed_objects(rest)
            + tail));
        assert(objects + seq![tail] =~= seq![first] + (rest + seq![tail]));
    }
}

/// Before storage is installed, the node that the cluster names first is opened
/// for workloads. That must have worked: a taint with the control-plane key and
/// the effect `NoSchedule`, both in one object, stops the workflow and names the
/// node; the two in different objects do not.
pub proof fn the_taint_is_one_object(
    host: Host,
    node: Seq<char>,
    objects: Seq<Seq<char>>,
    tail: Seq<char>,
    failed: Outcome<Seq<char>>,
)
    requires
        node.len() > 0,
        forall|i: int| 0 <= i < objects.len() ==> !(#[trigger] objects[i]).contains('}'),
        !tail.contains('}'),
        !(failed is Success),
    ensures
        ({
            let plan = storage::ensure_control_plane_schedulable_plan();
            let more = steps::answered(host, plan[0], Outcome::Success(node));
            let taints = closed_objects(objects) + tail;
            &&& steps::answered(host, plan[0], failed) =~= seq![StepView::Fail(Error::UnknownNode)]
            &&& steps::answered(host, plan[0], Outcome::Success(seq![])) =~= seq![
                StepView::Fail(Error::UnknownNode),
            ]
            &&& more.len() == 2
            &&& more[0] == steps::user_may(
                "kubectl"@,
                seq![
                    "taint"@,
                    "nodes"@,
                    node,
                    "node-role.kubernetes.io/control-plane:NoSchedule-"@,
                ],
            )
            &&& steps::reads(
                more[1],
                false,
                "kubectl"@,
                seq!["get"@, "node"@, node, "-o"@, "jsonpath={.spec.taints}"@],
            )
            &&& steps::answered(host, more[1], Outcome::Success(taints)) =~= if keeps_workloads_off(tail)
                || (exists|i: int|
                0 <= i < objects.len() && keeps_workloads_off(#[trigger] objects[i])) {
                seq![StepView::Fail(Error::TaintRemains(node))]
            } else {
                seq![]
            }
        }),
{
    let plan = storage::ensure_control_plane_schedulable_plan();
    let more = steps::answered(host, plan[0], Outcome::Success(node));
    let taints = closed_objects(objects) + tail;
    let parts = text::pieces(taints, '}');
    let key = "\"key\":\"node-role.kubernetes.io/control-plane\""@;
    let effect = "\"effect\":\"NoSchedule\""@;
    assert(more[0] =~~= steps::user_may(
        "kubectl"@,
        seq!["taint"@, "nodes"@, node, "node-role.kubernetes.io/control-plane:NoSchedule-"@],
    ));
    lemma_pieces_of_objects(objects, tail);
    assert forall|i: int| 0 <= i < parts.len() implies storage::is_control_plane_taint(
        #[trigger] parts[i],
    ) == keeps_workloads_off(parts[i]) by {
        texts::a_part_occurs_where_a_text_is_written_around_it(parts[i], key);
        texts::a_part_occurs_where_a_text_is_written_around_it(parts[i], effect);
    }
    if storage::control_plane_taint_remains(taints) {
        let i = choose|i: int|
            0 <= i < parts.len() && storage::is_control_plane_taint(#[trigger] parts[i]);
        if i < objects.len() {
            assert(parts[i] == objects[i]);
            assert(keeps_workloads_off(objects[i]));
        } else {
            assert(parts[i] == tail);
        }
    } else {
        assert(parts[objects.len() as int] == tail);
        assert forall|i: int| 0 <= i < objects.len() implies !keeps_workloads_off(
            #[trigger] objects[i],
        ) by {
            assert(parts[i] == objects[i]);
        }
    }
}

} // verus!

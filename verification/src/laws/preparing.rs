//! What the preflight checks do about what a host answers.
use crate::cluster;
use crate::cluster::ClusterConfig;
use crate::cmd::{CommandView, Outcome};
use crate::config::Host;
use crate::error::Error;
use crate::laws::steps;
use crate::laws::texts;
use crate::plan::StepView;
use crate::text;
use vstd::prelude::*;

verus! {

/// A command with the privileges of the process.
pub open spec fn plain(program: Seq<char>, args: Seq<Seq<char>>) -> CommandView {
    CommandView { privileged: false, program, args }
}

// ── Swap ─────────────────────────────────────────────────────────────────────

/// A text that holds more than line ends has a line that is not empty.
proof fn lemma_ink_makes_a_line(s: Seq<char>, i: int)
    requires
        0 <= i < s.len(),
        s[i] != '\n',
        s[i] != '\r',
    ensures
        exists|k: int| 0 <= k < text::lines(s).len() && (#[trigger] text::lines(s)[k]).len() > 0,
    decreases s.len(),
{
    let n = text::run_before(s, '\n') as int;
    lemma_run_before(s, '\n');
    if n < s.len() {
        let first = text::without_return(s.take(n));
        let rest = s.skip(n + 1);
        assert(text::lines(s) == seq![first] + text::lines(rest));
        if i < n {
            assert(s.take(n)[i] == s[i]);
            assert(text::lines(s)[0].len() > 0);
        } else {
            assert(rest[i - n - 1] == s[i]);
            lemma_ink_makes_a_line(rest, i - n - 1);
            let k = choose|k: int|
                0 <= k < text::lines(rest).len() && (#[trigger] text::lines(rest)[k]).len() > 0;
            assert(text::lines(s)[k + 1] == text::lines(rest)[k]);
        }
    } else {
        assert(text::lines(s)[0] == s);
    }
}

/// Newlines alone make no line that is not empty.
proof fn lemma_newlines_make_no_line(s: Seq<char>)
    requires
        forall|i: int| 0 <= i < s.len() ==> #[trigger] s[i] == '\n',
    ensures
        forall|k: int| 0 <= k < text::lines(s).len() ==> (#[trigger] text::lines(s)[k]).len() == 0,
    decreases s.len(),
{
    if s.len() > 0 {
        assert(s[0] == '\n');
        assert(text::run_before(s, '\n') == 0);
        lemma_newlines_make_no_line(s.skip(1));
        assert(text::lines(s) == seq![text::without_return(s.take(0))] + text::lines(s.skip(1)));
    }
}

/// How far a character is, at most.
proof fn lemma_run_before(s: Seq<char>, c: char)
    ensures
        text::run_before(s, c) <= s.len(),
        text::run_before(s, c) < s.len() ==> s[text::run_before(s, c) as int] == c,
    decreases s.len(),
{
    if s.len() > 0 && s[0] != c {
        lemma_run_before(s.skip(1), c);
    }
}

/// The first line of a listing, and what stands behind it.
proof fn lemma_behind_the_heading(heading: Seq<char>, rest: Seq<char>)
    requires
        texts::is_line(heading),
    ensures
        text::lines(heading + seq!['\n'] + rest) == seq![text::without_return(heading)]
            + text::lines(rest),
        text::lines(heading).len() <= 1,
{
    let s = heading + seq!['\n'] + rest;
    texts::lemma_run_before_of(heading, seq!['\n'] + rest, '\n');
    assert(heading + (seq!['\n'] + rest) =~= s);
    assert(s.take(heading.len() as int) =~= heading);
    assert(s.skip(heading.len() as int + 1) =~= rest);
    texts::lemma_run_before_of(heading, Seq::empty(), '\n');
    assert(heading + Seq::<char>::empty() =~= heading);
}

/// Anything that is written behind the heading of the swaps is swap in use, and
/// stops the preflight checks. A heading alone, newlines behind it, or no answer
/// at all does not.
pub proof fn swap_in_use_is_noticed(host: Host, heading: Seq<char>, rest: Seq<char>)
    requires
        texts::is_line(heading),
    ensures
        ({
            let plan = cluster::preflight_checks_plan();
            let swaps = plain("cat"@, seq!["/proc/swaps"@]);
            let listing = Outcome::Success(heading + seq!['\n'] + rest);
            &&& (exists|i: int|
                0 <= i < rest.len() && #[trigger] rest[i] != '\n' && rest[i] != '\r')
                ==> steps::asks(
                host,
                plan,
                swaps,
                listing,
                seq![StepView::Fail(Error::SwapEnabled)],
            )
            &&& (forall|i: int| 0 <= i < rest.len() ==> #[trigger] rest[i] == '\n')
                ==> steps::asks(host, plan, swaps, listing, seq![])
            &&& steps::asks(host, plan, swaps, Outcome::Success(heading), seq![])
            &&& forall|failed: Outcome<Seq<char>>|
                !(failed is Success) ==> #[trigger] steps::asks(host, plan, swaps, failed, seq![])
        }),
{
    let plan = cluster::preflight_checks_plan();
    let swaps = plain("cat"@, seq!["/proc/swaps"@]);
    let text = heading + seq!['\n'] + rest;
    let step = plan[4];
    assert(steps::reads(step, false, "cat"@, swaps.args));
    lemma_behind_the_heading(heading, rest);
    let found = text::lines(text);
    if exists|i: int| 0 <= i < rest.len() && #[trigger] rest[i] != '\n' && rest[i] != '\r' {
        let i = choose|i: int|
            0 <= i < rest.len() && #[trigger] rest[i] != '\n' && rest[i] != '\r';
        lemma_ink_makes_a_line(rest, i);
        let k = choose|k: int|
            0 <= k < text::lines(rest).len() && (#[trigger] text::lines(rest)[k]).len() > 0;
        assert(found[k + 1] == text::lines(rest)[k]);
        assert(steps::answered(host, step, Outcome::Success(text)) =~= seq![
            StepView::Fail(Error::SwapEnabled),
        ]);
    }
    if forall|i: int| 0 <= i < rest.len() ==> #[trigger] rest[i] == '\n' {
        lemma_newlines_make_no_line(rest);
        assert forall|k: int| 1 <= k < found.len() implies (#[trigger] found[k]).len() == 0 by {
            assert(found[k] == text::lines(rest)[k - 1]);
        }
        assert(steps::answered(host, step, Outcome::Success(text)) =~= seq![]);
    }
    assert(steps::answered(host, step, Outcome::Success(heading)) =~= seq![]);
    assert forall|failed: Outcome<Seq<char>>| !(failed is Success) implies #[trigger] steps::asks(
        host,
        plan,
        swaps,
        failed,
        seq![],
    ) by {
        assert(text::lines(Seq::<char>::empty()).len() == 0);
        assert(steps::answered(host, step, failed) =~= seq![]);
    }
}

/// One more line behind the heading of the swaps stops the preflight checks,
/// whatever is in it.
pub proof fn a_swap_line_stops_preflight(host: Host, heading: Seq<char>, line: Seq<char>)
    requires
        texts::is_line(heading),
        texts::is_line(line),
        line.len() > 0,
        forall|i: int| 0 <= i < line.len() ==> #[trigger] line[i] != '\r',
    ensures
        steps::asks(
            host,
            cluster::preflight_checks_plan(),
            plain("cat"@, seq!["/proc/swaps"@]),
            Outcome::Success(heading + seq!['\n'] + line),
            seq![StepView::Fail(Error::SwapEnabled)],
        ),
{
    assert(line[0] != '\n' && line[0] != '\r');
    swap_in_use_is_noticed(host, heading, line);
}

// ── Kernel ───────────────────────────────────────────────────────────────────

/// A kernel module that is missing from the listing is loaded, and one that is
/// listed is not.
pub proof fn missing_modules_are_loaded(host: Host, outcome: Outcome<Seq<char>>)
    ensures
        ({
            let listing = match outcome {
                Outcome::Success(text) => text,
                _ => seq![],
            };
            let bridge = exists|a: Seq<char>, b: Seq<char>|
                listing == #[trigger] (a + "br_netfilter"@ + b);
            let overlay = exists|a: Seq<char>, b: Seq<char>|
                listing == #[trigger] (a + "overlay"@ + b);
            let load_bridge = steps::root_must("modprobe"@, seq!["br_netfilter"@]);
            let load_overlay = steps::root_must("modprobe"@, seq!["overlay"@]);
            steps::asks(
                host,
                cluster::preflight_checks_plan(),
                plain("lsmod"@, seq![]),
                outcome,
                if bridge && overlay {
                    seq![]
                } else if bridge {
                    seq![load_overlay]
                } else if overlay {
                    seq![load_bridge]
                } else {
                    seq![load_bridge, load_overlay]
                },
            )
        }),
{
    let listing = match outcome {
        Outcome::Success(text) => text,
        _ => seq![],
    };
    texts::a_part_occurs_where_a_text_is_written_around_it(listing, "br_netfilter"@);
    texts::a_part_occurs_where_a_text_is_written_around_it(listing, "overlay"@);
    let bridge = text::occurs(listing, "br_netfilter"@);
    let overlay = text::occurs(listing, "overlay"@);
    let load_bridge = steps::root_must("modprobe"@, seq!["br_netfilter"@]);
    let load_overlay = steps::root_must("modprobe"@, seq!["overlay"@]);
    let plan = cluster::preflight_checks_plan();
    let step = plan[5];
    assert(steps::reads(step, false, "lsmod"@, seq![]));
    let more = steps::answered(host, step, outcome);
    assert(cluster::module_plan(listing, "br_netfilter"@) =~~= if bridge {
        seq![]
    } else {
        seq![load_bridge]
    });
    assert(cluster::module_plan(listing, "overlay"@) =~~= if overlay {
        seq![]
    } else {
        seq![load_overlay]
    });
    assert(more =~~= if bridge && overlay {
        seq![]
    } else if bridge {
        seq![load_overlay]
    } else if overlay {
        seq![load_bridge]
    } else {
        seq![load_bridge, load_overlay]
    });
}

/// Whether a text is one of the kernel parameters that a node needs.
pub open spec fn is_needed_parameter(param: Seq<char>) -> bool {
    param == "net.bridge.bridge-nf-call-iptables"@ || param == "net.ipv4.ip_forward"@
}

/// A kernel parameter that reads as anything but a `1`, with white space around
/// it or not, or that cannot be read, is set to 1.
pub proof fn parameters_are_set_unless_they_are(
    host: Host,
    param: Seq<char>,
    lead: Seq<char>,
    value: Seq<char>,
    trail: Seq<char>,
    failed: Outcome<Seq<char>>,
)
    requires
        is_needed_parameter(param),
        texts::is_blank(lead),
        texts::is_blank(trail),
        value.len() > 0 ==> !text::is_white(value[0]) && !text::is_white(value.last()),
        !(failed is Success),
    ensures
        ({
            let plan = cluster::preflight_checks_plan();
            let read = plain("sysctl"@, seq!["-n"@, param]);
            let set = steps::root_must("sysctl"@, seq!["-w"@, param + "=1"@]);
            &&& steps::asks(
                host,
                plan,
                read,
                Outcome::Success(lead + value + trail),
                if value == "1"@ {
                    seq![]
                } else {
                    seq![set]
                },
            )
            &&& steps::asks(host, plan, read, failed, seq![set])
        }),
{
    let plan = cluster::preflight_checks_plan();
    let read = plain("sysctl"@, seq!["-n"@, param]);
    let set = steps::root_must("sysctl"@, seq!["-w"@, param + "=1"@]);
    texts::trimming_removes_the_surrounding_space(lead, value, trail);
    let none = Seq::<char>::empty();
    texts::trimming_removes_the_surrounding_space(none, none, none);
    assert(none + none + none =~= none);
    reveal_strlit("1");
    assert("1"@.len() == 1);
    let at = if param == "net.bridge.bridge-nf-call-iptables"@ {
        7int
    } else {
        8int
    };
    assert(plan[at] == cluster::sysctl_check(param));
    assert(steps::reads(plan[at], false, "sysctl"@, read.args));
    let text = lead + value + trail;
    let more = steps::answered(host, plan[at], Outcome::Success(text));
    assert(more == cluster::sysctl_read_plan(param, text));
    assert(more =~~= if value == "1"@ {
        seq![]
    } else {
        seq![set]
    });
    assert(steps::answered(host, plan[at], failed) =~~= seq![set]);
}

/// What the kernel needs is written down for the next boot, both modules and
/// both parameters, and the parameters are then loaded.
pub proof fn kernel_settings_outlast_a_reboot()
    ensures
        ({
            let plan = cluster::preflight_checks_plan();
            let modules = steps::root_must(
                "bash"@,
                seq![
                    "-c"@,
                    "printf 'overlay\nbr_netfilter\n' > /etc/modules-load.d/kubeinit.conf"@,
                ],
            );
            let parameters = steps::root_must(
                "bash"@,
                seq![
                    "-c"@,
                    "printf 'net.bridge.bridge-nf-call-iptables=1\nnet.ipv4.ip_forward=1\n' > /etc/sysctl.d/99-kubeinit.conf"@,
                ],
            );
            let loaded = steps::root_must("sysctl"@, seq!["--system"@]);
            &&& steps::precedes(plan, modules, parameters)
            &&& steps::precedes(plan, parameters, loaded)
        }),
{
    let plan = cluster::preflight_checks_plan();
    assert(plan[6] =~~= steps::root_must(
        "bash"@,
        seq!["-c"@, "printf 'overlay\nbr_netfilter\n' > /etc/modules-load.d/kubeinit.conf"@],
    ));
    assert(plan[9] =~~= steps::root_must(
        "bash"@,
        seq![
            "-c"@,
            "printf 'net.bridge.bridge-nf-call-iptables=1\nnet.ipv4.ip_forward=1\n' > /etc/sysctl.d/99-kubeinit.conf"@,
        ],
    ));
    assert(plan[10] =~~= steps::root_must("sysctl"@, seq!["--system"@]));
}

/// Each binary that a node needs is looked up first, in the order kubeadm,
/// kubelet, kubectl, and crictl, and the error names the one that is missing.
pub proof fn a_missing_binary_is_named(
    host: Host,
    found: Outcome<Seq<char>>,
    missing: Outcome<Seq<char>>,
)
    requires
        found is Success,
        !(missing is Success),
    ensures
        ({
            let plan = cluster::preflight_checks_plan();
            let names = seq!["kubeadm"@, "kubelet"@, "kubectl"@, "crictl"@];
            forall|i: int|
                #![trigger plan[i]]
                0 <= i < 4 ==> {
                    &&& steps::looks_up(plan[i], names[i])
                    &&& steps::answered(host, plan[i], found) == Seq::<StepView>::empty()
                    &&& steps::answered(host, plan[i], missing) =~= seq![
                        StepView::Fail(Error::MissingBinary(names[i])),
                    ]
                }
        }),
{
}

/// After kubeadm has initialized a cluster, the host's own node is opened for
/// workloads, under the name of the host; a host without a name is left alone.
pub proof fn the_first_node_takes_workloads(
    host: Host,
    config: ClusterConfig<Seq<char>>,
    name: Seq<char>,
    failed: Outcome<Seq<char>>,
)
    requires
        name.len() > 0,
        !(failed is Success),
    ensures
        ({
            let plan = cluster::init_cluster_plan(host, config);
            let hostname = plain("hostname"@, seq![]);
            &&& steps::asks(
                host,
                plan.skip(1),
                hostname,
                Outcome::Success(name),
                seq![
                    steps::user_may(
                        "kubectl"@,
                        seq![
                            "taint"@,
                            "nodes"@,
                            name,
                            "node-role.kubernetes.io/control-plane:NoSchedule-"@,
                        ],
                    ),
                ],
            )
            &&& steps::asks(host, plan.skip(1), hostname, failed, seq![])
            &&& steps::asks(host, plan.skip(1), hostname, Outcome::Success(seq![]), seq![])
        }),
{
    let plan = cluster::init_cluster_plan(host, config).skip(1);
    assert(steps::reads(plan[0], false, "hostname"@, seq![]));
    assert(steps::answered(host, plan[0], Outcome::Success(name)) =~~= seq![
        steps::user_may(
            "kubectl"@,
            seq![
                "taint"@,
                "nodes"@,
                name,
                "node-role.kubernetes.io/control-plane:NoSchedule-"@,
            ],
        ),
    ]);
    assert(steps::answered(host, plan[0], failed) =~= seq![]);
    assert(steps::answered(host, plan[0], Outcome::Success(seq![])) =~= seq![]);
}

} // verus!

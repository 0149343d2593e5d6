//! What installing does about each dependency, and in which version.
use crate::cli;
use crate::cli::Request;
use crate::cluster;
use crate::cluster::InitOptions;
use crate::cmd;
use crate::cmd::Outcome;
use crate::config::Host;
use crate::deps;
use crate::error::Error;
use crate::laws;
use crate::laws::addons;
use crate::laws::steps;
use crate::net;
use crate::plan::{Io, StepView};
use crate::text;
use vstd::prelude::*;

verus! {

// ── URLs ─────────────────────────────────────────────────────────────────────

/// A template with any number of placeholders: each part has a version behind
/// it if it is marked, and an architecture if it is not.
pub open spec fn filled(
    parts: Seq<Seq<char>>,
    marks: Seq<bool>,
    version: Seq<char>,
    arch: Seq<char>,
    tail: Seq<char>,
) -> Seq<char>
    decreases parts.len(),
{
    if parts.len() == 0 {
        tail
    } else {
        parts[0] + (if marks[0] {
            version
        } else {
            arch
        }) + filled(parts.skip(1), marks.skip(1), version, arch, tail)
    }
}

/// The placeholder of the architecture holds none of the version.
proof fn lemma_arch_is_passed_over(rest: Seq<char>, version: Seq<char>)
    ensures
        text::replaced("{arch}"@ + rest, "{version}"@, version) == "{arch}"@ + text::replaced(
            rest,
            "{version}"@,
            version,
        ),
{
    reveal_strlit("{arch}");
    reveal_strlit("{version}");
    let s = "{arch}"@ + rest;
    assert(s[1] == 'a' && "{version}"@[1] == 'v');
    if text::stands_at(s, "{version}"@, 0) {
        assert(s.subrange(0, "{version}"@.len() as int)[1] == s[1]);
    }
    let behind = "{arch}"@.skip(1);
    assert(s.skip(1) =~= behind + rest);
    assert forall|i: int| 0 <= i < behind.len() implies #[trigger] behind[i] != '{' by {}
    laws::lemma_replaced_behind(behind, rest, "{version}"@, version);
    assert(text::replaced(s, "{version}"@, version) =~= "{arch}"@ + text::replaced(
        rest,
        "{version}"@,
        version,
    ));
}

/// The versions are filled in first.
proof fn lemma_versions_are_filled_in(
    parts: Seq<Seq<char>>,
    marks: Seq<bool>,
    tail: Seq<char>,
    version: Seq<char>,
)
    requires
        parts.len() == marks.len(),
        forall|i: int| 0 <= i < parts.len() ==> laws::is_plain(#[trigger] parts[i]),
        laws::is_plain(tail),
    ensures
        text::replaced(
            filled(parts, marks, "{version}"@, "{arch}"@, tail),
            "{version}"@,
            version,
        ) == filled(parts, marks, version, "{arch}"@, tail),
    decreases parts.len(),
{
    reveal_strlit("{version}");
    let nothing = Seq::<char>::empty();
    if parts.len() == 0 {
        laws::lemma_replaced_behind(tail, nothing, "{version}"@, version);
        assert(tail + nothing =~= tail);
    } else {
        let rest = filled(parts.skip(1), marks.skip(1), "{version}"@, "{arch}"@, tail);
        assert forall|i: int| 0 <= i < parts.skip(1).len() implies laws::is_plain(
            #[trigger] parts.skip(1)[i],
        ) by {
            assert(laws::is_plain(parts[i + 1]));
        }
        lemma_versions_are_filled_in(parts.skip(1), marks.skip(1), tail, version);
        assert(laws::is_plain(parts[0]));
        if marks[0] {
            laws::lemma_replaced_behind(parts[0], "{version}"@ + rest, "{version}"@, version);
            laws::lemma_replaced_here(rest, "{version}"@, version);
            assert(parts[0] + ("{version}"@ + rest) =~= parts[0] + "{version}"@ + rest);
        } else {
            laws::lemma_replaced_behind(parts[0], "{arch}"@ + rest, "{version}"@, version);
            lemma_arch_is_passed_over(rest, version);
            assert(parts[0] + ("{arch}"@ + rest) =~= parts[0] + "{arch}"@ + rest);
        }
        assert(text::replaced(
            filled(parts, marks, "{version}"@, "{arch}"@, tail),
            "{version}"@,
            version,
        ) =~= filled(parts, marks, version, "{arch}"@, tail));
    }
}

/// Then the architectures are.
proof fn lemma_architectures_are_filled_in(
    parts: Seq<Seq<char>>,
    marks: Seq<bool>,
    tail: Seq<char>,
    version: Seq<char>,
    arch: Seq<char>,
)
    requires
        parts.len() == marks.len(),
        forall|i: int| 0 <= i < parts.len() ==> laws::is_plain(#[trigger] parts[i]),
        laws::is_plain(tail),
        laws::is_plain(version),
    ensures
        text::replaced(filled(parts, marks, version, "{arch}"@, tail), "{arch}"@, arch) == filled(
            parts,
            marks,
            version,
            arch,
            tail,
        ),
    decreases parts.len(),
{
    reveal_strlit("{arch}");
    let nothing = Seq::<char>::empty();
    if parts.len() == 0 {
        laws::lemma_replaced_behind(tail, nothing, "{arch}"@, arch);
        assert(tail + nothing =~= tail);
    } else {
        let rest = filled(parts.skip(1), marks.skip(1), version, "{arch}"@, tail);
        assert forall|i: int| 0 <= i < parts.skip(1).len() implies laws::is_plain(
            #[trigger] parts.skip(1)[i],
        ) by {
            assert(laws::is_plain(parts[i + 1]));
        }
        lemma_architectures_are_filled_in(parts.skip(1), marks.skip(1), tail, version, arch);
        assert(laws::is_plain(parts[0]));
        if marks[0] {
            laws::lemma_replaced_behind(version, rest, "{arch}"@, arch);
            laws::lemma_replaced_behind(parts[0], version + rest, "{arch}"@, arch);
            assert(parts[0] + (version + rest) =~= parts[0] + version + rest);
        } else {
            laws::lemma_replaced_behind(parts[0], "{arch}"@ + rest, "{arch}"@, arch);
            laws::lemma_replaced_here(rest, "{arch}"@, arch);
            assert(parts[0] + ("{arch}"@ + rest) =~= parts[0] + "{arch}"@ + rest);
        }
        assert(text::replaced(filled(parts, marks, version, "{arch}"@, tail), "{arch}"@, arch)
            =~= filled(parts, marks, version, arch, tail));
    }
}

/// Every placeholder of a template is filled in, however many there are and in
/// whatever order.
pub proof fn every_placeholder_is_filled_in(
    parts: Seq<Seq<char>>,
    marks: Seq<bool>,
    tail: Seq<char>,
    version: Seq<char>,
    arch: Seq<char>,
)
    requires
        parts.len() == marks.len(),
        forall|i: int| 0 <= i < parts.len() ==> laws::is_plain(#[trigger] parts[i]),
        laws::is_plain(tail),
        laws::is_plain(version),
    ensures
        deps::expanded_url(
            filled(parts, marks, "{version}"@, "{arch}"@, tail),
            version,
            arch,
        ) == filled(parts, marks, version, arch, tail),
{
    lemma_versions_are_filled_in(parts, marks, tail, version);
    lemma_architectures_are_filled_in(parts, marks, tail, version, arch);
}

// ── Dependencies ─────────────────────────────────────────────────────────────

/// Whether releases for an architecture are published under a name.
pub open spec fn is_published_as(arch: Seq<char>, name: Seq<char>) -> bool {
    ||| arch == "x86_64"@ && name == "amd64"@
    ||| arch == "aarch64"@ && name == "arm64"@
}

/// The step that has a shell do something.
pub open spec fn shell(text: Seq<char>) -> StepView {
    steps::root_must("bash"@, seq!["-c"@, text])
}

/// The step that unpacks the archive at a URL into a directory.
pub open spec fn unpacks(url: Seq<char>, dir: Seq<char>) -> StepView {
    shell("curl -fsSL '"@ + url + "' | tar -xz -C "@ + dir)
}

/// The step that makes the file at a URL an executable.
pub open spec fn fetches(url: Seq<char>, path: Seq<char>) -> StepView {
    shell("curl -fsSL '"@ + url + "' -o '"@ + path + "' && chmod 755 '"@ + path + "'"@)
}

/// Either the version asked for or this one.
pub open spec fn version_or(version: Option<Seq<char>>, default: Seq<char>) -> Seq<char> {
    match version {
        Some(v) => v,
        None => default,
    }
}

/// Whether a plan gets the Kubernetes binary of a name, if it is missing, from
/// the configured URL in the version asked for, or in version 1.35.3.
pub open spec fn gets_component(
    host: Host,
    plan: Seq<StepView>,
    name: Seq<char>,
    kubernetes_version: Option<Seq<char>>,
    arch: Seq<char>,
    missing: Outcome<Seq<char>>,
) -> bool {
    let url = deps::expanded_url(
        host.settings.url_kubernetes@,
        text::without_leading(version_or(kubernetes_version, "1.35.3"@), 'v'),
        arch,
    );
    steps::probes(
        host,
        plan,
        name,
        missing,
        seq![fetches(url + "/"@ + name, host.settings.bin_dir@ + "/"@ + name)],
    )
}

/// Whether a plan gets every tool that is missing from its configured URL: the
/// Cilium CLI in the version asked for, or in its default version, and each
/// other one in its default version.
pub open spec fn gets_tools(
    host: Host,
    plan: Seq<StepView>,
    cilium_version: Option<Seq<char>>,
    arch: Seq<char>,
    missing: Outcome<Seq<char>>,
) -> bool {
    let s = host.settings;
    let toml = s.containerd_conf_dir@ + "/config.toml"@;
    &&& steps::probes(
        host,
        plan,
        "containerd"@,
        missing,
        seq![
            unpacks(
                deps::expanded_url(s.url_containerd@, "2.2.2"@, arch),
                text::without_trailing(s.bin_dir@, "/bin"@),
            ),
            shell(
                "curl -fsSL '"@ + deps::expanded_url(s.url_containerd_service@, "2.2.2"@, arch)
                    + "' -o '"@ + (s.systemd_unit_dir@ + "/containerd.service"@) + "'"@,
            ),
            steps::root_must("mkdir"@, seq!["-p"@, s.containerd_conf_dir@]),
            shell("containerd config default > '"@ + toml + "'"@),
            steps::root_must(
                "sed"@,
                seq!["-i"@, "s/SystemdCgroup = false/SystemdCgroup = true/"@, toml],
            ),
            steps::root_must("systemctl"@, seq!["daemon-reload"@]),
            steps::root_must("systemctl"@, seq!["enable"@, "--now"@, "containerd"@]),
        ],
    )
    &&& steps::probes(
        host,
        plan,
        "runc"@,
        missing,
        seq![fetches(deps::expanded_url(s.url_runc@, "1.4.2"@, arch), s.sbin_dir@ + "/runc"@)],
    )
    &&& steps::asks(
        host,
        plan,
        cmd::CommandView { privileged: true, program: "ls"@, args: seq![s.cni_bin_dir@] },
        missing,
        seq![
            steps::root_must("mkdir"@, seq!["-p"@, s.cni_bin_dir@]),
            unpacks(deps::expanded_url(s.url_cni_plugins@, "1.9.1"@, arch), s.cni_bin_dir@),
        ],
    )
    &&& steps::probes(
        host,
        plan,
        "crictl"@,
        missing,
        seq![
            unpacks(deps::expanded_url(s.url_crictl@, "1.35.0"@, arch), s.bin_dir@),
            shell(
                "cat > '"@ + s.crictl_config@ + "' <<'EOF'\nruntime-endpoint: "@
                    + s.containerd_socket@ + "\nimage-endpoint: "@ + s.containerd_socket@
                    + "\ntimeout: 10\nEOF"@,
            ),
        ],
    )
    &&& steps::probes(
        host,
        plan,
        "helm"@,
        missing,
        seq![
            shell(
                "curl -fsSL '"@ + deps::expanded_url(s.url_helm@, "4.1.3"@, arch)
                    + "' | tar -xz --strip-components=1 -C "@ + s.bin_dir@ + " linux-"@ + arch
                    + "/helm"@,
            ),
        ],
    )
    &&& steps::probes(
        host,
        plan,
        "cilium"@,
        missing,
        seq![
            unpacks(
                deps::expanded_url(
                    s.url_cilium_cli@,
                    version_or(cilium_version, "0.19.2"@),
                    arch,
                ),
                s.bin_dir@,
            ),
        ],
    )
}

/// Whether a plan gets every dependency that is missing, and sets the kubelet
/// service up.
pub open spec fn equips(
    host: Host,
    plan: Seq<StepView>,
    kubernetes_version: Option<Seq<char>>,
    cilium_version: Option<Seq<char>>,
    arch: Seq<char>,
    missing: Outcome<Seq<char>>,
) -> bool {
    &&& gets_component(host, plan, "kubeadm"@, kubernetes_version, arch, missing)
    &&& gets_component(host, plan, "kubelet"@, kubernetes_version, arch, missing)
    &&& gets_component(host, plan, "kubectl"@, kubernetes_version, arch, missing)
    &&& gets_tools(host, plan, cilium_version, arch, missing)
    &&& steps::precedes(
        plan,
        steps::root_must("systemctl"@, seq!["daemon-reload"@]),
        steps::root_must("systemctl"@, seq!["enable"@, "kubelet"@]),
    )
}

/// What a part of a plan looks up, the plan does.
proof fn lemma_probes_extend(
    host: Host,
    before: Seq<StepView>,
    plan: Seq<StepView>,
    after: Seq<StepView>,
    binary: Seq<char>,
    outcome: Outcome<Seq<char>>,
    more: Seq<StepView>,
)
    requires
        steps::probes(host, plan, binary, outcome, more),
    ensures
        steps::probes(host, before + plan + after, binary, outcome, more),
{
    let i = choose|i: int|
        0 <= i < plan.len() && steps::looks_up(#[trigger] plan[i], binary) && steps::answered(
            host,
            plan[i],
            outcome,
        ) == more;
    assert((before + plan + after)[before.len() + i] == plan[i]);
}

/// A component that is missing, from the plan for the components alone.
proof fn lemma_gets_component(
    host: Host,
    at: int,
    kubernetes_version: Option<Seq<char>>,
    arch: Seq<char>,
    missing: Outcome<Seq<char>>,
)
    requires
        is_published_as(host.arch@, arch),
        !(missing is Success),
        0 <= at < 3,
    ensures
        gets_component(
            host,
            deps::install_kubernetes_components_plan(host, kubernetes_version),
            seq!["kubeadm"@, "kubelet"@, "kubectl"@][at],
            kubernetes_version,
            arch,
            missing,
        ),
{
    lemma_arch(host.arch@, arch);
    let plan = deps::install_kubernetes_components_plan(host, kubernetes_version);
    let name = seq!["kubeadm"@, "kubelet"@, "kubectl"@][at];
    let url = deps::expanded_url(
        host.settings.url_kubernetes@,
        text::without_leading(version_or(kubernetes_version, "1.35.3"@), 'v'),
        arch,
    );
    assert(plan[at] == deps::component_check(name, url));
    assert(steps::looks_up(plan[at], name));
    assert(steps::answered(host, plan[at], missing) =~~= seq![
        fetches(url + "/"@ + name, host.settings.bin_dir@ + "/"@ + name),
    ]);
}

/// The name that releases are published under.
proof fn lemma_arch(arch: Seq<char>, name: Seq<char>)
    requires
        is_published_as(arch, name),
    ensures
        deps::go_arch_of(arch) == Ok::<_, Error<Seq<char>>>(name),
{
    reveal_strlit("x86_64");
    reveal_strlit("aarch64");
    assert("x86_64"@.len() == 6 && "aarch64"@.len() == 7);
}

/// The tools that are missing, from the plan for everything.
proof fn lemma_gets_tools(
    host: Host,
    kubernetes_version: Option<Seq<char>>,
    cilium_version: Option<Seq<char>>,
    arch: Seq<char>,
    missing: Outcome<Seq<char>>,
)
    requires
        is_published_as(host.arch@, arch),
        !(missing is Success),
    ensures
        gets_tools(
            host,
            deps::install_all_plan(host, kubernetes_version, cilium_version),
            cilium_version,
            arch,
            missing,
        ),
{
    lemma_arch(host.arch@, arch);
    let s = host.settings;
    let toml = s.containerd_conf_dir@ + "/config.toml"@;
    let plan = deps::install_all_plan(host, kubernetes_version, cilium_version);
    let at: int = if host.root {
        0
    } else {
        1
    };
    let n = plan.len() as int;
    assert(steps::looks_up(plan[at], "containerd"@));
    assert(steps::looks_up(plan[at + 1], "runc"@));
    assert(steps::reads(plan[at + 2], true, "ls"@, seq![s.cni_bin_dir@]));
    assert(steps::looks_up(plan[at + 3], "crictl"@));
    assert(steps::looks_up(plan[n - 2], "helm"@));
    assert(steps::looks_up(plan[n - 1], "cilium"@));
    assert(steps::answered(host, plan[at], missing) =~~= seq![
        unpacks(
            deps::expanded_url(s.url_containerd@, "2.2.2"@, arch),
            text::without_trailing(s.bin_dir@, "/bin"@),
        ),
        shell(
            "curl -fsSL '"@ + deps::expanded_url(s.url_containerd_service@, "2.2.2"@, arch)
                + "' -o '"@ + (s.systemd_unit_dir@ + "/containerd.service"@) + "'"@,
        ),
        steps::root_must("mkdir"@, seq!["-p"@, s.containerd_conf_dir@]),
        shell("containerd config default > '"@ + toml + "'"@),
        steps::root_must(
            "sed"@,
            seq!["-i"@, "s/SystemdCgroup = false/SystemdCgroup = true/"@, toml],
        ),
        steps::root_must("systemctl"@, seq!["daemon-reload"@]),
        steps::root_must("systemctl"@, seq!["enable"@, "--now"@, "containerd"@]),
    ]);
    assert(steps::answered(host, plan[at + 1], missing) =~~= seq![
        fetches(deps::expanded_url(s.url_runc@, "1.4.2"@, arch), s.sbin_dir@ + "/runc"@),
    ]);
    assert(steps::answered(host, plan[at + 2], missing) =~~= seq![
        steps::root_must("mkdir"@, seq!["-p"@, s.cni_bin_dir@]),
        unpacks(deps::expanded_url(s.url_cni_plugins@, "1.9.1"@, arch), s.cni_bin_dir@),
    ]);
    assert(steps::answered(host, plan[at + 3], missing) =~~= seq![
        unpacks(deps::expanded_url(s.url_crictl@, "1.35.0"@, arch), s.bin_dir@),
        shell(
            "cat > '"@ + s.crictl_config@ + "' <<'EOF'\nruntime-endpoint: "@
                + s.containerd_socket@ + "\nimage-endpoint: "@ + s.containerd_socket@
                + "\ntimeout: 10\nEOF"@,
        ),
    ]);
    assert(steps::answered(host, plan[n - 2], missing) =~~= seq![
        shell(
            "curl -fsSL '"@ + deps::expanded_url(s.url_helm@, "4.1.3"@, arch)
                + "' | tar -xz --strip-components=1 -C "@ + s.bin_dir@ + " linux-"@ + arch
                + "/helm"@,
        ),
    ]);
    assert(steps::answered(host, plan[n - 1], missing) =~~= seq![
        unpacks(
            deps::expanded_url(s.url_cilium_cli@, version_or(cilium_version, "0.19.2"@), arch),
            s.bin_dir@,
        ),
    ]);
}

/// Everything, with more behind it.
proof fn lemma_equips(
    host: Host,
    kubernetes_version: Option<Seq<char>>,
    cilium_version: Option<Seq<char>>,
    arch: Seq<char>,
    missing: Outcome<Seq<char>>,
    rest: Seq<StepView>,
)
    requires
        is_published_as(host.arch@, arch),
        !(missing is Success),
    ensures
        equips(
            host,
            deps::install_all_plan(host, kubernetes_version, cilium_version) + rest,
            kubernetes_version,
            cilium_version,
            arch,
            missing,
        ),
{
    let plan = deps::install_all_plan(host, kubernetes_version, cilium_version);
    let components = deps::install_kubernetes_components_plan(host, kubernetes_version);
    let at: int = if host.root {
        0
    } else {
        1
    };
    let whole = plan + rest;
    lemma_arch(host.arch@, arch);
    let before = plan.take(at + 4);
    let after = plan.skip(at + 4 + components.len()) + rest;
    assert(whole =~= before + components + after);
    lemma_gets_component(host, 0, kubernetes_version, arch, missing);
    lemma_gets_component(host, 1, kubernetes_version, arch, missing);
    lemma_gets_component(host, 2, kubernetes_version, arch, missing);
    lemma_component_extends(host, before, components, after, "kubeadm"@, kubernetes_version, arch, missing);
    lemma_component_extends(host, before, components, after, "kubelet"@, kubernetes_version, arch, missing);
    lemma_component_extends(host, before, components, after, "kubectl"@, kubernetes_version, arch, missing);
    assert(components[4] =~~= steps::root_must("systemctl"@, seq!["daemon-reload"@]));
    assert(components[5] =~~= steps::root_must("systemctl"@, seq!["enable"@, "kubelet"@]));
    assert(whole[at + 8] == components[4]);
    assert(whole[at + 9] == components[5]);
    lemma_gets_tools(host, kubernetes_version, cilium_version, arch, missing);
    lemma_tools_extend(host, plan, rest, cilium_version, arch, missing);
}

/// A component that a part of a plan gets, the plan does.
proof fn lemma_component_extends(
    host: Host,
    before: Seq<StepView>,
    plan: Seq<StepView>,
    after: Seq<StepView>,
    name: Seq<char>,
    kubernetes_version: Option<Seq<char>>,
    arch: Seq<char>,
    missing: Outcome<Seq<char>>,
)
    requires
        gets_component(host, plan, name, kubernetes_version, arch, missing),
    ensures
        gets_component(host, before + plan + after, name, kubernetes_version, arch, missing),
{
    let url = deps::expanded_url(
        host.settings.url_kubernetes@,
        text::without_leading(version_or(kubernetes_version, "1.35.3"@), 'v'),
        arch,
    );
    lemma_probes_extend(
        host,
        before,
        plan,
        after,
        name,
        missing,
        seq![fetches(url + "/"@ + name, host.settings.bin_dir@ + "/"@ + name)],
    );
}

/// The tools that a plan gets, it gets with more behind it.
proof fn lemma_tools_extend(
    host: Host,
    plan: Seq<StepView>,
    rest: Seq<StepView>,
    cilium_version: Option<Seq<char>>,
    arch: Seq<char>,
    missing: Outcome<Seq<char>>,
)
    requires
        gets_tools(host, plan, cilium_version, arch, missing),
    ensures
        gets_tools(host, plan + rest, cilium_version, arch, missing),
{
    assert forall|i: int| 0 <= i < plan.len() implies #[trigger] plan[i] == (plan + rest)[i] by {}
}

/// Whatever else a request does, it hands the version of Kubernetes to
/// kubeadm, kubelet, and kubectl, and the version of Cilium to the Cilium CLI;
/// what is missing is fetched for the architecture of the host. Without a
/// version, Kubernetes is 1.35.3.
pub proof fn a_missing_dependency_is_fetched(
    host: Host,
    arch: Seq<char>,
    kubernetes_version: Option<Seq<char>>,
    cilium_version: Option<Seq<char>>,
    missing: Outcome<Seq<char>>,
    endpoint: Option<Seq<char>>,
    options: InitOptions<Seq<char>>,
    joining: (Seq<char>, Seq<char>, Seq<char>, Seq<char>, Option<Seq<char>>),
)
    requires
        is_published_as(host.arch@, arch),
        !(missing is Success),
        options.kubernetes_version == kubernetes_version,
        options.cilium_version == cilium_version,
    ensures
        equips(
            host,
            cli::request_plan(host, Request::InstallDeps { kubernetes_version, cilium_version }),
            kubernetes_version,
            cilium_version,
            arch,
            missing,
        ),
        equips(
            host,
            cli::request_plan(host, Request::Init { endpoint, options }),
            kubernetes_version,
            cilium_version,
            arch,
            missing,
        ),
        equips(
            host,
            cli::request_plan(
                host,
                Request::Join {
                    role: joining.0,
                    token: joining.1,
                    api_server: joining.2,
                    ca_cert_hash: joining.3,
                    certificate_key: joining.4,
                    kubernetes_version,
                    cilium_version,
                },
            ),
            kubernetes_version,
            cilium_version,
            arch,
            missing,
        ),
{
    let all = deps::install_all_plan(host, kubernetes_version, cilium_version);
    let none = Seq::<StepView>::empty();
    lemma_equips(host, kubernetes_version, cilium_version, arch, missing, none);
    assert(all + none =~= all);
    lemma_equips(
        host,
        kubernetes_version,
        cilium_version,
        arch,
        missing,
        net::resolve_control_plane_endpoint_plan(host, endpoint, options),
    );
    let last = cluster::preflight_checks_plan() + cli::join_as_plan(
        host,
        cluster::role_of(joining.0),
        joining.1,
        joining.2,
        joining.3,
        joining.4,
    );
    lemma_equips(host, kubernetes_version, cilium_version, arch, missing, last);
    assert(all + last =~= all + cluster::preflight_checks_plan() + cli::join_as_plan(
        host,
        cluster::role_of(joining.0),
        joining.1,
        joining.2,
        joining.3,
        joining.4,
    ));
}

/// To leave a version out is to ask for the default version.
pub proof fn versions_have_defaults(host: Host, cilium_version: Option<Seq<char>>, present: bool)
    ensures
        deps::install_all_plan(host, None, cilium_version) == deps::install_all_plan(
            host,
            Some("1.35.3"@),
            cilium_version,
        ),
        deps::install_kubernetes_components_plan(host, None)
            == deps::install_kubernetes_components_plan(host, Some("1.35.3"@)),
        deps::install_containerd_plan(host, None, present) == deps::install_containerd_plan(
            host,
            Some("2.2.2"@),
            present,
        ),
        deps::install_runc_plan(host, None, present) == deps::install_runc_plan(
            host,
            Some("1.4.2"@),
            present,
        ),
        deps::install_crictl_plan(host, None, present) == deps::install_crictl_plan(
            host,
            Some("1.35.0"@),
            present,
        ),
        deps::install_helm_plan(host, None, present) == deps::install_helm_plan(
            host,
            Some("4.1.3"@),
            present,
        ),
        deps::install_cilium_cli_plan(host, None, present) == deps::install_cilium_cli_plan(
            host,
            Some("0.19.2"@),
            present,
        ),
        forall|listing: Seq<char>| #[trigger]
            deps::install_cni_plugins_plan(host, None, listing) == deps::install_cni_plugins_plan(
                host,
                Some("1.9.1"@),
                listing,
            ),
{
}

/// A version that is asked for is the one that is fetched, of every tool.
pub proof fn a_given_version_is_fetched(host: Host, arch: Seq<char>, version: Seq<char>)
    requires
        is_published_as(host.arch@, arch),
    ensures
        ({
            let s = host.settings;
            &&& deps::install_containerd_plan(host, Some(version), false)[0] == unpacks(
                deps::expanded_url(s.url_containerd@, version, arch),
                text::without_trailing(s.bin_dir@, "/bin"@),
            )
            &&& deps::install_runc_plan(host, Some(version), false) =~= seq![
                fetches(deps::expanded_url(s.url_runc@, version, arch), s.sbin_dir@ + "/runc"@),
            ]
            &&& deps::install_cni_plugins_plan(host, Some(version), seq![])[1] == unpacks(
                deps::expanded_url(s.url_cni_plugins@, version, arch),
                s.cni_bin_dir@,
            )
            &&& deps::install_crictl_plan(host, Some(version), false)[0] == unpacks(
                deps::expanded_url(s.url_crictl@, version, arch),
                s.bin_dir@,
            )
            &&& deps::install_helm_plan(host, Some(version), false) =~= seq![
                shell(
                    "curl -fsSL '"@ + deps::expanded_url(s.url_helm@, version, arch)
                        + "' | tar -xz --strip-components=1 -C "@ + s.bin_dir@ + " linux-"@ + arch
                        + "/helm"@,
                ),
            ]
            &&& deps::install_cilium_cli_plan(host, Some(version), false) =~= seq![
                unpacks(deps::expanded_url(s.url_cilium_cli@, version, arch), s.bin_dir@),
            ]
        }),
{
    lemma_arch(host.arch@, arch);
    let s = host.settings;
    assert(deps::install_containerd_plan(host, Some(version), false)[0] =~~= unpacks(
        deps::expanded_url(s.url_containerd@, version, arch),
        text::without_trailing(s.bin_dir@, "/bin"@),
    ));
    assert(deps::install_runc_plan(host, Some(version), false)[0] =~~= fetches(
        deps::expanded_url(s.url_runc@, version, arch),
        s.sbin_dir@ + "/runc"@,
    ));
    assert(deps::install_cni_plugins_plan(host, Some(version), seq![])[1] =~~= unpacks(
        deps::expanded_url(s.url_cni_plugins@, version, arch),
        s.cni_bin_dir@,
    ));
    assert(deps::install_crictl_plan(host, Some(version), false)[0] =~~= unpacks(
        deps::expanded_url(s.url_crictl@, version, arch),
        s.bin_dir@,
    ));
    assert(deps::install_helm_plan(host, Some(version), false)[0] =~~= shell(
        "curl -fsSL '"@ + deps::expanded_url(s.url_helm@, version, arch)
            + "' | tar -xz --strip-components=1 -C "@ + s.bin_dir@ + " linux-"@ + arch
            + "/helm"@,
    ));
    assert(deps::install_cilium_cli_plan(host, Some(version), false)[0] =~~= unpacks(
        deps::expanded_url(s.url_cilium_cli@, version, arch),
        s.bin_dir@,
    ));
}

/// For an architecture without releases, everything that is missing is refused,
/// and so are the Kubernetes components.
pub proof fn other_architectures_are_refused(
    host: Host,
    version: Option<Seq<char>>,
)
    requires
        forall|name: Seq<char>| !is_published_as(host.arch@, name),
    ensures
        ({
            let refused = seq![StepView::Fail(Error::UnsupportedArchitecture(host.arch@))];
            &&& deps::install_containerd_plan(host, version, false) =~= refused
            &&& deps::install_runc_plan(host, version, false) =~= refused
            &&& deps::install_cni_plugins_plan(host, version, seq![]) =~= refused
            &&& deps::install_crictl_plan(host, version, false) =~= refused
            &&& deps::install_helm_plan(host, version, false) =~= refused
            &&& deps::install_cilium_cli_plan(host, version, false) =~= refused
            &&& deps::install_kubernetes_components_plan(host, version) =~= refused
        }),
{
    assert(!is_published_as(host.arch@, "amd64"@));
    assert(!is_published_as(host.arch@, "arm64"@));
}

/// Without root privileges, `sudo` is asked for them before anything is looked
/// up, and what it says decides.
pub proof fn privileges_come_first(
    host: Host,
    kubernetes_version: Option<Seq<char>>,
    cilium_version: Option<Seq<char>>,
    granted: Outcome<Seq<char>>,
    status: Seq<char>,
    cause: Seq<char>,
)
    requires
        granted is Success,
    ensures
        ({
            let plan = deps::install_all_plan(host, kubernetes_version, cilium_version);
            &&& host.root ==> steps::looks_up(plan[0], "containerd"@)
            &&& !host.root ==> {
                &&& plan[0] matches StepView::Ask { io: Io::Interactive, command, .. } && command
                    == (cmd::CommandView { privileged: false, program: "sudo"@, args: seq!["-v"@] })
                &&& steps::looks_up(plan[1], "containerd"@)
                &&& steps::answered(host, plan[0], granted) == Seq::<StepView>::empty()
                &&& steps::answered(host, plan[0], Outcome::Failure(status)) =~= seq![
                    StepView::Fail(Error::SudoRequired),
                ]
                &&& steps::answered(host, plan[0], Outcome::NotStarted(cause)) =~= seq![
                    StepView::Fail(Error::NotStarted { program: "sudo"@, cause }),
                ]
            }
        }),
{
    let plan = deps::install_all_plan(host, kubernetes_version, cilium_version);
    assert(plan[0] == if host.root {
        plan[0]
    } else {
        cmd::ensure_privilege_plan(false)[0]
    });
}

// ── The kubelet service ──────────────────────────────────────────────────────

/// A path with a text in front of it and one behind it.
proof fn lemma_path_between(
    before: Seq<char>,
    left: Seq<char>,
    pre: Seq<char>,
    path: Seq<char>,
    right: Seq<char>,
    post: Seq<char>,
)
    requires
        pre.len() <= left.len(),
        left.skip(left.len() - pre.len()) == pre,
        post.len() <= right.len(),
        right.take(post.len() as int) == post,
    ensures
        addons::holds(before + left + path + right, pre + path + post),
{
    let a = before + left.take(left.len() - pre.len());
    let b = right.skip(post.len() as int);
    assert(left =~= left.take(left.len() - pre.len()) + pre);
    assert(right =~= post + b);
    assert(before + left + path + right =~= a + (pre + path + post) + b);
}

/// A path of the kubelet service, with what is around it.
proof fn lemma_path_0(before: Seq<char>, path: Seq<char>)
    ensures
        addons::holds(
            before + "mkdir -p "@ + path + "/kubelet.service.d\ncat > "@,
            "mkdir -p "@ + path + "/kubelet.service.d\n"@,
        ),
{
    let left = "mkdir -p "@;
    let right = "/kubelet.service.d\ncat > "@;
    reveal_strlit("mkdir -p ");
    reveal_strlit("/kubelet.service.d\ncat > ");
    reveal_strlit("/kubelet.service.d\n");
    assert(left.skip(left.len() - "mkdir -p "@.len()) =~= "mkdir -p "@);
    assert(right.take("/kubelet.service.d\n"@.len() as int) =~= "/kubelet.service.d\n"@);
    lemma_path_between(before, left, "mkdir -p "@, path, right, "/kubelet.service.d\n"@);
}

/// A path of the kubelet service, with what is around it.
proof fn lemma_path_1(before: Seq<char>, path: Seq<char>)
    ensures
        addons::holds(
            before + "/kubelet.service.d\ncat > "@ + path + "/kubelet.service <<'UNIT'\n[Unit]\nDescription=kubelet: The Kubernetes Node Agent\nDocumentation=https://kubernetes.io/docs/\nWants=network-online.target\nAfter=network-online.target\n\n[Service]\nExecStart="@,
            "cat > "@ + path + "/kubelet.service <<"@,
        ),
{
    let left = "/kubelet.service.d\ncat > "@;
    let right = "/kubelet.service <<'UNIT'\n[Unit]\nDescription=kubelet: The Kubernetes Node Agent\nDocumentation=https://kubernetes.io/docs/\nWants=network-online.target\nAfter=network-online.target\n\n[Service]\nExecStart="@;
    reveal_strlit("/kubelet.service.d\ncat > ");
    reveal_strlit("/kubelet.service <<'UNIT'\n[Unit]\nDescription=kubelet: The Kubernetes Node Agent\nDocumentation=https://kubernetes.io/docs/\nWants=network-online.target\nAfter=network-online.target\n\n[Service]\nExecStart=");
    reveal_strlit("cat > ");
    reveal_strlit("/kubelet.service <<");
    assert(left.skip(left.len() - "cat > "@.len()) =~= "cat > "@);
    assert(right.take("/kubelet.service <<"@.len() as int) =~= "/kubelet.service <<"@);
    lemma_path_between(before, left, "cat > "@, path, right, "/kubelet.service <<"@);
}

/// A path of the kubelet service, with what is around it.
proof fn lemma_path_2(before: Seq<char>, path: Seq<char>)
    ensures
        addons::holds(
            before + "/kubelet.service <<'UNIT'\n[Unit]\nDescription=kubelet: The Kubernetes Node Agent\nDocumentation=https://kubernetes.io/docs/\nWants=network-online.target\nAfter=network-online.target\n\n[Service]\nExecStart="@ + path + "/kubelet\nRestart=always\nStartLimitInterval=0\nRestartSec=10\n\n[Install]\nWantedBy=multi-user.target\nUNIT\n\ncat > "@,
            "ExecStart="@ + path + "/kubelet\n"@,
        ),
{
    let left = "/kubelet.service <<'UNIT'\n[Unit]\nDescription=kubelet: The Kubernetes Node Agent\nDocumentation=https://kubernetes.io/docs/\nWants=network-online.target\nAfter=network-online.target\n\n[Service]\nExecStart="@;
    let right = "/kubelet\nRestart=always\nStartLimitInterval=0\nRestartSec=10\n\n[Install]\nWantedBy=multi-user.target\nUNIT\n\ncat > "@;
    reveal_strlit("/kubelet.service <<'UNIT'\n[Unit]\nDescription=kubelet: The Kubernetes Node Agent\nDocumentation=https://kubernetes.io/docs/\nWants=network-online.target\nAfter=network-online.target\n\n[Service]\nExecStart=");
    reveal_strlit("/kubelet\nRestart=always\nStartLimitInterval=0\nRestartSec=10\n\n[Install]\nWantedBy=multi-user.target\nUNIT\n\ncat > ");
    reveal_strlit("ExecStart=");
    reveal_strlit("/kubelet\n");
    assert(left.skip(left.len() - "ExecStart="@.len()) =~= "ExecStart="@);
    assert(right.take("/kubelet\n"@.len() as int) =~= "/kubelet\n"@);
    lemma_path_between(before, left, "ExecStart="@, path, right, "/kubelet\n"@);
}

/// A path of the kubelet service, with what is around it.
proof fn lemma_path_3(before: Seq<char>, path: Seq<char>)
    ensures
        addons::holds(
            before + "/kubelet\nRestart=always\nStartLimitInterval=0\nRestartSec=10\n\n[Install]\nWantedBy=multi-user.target\nUNIT\n\ncat > "@ + path + "/kubelet.service.d/10-kubeadm.conf <<'DROP'\n[Service]\nEnvironment=\"KUBELET_KUBECONFIG_ARGS=--bootstrap-kubeconfig="@,
            "cat > "@ + path + "/kubelet.service.d/10-kubeadm.conf <<"@,
        ),
{
    let left = "/kubelet\nRestart=always\nStartLimitInterval=0\nRestartSec=10\n\n[Install]\nWantedBy=multi-user.target\nUNIT\n\ncat > "@;
    let right = "/kubelet.service.d/10-kubeadm.conf <<'DROP'\n[Service]\nEnvironment=\"KUBELET_KUBECONFIG_ARGS=--bootstrap-kubeconfig="@;
    reveal_strlit("/kubelet\nRestart=always\nStartLimitInterval=0\nRestartSec=10\n\n[Install]\nWantedBy=multi-user.target\nUNIT\n\ncat > ");
    reveal_strlit("/kubelet.service.d/10-kubeadm.conf <<'DROP'\n[Service]\nEnvironment=\"KUBELET_KUBECONFIG_ARGS=--bootstrap-kubeconfig=");
    reveal_strlit("cat > ");
    reveal_strlit("/kubelet.service.d/10-kubeadm.conf <<");
    assert(left.skip(left.len() - "cat > "@.len()) =~= "cat > "@);
    assert(right.take("/kubelet.service.d/10-kubeadm.conf <<"@.len() as int) =~= "/kubelet.service.d/10-kubeadm.conf <<"@);
    lemma_path_between(before, left, "cat > "@, path, right, "/kubelet.service.d/10-kubeadm.conf <<"@);
}

/// A path of the kubelet service, with what is around it.
proof fn lemma_path_4(before: Seq<char>, path: Seq<char>)
    ensures
        addons::holds(
            before + "/kubelet.service.d/10-kubeadm.conf <<'DROP'\n[Service]\nEnvironment=\"KUBELET_KUBECONFIG_ARGS=--bootstrap-kubeconfig="@ + path + "/bootstrap-kubelet.conf --kubeconfig="@,
            "--bootstrap-kubeconfig="@ + path + "/bootstrap-kubelet.conf "@,
        ),
{
    let left = "/kubelet.service.d/10-kubeadm.conf <<'DROP'\n[Service]\nEnvironment=\"KUBELET_KUBECONFIG_ARGS=--bootstrap-kubeconfig="@;
    let right = "/bootstrap-kubelet.conf --kubeconfig="@;
    reveal_strlit("/kubelet.service.d/10-kubeadm.conf <<'DROP'\n[Service]\nEnvironment=\"KUBELET_KUBECONFIG_ARGS=--bootstrap-kubeconfig=");
    reveal_strlit("/bootstrap-kubelet.conf --kubeconfig=");
    reveal_strlit("--bootstrap-kubeconfig=");
    reveal_strlit("/bootstrap-kubelet.conf ");
    assert(left.skip(left.len() - "--bootstrap-kubeconfig="@.len()) =~= "--bootstrap-kubeconfig="@);
    assert(right.take("/bootstrap-kubelet.conf "@.len() as int) =~= "/bootstrap-kubelet.conf "@);
    lemma_path_between(before, left, "--bootstrap-kubeconfig="@, path, right, "/bootstrap-kubelet.conf "@);
}

/// A path of the kubelet service, with what is around it.
proof fn lemma_path_5(before: Seq<char>, path: Seq<char>)
    ensures
        addons::holds(
            before + "/bootstrap-kubelet.conf --kubeconfig="@ + path + "/kubelet.conf\"\nEnvironment=\"KUBELET_CONFIG_ARGS=--config="@,
            "--kubeconfig="@ + path + "/kubelet.conf\""@,
        ),
{
    let left = "/bootstrap-kubelet.conf --kubeconfig="@;
    let right = "/kubelet.conf\"\nEnvironment=\"KUBELET_CONFIG_ARGS=--config="@;
    reveal_strlit("/bootstrap-kubelet.conf --kubeconfig=");
    reveal_strlit("/kubelet.conf\"\nEnvironment=\"KUBELET_CONFIG_ARGS=--config=");
    reveal_strlit("--kubeconfig=");
    reveal_strlit("/kubelet.conf\"");
    assert(left.skip(left.len() - "--kubeconfig="@.len()) =~= "--kubeconfig="@);
    assert(right.take("/kubelet.conf\""@.len() as int) =~= "/kubelet.conf\""@);
    lemma_path_between(before, left, "--kubeconfig="@, path, right, "/kubelet.conf\""@);
}

/// A path of the kubelet service, with what is around it.
proof fn lemma_path_6(before: Seq<char>, path: Seq<char>)
    ensures
        addons::holds(
            before + "/kubelet.conf\"\nEnvironment=\"KUBELET_CONFIG_ARGS=--config="@ + path + "/config.yaml\"\nEnvironmentFile=-"@,
            "--config="@ + path + "/config.yaml\""@,
        ),
{
    let left = "/kubelet.conf\"\nEnvironment=\"KUBELET_CONFIG_ARGS=--config="@;
    let right = "/config.yaml\"\nEnvironmentFile=-"@;
    reveal_strlit("/kubelet.conf\"\nEnvironment=\"KUBELET_CONFIG_ARGS=--config=");
    reveal_strlit("/config.yaml\"\nEnvironmentFile=-");
    reveal_strlit("--config=");
    reveal_strlit("/config.yaml\"");
    assert(left.skip(left.len() - "--config="@.len()) =~= "--config="@);
    assert(right.take("/config.yaml\""@.len() as int) =~= "/config.yaml\""@);
    lemma_path_between(before, left, "--config="@, path, right, "/config.yaml\""@);
}

/// A path of the kubelet service, with what is around it.
proof fn lemma_path_7(before: Seq<char>, path: Seq<char>)
    ensures
        addons::holds(
            before + "/config.yaml\"\nEnvironmentFile=-"@ + path + "/kubeadm-flags.env\nExecStart=\nExecStart="@,
            "EnvironmentFile=-"@ + path + "/kubeadm-flags.env\n"@,
        ),
{
    let left = "/config.yaml\"\nEnvironmentFile=-"@;
    let right = "/kubeadm-flags.env\nExecStart=\nExecStart="@;
    reveal_strlit("/config.yaml\"\nEnvironmentFile=-");
    reveal_strlit("/kubeadm-flags.env\nExecStart=\nExecStart=");
    reveal_strlit("EnvironmentFile=-");
    reveal_strlit("/kubeadm-flags.env\n");
    assert(left.skip(left.len() - "EnvironmentFile=-"@.len()) =~= "EnvironmentFile=-"@);
    assert(right.take("/kubeadm-flags.env\n"@.len() as int) =~= "/kubeadm-flags.env\n"@);
    lemma_path_between(before, left, "EnvironmentFile=-"@, path, right, "/kubeadm-flags.env\n"@);
}

/// A path of the kubelet service, with what is around it.
proof fn lemma_path_8(before: Seq<char>, path: Seq<char>)
    ensures
        addons::holds(
            before + "/kubeadm-flags.env\nExecStart=\nExecStart="@ + path + "/kubelet $KUBELET_KUBECONFIG_ARGS $KUBELET_CONFIG_ARGS $KUBELET_KUBEADM_ARGS $KUBELET_EXTRA_ARGS\nDROP"@,
            "ExecStart="@ + path + "/kubelet $"@,
        ),
{
    let left = "/kubeadm-flags.env\nExecStart=\nExecStart="@;
    let right = "/kubelet $KUBELET_KUBECONFIG_ARGS $KUBELET_CONFIG_ARGS $KUBELET_KUBEADM_ARGS $KUBELET_EXTRA_ARGS\nDROP"@;
    reveal_strlit("/kubeadm-flags.env\nExecStart=\nExecStart=");
    reveal_strlit("/kubelet $KUBELET_KUBECONFIG_ARGS $KUBELET_CONFIG_ARGS $KUBELET_KUBEADM_ARGS $KUBELET_EXTRA_ARGS\nDROP");
    reveal_strlit("ExecStart=");
    reveal_strlit("/kubelet $");
    assert(left.skip(left.len() - "ExecStart="@.len()) =~= "ExecStart="@);
    assert(right.take("/kubelet $"@.len() as int) =~= "/kubelet $"@);
    lemma_path_between(before, left, "ExecStart="@, path, right, "/kubelet $"@);
}

/// The service runs the kubelet from where it is installed, with the
/// kubeconfigs and the configuration that kubeadm writes, and the script that
/// sets it up must succeed.
pub proof fn the_kubelet_service_uses_the_configured_paths(host: Host)
    ensures
        ({
            let plan = deps::install_kubelet_service_plan(host);
            let script = deps::kubelet_service_script(host);
            let s = host.settings;
            &&& plan.len() == 3
            &&& plan[0] == shell(script)
            &&& plan[1] == steps::root_must("systemctl"@, seq!["daemon-reload"@])
            &&& plan[2] == steps::root_must("systemctl"@, seq!["enable"@, "kubelet"@])
            &&& addons::holds(script, "mkdir -p "@ + s.systemd_unit_dir@ + "/kubelet.service.d\n"@)
            &&& addons::holds(script, "cat > "@ + s.systemd_unit_dir@ + "/kubelet.service <<"@)
            &&& addons::holds(script, "ExecStart="@ + s.bin_dir@ + "/kubelet\n"@)
            &&& addons::holds(
                script,
                "cat > "@ + s.systemd_unit_dir@ + "/kubelet.service.d/10-kubeadm.conf <<"@,
            )
            &&& addons::holds(
                script,
                "--bootstrap-kubeconfig="@ + s.kubernetes_conf_dir@ + "/bootstrap-kubelet.conf "@,
            )
            &&& addons::holds(
                script,
                "--kubeconfig="@ + s.kubernetes_conf_dir@ + "/kubelet.conf\""@,
            )
            &&& addons::holds(script, "--config="@ + s.kubelet_data_dir@ + "/config.yaml\""@)
            &&& addons::holds(
                script,
                "EnvironmentFile=-"@ + s.kubelet_data_dir@ + "/kubeadm-flags.env\n"@,
            )
            &&& addons::holds(script, "ExecStart="@ + s.bin_dir@ + "/kubelet $"@)
        }),
{
    let s = host.settings;
    let none = Seq::<char>::empty();
    let p0 = "mkdir -p "@;
    assert(none + p0 =~= p0);
    let q0 = p0 + s.systemd_unit_dir@;
    let p1 = q0 + "/kubelet.service.d\ncat > "@;
    addons::lemma_holds_on(p0, s.systemd_unit_dir@);
    addons::lemma_holds_on(q0, "/kubelet.service.d\ncat > "@);
    let q1 = p1 + s.systemd_unit_dir@;
    let p2 = q1 + "/kubelet.service <<'UNIT'\n[Unit]\nDescription=kubelet: The Kubernetes Node Agent\nDocumentation=https://kubernetes.io/docs/\nWants=network-online.target\nAfter=network-online.target\n\n[Service]\nExecStart="@;
    addons::lemma_holds_on(p1, s.systemd_unit_dir@);
    addons::lemma_holds_on(q1, "/kubelet.service <<'UNIT'\n[Unit]\nDescription=kubelet: The Kubernetes Node Agent\nDocumentation=https://kubernetes.io/docs/\nWants=network-online.target\nAfter=network-online.target\n\n[Service]\nExecStart="@);
    let q2 = p2 + s.bin_dir@;
    let p3 = q2 + "/kubelet\nRestart=always\nStartLimitInterval=0\nRestartSec=10\n\n[Install]\nWantedBy=multi-user.target\nUNIT\n\ncat > "@;
    addons::lemma_holds_on(p2, s.bin_dir@);
    addons::lemma_holds_on(q2, "/kubelet\nRestart=always\nStartLimitInterval=0\nRestartSec=10\n\n[Install]\nWantedBy=multi-user.target\nUNIT\n\ncat > "@);
    let q3 = p3 + s.systemd_unit_dir@;
    let p4 = q3 + "/kubelet.service.d/10-kubeadm.conf <<'DROP'\n[Service]\nEnvironment=\"KUBELET_KUBECONFIG_ARGS=--bootstrap-kubeconfig="@;
    addons::lemma_holds_on(p3, s.systemd_unit_dir@);
    addons::lemma_holds_on(q3, "/kubelet.service.d/10-kubeadm.conf <<'DROP'\n[Service]\nEnvironment=\"KUBELET_KUBECONFIG_ARGS=--bootstrap-kubeconfig="@);
    let q4 = p4 + s.kubernetes_conf_dir@;
    let p5 = q4 + "/bootstrap-kubelet.conf --kubeconfig="@;
    addons::lemma_holds_on(p4, s.kubernetes_conf_dir@);
    addons::lemma_holds_on(q4, "/bootstrap-kubelet.conf --kubeconfig="@);
    let q5 = p5 + s.kubernetes_conf_dir@;
    let p6 = q5 + "/kubelet.conf\"\nEnvironment=\"KUBELET_CONFIG_ARGS=--config="@;
    addons::lemma_holds_on(p5, s.kubernetes_conf_dir@);
    addons::lemma_holds_on(q5, "/kubelet.conf\"\nEnvironment=\"KUBELET_CONFIG_ARGS=--config="@);
    let q6 = p6 + s.kubelet_data_dir@;
    let p7 = q6 + "/config.yaml\"\nEnvironmentFile=-"@;
    addons::lemma_holds_on(p6, s.kubelet_data_dir@);
    addons::lemma_holds_on(q6, "/config.yaml\"\nEnvironmentFile=-"@);
    let q7 = p7 + s.kubelet_data_dir@;
    let p8 = q7 + "/kubeadm-flags.env\nExecStart=\nExecStart="@;
    addons::lemma_holds_on(p7, s.kubelet_data_dir@);
    addons::lemma_holds_on(q7, "/kubeadm-flags.env\nExecStart=\nExecStart="@);
    let q8 = p8 + s.bin_dir@;
    let p9 = q8 + "/kubelet $KUBELET_KUBECONFIG_ARGS $KUBELET_CONFIG_ARGS $KUBELET_KUBEADM_ARGS $KUBELET_EXTRA_ARGS\nDROP"@;
    addons::lemma_holds_on(p8, s.bin_dir@);
    addons::lemma_holds_on(q8, "/kubelet $KUBELET_KUBECONFIG_ARGS $KUBELET_CONFIG_ARGS $KUBELET_KUBEADM_ARGS $KUBELET_EXTRA_ARGS\nDROP"@);
    lemma_path_0(none, s.systemd_unit_dir@);
    lemma_path_1(q0, s.systemd_unit_dir@);
    lemma_path_2(q1, s.bin_dir@);
    lemma_path_3(q2, s.systemd_unit_dir@);
    lemma_path_4(q3, s.kubernetes_conf_dir@);
    lemma_path_5(q4, s.kubernetes_conf_dir@);
    lemma_path_6(q5, s.kubelet_data_dir@);
    lemma_path_7(q6, s.kubelet_data_dir@);
    lemma_path_8(q7, s.bin_dir@);
    assert(deps::kubelet_service_script(host) == p9);
    let plan = deps::install_kubelet_service_plan(host);
    assert(plan[0] =~~= shell(p9));
    assert(plan[1] =~~= steps::root_must("systemctl"@, seq!["daemon-reload"@]));
    assert(plan[2] =~~= steps::root_must("systemctl"@, seq!["enable"@, "kubelet"@]));
}

} // verus!

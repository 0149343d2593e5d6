//! Cilium and the Gateway API.
use crate::cmd;
use crate::cmd::Command;
use crate::config;
use crate::config::Host;
use crate::error::Error;
use crate::plan;
use crate::plan::{Plan, StepView, Topic};
use crate::text;
use vstd::prelude::*;

verus! {

/// Configuration for the Cilium CNI installation.
#[derive(Debug, PartialEq, Eq)]
pub struct CiliumConfig<T = String> {
    /// Cilium Helm chart version. `None` means latest.
    pub version: Option<T>,
    /// Pod CIDR to configure in Cilium.
    pub pod_cidr: T,
    /// Whether the Gateway API is installed and enabled in Cilium.
    pub gateway_api: bool,
}

impl View for CiliumConfig<String> {
    type V = CiliumConfig<Seq<char>>;

    open spec fn view(&self) -> CiliumConfig<Seq<char>> {
        CiliumConfig {
            version: text::optional(self.version),
            pod_cidr: self.pod_cidr@,
            gateway_api: self.gateway_api,
        }
    }
}

/// The address of the Gateway API definitions of the default version.
pub open spec fn gateway_api_url_of(host: Host) -> Seq<char> {
    text::replaced(
        host.settings.url_gateway_api_crds@,
        "{version}"@,
        config::DEFAULT_GATEWAY_API_VERSION@,
    )
}

/// The address of the Gateway API definitions.
pub fn gateway_api_url(host: &Host) -> (r: String)
    ensures
        r@ == gateway_api_url_of(*host),
{
    proof {
        reveal_strlit("{version}");
    }
    text::replace(
        host.settings.url_gateway_api_crds.as_str(),
        "{version}",
        config::DEFAULT_GATEWAY_API_VERSION,
    )
}

/// The options that configure Cilium, whichever tool installs it.
pub open spec fn cilium_values(config: CiliumConfig<Seq<char>>) -> Seq<Seq<char>> {
    seq![
        "--set"@,
        "kubeProxyReplacement=true"@,
        "--set"@,
        "ipam.operator.clusterPoolIPv4PodCIDRList="@ + config.pod_cidr,
    ] + (if config.gateway_api {
        seq![
            "--set"@,
            "gatewayAPI.enabled=true"@,
            "--set"@,
            "gatewayAPI.hostNetwork.enabled=true"@,
        ]
    } else {
        Seq::empty()
    }) + (match config.version {
        Some(version) => seq!["--version"@, text::without_leading(version, 'v')],
        None => Seq::empty(),
    })
}

/// Adds the options that configure Cilium to a command.
fn with_values(command: Command, config: &CiliumConfig) -> (r: Command)
    ensures
        r@ == (cmd::CommandView { args: command@.args + cilium_values(config@), ..command@ }),
{
    let mut r = command.arg("--set").arg("kubeProxyReplacement=true").arg("--set").arg(
        "ipam.operator.clusterPoolIPv4PodCIDRList=".to_owned().concat(
            config.pod_cidr.as_str(),
        ).as_str(),
    );
    if config.gateway_api {
        r = r.arg("--set").arg("gatewayAPI.enabled=true").arg("--set").arg(
            "gatewayAPI.hostNetwork.enabled=true",
        );
    }
    match &config.version {
        Some(version) => {
            r = r.arg("--version").arg(text::strip_leading(version.as_str(), 'v').as_str());
        },
        None => {},
    }
    assert(r@.args =~= command@.args + cilium_values(config@));
    r
}

/// How the Gateway API definitions are applied, if they are wanted.
pub open spec fn apply_gateway_api_plan(host: Host, config: CiliumConfig<Seq<char>>) -> Seq<
    StepView,
> {
    if config.gateway_api {
        seq![
            plan::require(
                cmd::as_user(
                    "kubectl"@,
                    seq!["apply"@, "--server-side"@, "-f"@, gateway_api_url_of(host)],
                ),
            ),
        ]
    } else {
        Seq::empty()
    }
}

/// Applies the Gateway API definitions, if they are wanted.
pub fn apply_gateway_api(host: &Host, config: &CiliumConfig) -> (r: Plan)
    ensures
        r@ =~~= apply_gateway_api_plan(*host, config@),
{
    if config.gateway_api {
        Plan::new().require(
            Command::as_user("kubectl").arg("apply").arg("--server-side").arg("-f").arg(
                gateway_api_url(host).as_str(),
            ),
        )
    } else {
        Plan::new()
    }
}

/// How Cilium is installed: by the first tool that is there.
pub open spec fn install_cilium_plan(config: CiliumConfig<Seq<char>>) -> Seq<StepView> {
    seq![plan::probe("cilium"@, Topic::Cilium(config))]
}

/// Installs Cilium as the cluster CNI.
///
/// The `cilium` CLI is preferred; otherwise Helm is used, so that hosts which
/// only have `helm` are served too. If the Gateway API is enabled, its
/// definitions are applied before Cilium is installed.
pub fn install_cilium(config: CiliumConfig) -> (r: Plan)
    ensures
        r@ =~~= install_cilium_plan(config@),
{
    Plan::new().probe("cilium", Topic::Cilium(config))
}

/// What follows from whether the Cilium CLI is there.
pub open spec fn cilium_probed_plan(
    host: Host,
    config: CiliumConfig<Seq<char>>,
    present: bool,
) -> Seq<StepView> {
    if present {
        apply_gateway_api_plan(host, config) + install_via_cli_plan(config)
    } else {
        seq![plan::probe("helm"@, Topic::CiliumHelm(config))]
    }
}

/// Installs Cilium by its CLI if that is there; otherwise looks for Helm.
pub fn cilium_probed(host: &Host, config: CiliumConfig, present: bool) -> (r: Plan)
    ensures
        r@ =~~= cilium_probed_plan(*host, config@, present),
{
    if present {
        apply_gateway_api(host, &config).and(install_via_cli(&config))
    } else {
        Plan::new().probe("helm", Topic::CiliumHelm(config))
    }
}

/// What follows from whether Helm is there, where the Cilium CLI is not.
pub open spec fn helm_probed_plan(
    host: Host,
    config: CiliumConfig<Seq<char>>,
    present: bool,
) -> Seq<StepView> {
    if present {
        apply_gateway_api_plan(host, config) + install_via_helm_plan(host, config)
    } else {
        seq![StepView::Fail(Error::NoCniInstaller)]
    }
}

/// Installs Cilium by Helm if that is there; otherwise nothing can install it.
pub fn helm_probed(host: &Host, config: CiliumConfig, present: bool) -> (r: Plan)
    ensures
        r@ =~~= helm_probed_plan(*host, config@, present),
{
    if present {
        apply_gateway_api(host, &config).and(install_via_helm(host, &config))
    } else {
        Plan::new().fail(Error::NoCniInstaller)
    }
}

/// How the Cilium CLI installs Cilium.
pub open spec fn install_via_cli_plan(config: CiliumConfig<Seq<char>>) -> Seq<StepView> {
    seq![
        plan::require(cmd::as_user("cilium"@, seq!["install"@] + cilium_values(config))),
        plan::require(cmd::as_user("cilium"@, seq!["status"@, "--wait"@])),
    ]
}

/// Installs Cilium by its CLI and waits until it is ready.
pub fn install_via_cli(config: &CiliumConfig) -> (r: Plan)
    ensures
        r@ =~~= install_via_cli_plan(config@),
{
    Plan::new().require(with_values(Command::as_user("cilium").arg("install"), config)).require(
        Command::as_user("cilium").arg("status").arg("--wait"),
    )
}

/// How Helm installs Cilium.
pub open spec fn install_via_helm_plan(
    host: Host,
    config: CiliumConfig<Seq<char>>,
) -> Seq<StepView> {
    seq![
        plan::require(
            cmd::as_user(
                "helm"@,
                seq!["repo"@, "add"@, "cilium"@, host.settings.url_cilium_helm_repo@],
            ),
        ),
        plan::require(cmd::as_user("helm"@, seq!["repo"@, "update"@])),
        plan::require(
            cmd::as_user(
                "helm"@,
                seq![
                    "install"@,
                    "cilium"@,
                    "cilium/cilium"@,
                    "--namespace"@,
                    "kube-system"@,
                ] + cilium_values(config),
            ),
        ),
    ]
}

/// Installs Cilium by Helm, from the Cilium repository.
pub fn install_via_helm(host: &Host, config: &CiliumConfig) -> (r: Plan)
    ensures
        r@ =~~= install_via_helm_plan(*host, config@),
{
    Plan::new().require(
        Command::as_user("helm").arg("repo").arg("add").arg("cilium").arg(
            host.settings.url_cilium_helm_repo.as_str(),
        ),
    ).require(Command::as_user("helm").arg("repo").arg("update")).require(
        with_values(
            Command::as_user("helm").arg("install").arg("cilium").arg("cilium/cilium").arg(
                "--namespace",
            ).arg("kube-system"),
            config,
        ),
    )
}

} // verus!

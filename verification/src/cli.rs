//! The commands of the tool.
use crate::cluster;
use crate::cluster::{InitOptions, JoinConfig, NodeRole};
use crate::config::Host;
use crate::deps;
use crate::error::Error;
use crate::net;
use crate::plan::{Plan, StepView};
use crate::text;
use vstd::prelude::*;

verus! {

/// What the user asks for.
#[derive(Debug, PartialEq, Eq)]
pub enum Request<T = String> {
    /// Initialize a new cluster; without an endpoint, one is detected.
    Init { endpoint: Option<T>, options: InitOptions<T> },
    /// Join this node to an existing cluster.
    Join {
        role: T,
        token: T,
        api_server: T,
        ca_cert_hash: T,
        certificate_key: Option<T>,
        kubernetes_version: Option<T>,
        cilium_version: Option<T>,
    },
    /// Print a join command, for a control-plane node or a worker.
    JoinToken { control_plane: bool },
    /// Check that the host is ready.
    Preflight,
    /// Destroy the cluster.
    Reset { force: bool },
    /// Install all dependencies.
    InstallDeps { kubernetes_version: Option<T>, cilium_version: Option<T> },
    /// Remove all dependencies.
    Uninstall { force: bool },
    /// Show the status of the cluster.
    Status,
}

impl View for Request<String> {
    type V = Request<Seq<char>>;

    open spec fn view(&self) -> Request<Seq<char>> {
        match self {
            Request::Init { endpoint, options } => Request::Init {
                endpoint: text::optional(*endpoint),
                options: options@,
            },
            Request::Join {
                role,
                token,
                api_server,
                ca_cert_hash,
                certificate_key,
                kubernetes_version,
                cilium_version,
            } => Request::Join {
                role: role@,
                token: token@,
                api_server: api_server@,
                ca_cert_hash: ca_cert_hash@,
                certificate_key: text::optional(*certificate_key),
                kubernetes_version: text::optional(*kubernetes_version),
                cilium_version: text::optional(*cilium_version),
            },
            Request::JoinToken { control_plane } => Request::JoinToken {
                control_plane: *control_plane,
            },
            Request::Preflight => Request::Preflight,
            Request::Reset { force } => Request::Reset { force: *force },
            Request::InstallDeps { kubernetes_version, cilium_version } => Request::InstallDeps {
                kubernetes_version: text::optional(*kubernetes_version),
                cilium_version: text::optional(*cilium_version),
            },
            Request::Uninstall { force } => Request::Uninstall { force: *force },
            Request::Status => Request::Status,
        }
    }
}

/// How a node joins under the role that was read; without one, not at all.
pub open spec fn join_as_plan(
    host: Host,
    role: Result<NodeRole, Error<Seq<char>>>,
    token: Seq<char>,
    api_server: Seq<char>,
    ca_cert_hash: Seq<char>,
    certificate_key: Option<Seq<char>>,
) -> Seq<StepView> {
    match role {
        Err(error) => seq![StepView::Fail(error)],
        Ok(role) => cluster::join_cluster_plan(
            host,
            JoinConfig { role, token, api_server, ca_cert_hash, certificate_key },
        ),
    }
}

/// The characters of a role that was read.
pub open spec fn role_view(role: Result<NodeRole, Error>) -> Result<NodeRole, Error<Seq<char>>> {
    match role {
        Ok(role) => Ok(role),
        Err(error) => Err(error@),
    }
}

/// Joins under the role that was read; without one, not at all.
pub fn join_as(
    host: &Host,
    role: Result<NodeRole, Error>,
    token: String,
    api_server: String,
    ca_cert_hash: String,
    certificate_key: Option<String>,
) -> (r: Plan)
    ensures
        r@ =~~= join_as_plan(
            *host,
            role_view(role),
            token@,
            api_server@,
            ca_cert_hash@,
            text::optional(certificate_key),
        ),
{
    match role {
        Err(error) => Plan::new().fail(error),
        Ok(role) => cluster::join_cluster(
            host,
            &JoinConfig { role, token, api_server, ca_cert_hash, certificate_key },
        ),
    }
}

/// What is done for a request.
pub open spec fn request_plan(host: Host, request: Request<Seq<char>>) -> Seq<StepView> {
    match request {
        Request::Init { endpoint, options } => deps::install_all_plan(
            host,
            options.kubernetes_version,
            options.cilium_version,
        ) + net::resolve_control_plane_endpoint_plan(host, endpoint, options),
        Request::Join {
            role,
            token,
            api_server,
            ca_cert_hash,
            certificate_key,
            kubernetes_version,
            cilium_version,
        } => deps::install_all_plan(host, kubernetes_version, cilium_version)
            + cluster::preflight_checks_plan() + join_as_plan(
            host,
            cluster::role_of(role),
            token,
            api_server,
            ca_cert_hash,
            certificate_key,
        ),
        Request::JoinToken { control_plane } => cluster::print_join_command_plan(control_plane),
        Request::Preflight => cluster::preflight_checks_plan(),
        Request::Reset { force } => cluster::reset_cluster_plan(host, force),
        Request::InstallDeps { kubernetes_version, cilium_version } => deps::install_all_plan(
            host,
            kubernetes_version,
            cilium_version,
        ),
        Request::Uninstall { force } => deps::confirm_uninstall_plan(host, force),
        Request::Status => cluster::show_status_plan(),
    }
}

/// Decides what is done for a request.
pub fn dispatch(host: &Host, request: Request) -> (r: Plan)
    ensures
        r@ =~~= request_plan(*host, request@),
{
    match request {
        Request::Init { endpoint, options } => deps::install_all(
            host,
            text::as_deref(&options.kubernetes_version),
            text::as_deref(&options.cilium_version),
        ).and(net::resolve_control_plane_endpoint(host, endpoint, options)),
        Request::Join {
            role,
            token,
            api_server,
            ca_cert_hash,
            certificate_key,
            kubernetes_version,
            cilium_version,
        } => {
            let role = NodeRole::from_str(role.as_str());
            deps::install_all(
                host,
                text::as_deref(&kubernetes_version),
                text::as_deref(&cilium_version),
            ).and(cluster::preflight_checks()).and(
                join_as(host, role, token, api_server, ca_cert_hash, certificate_key),
            )
        },
        Request::JoinToken { control_plane } => cluster::print_join_command(control_plane),
        Request::Preflight => cluster::preflight_checks(),
        Request::Reset { force } => cluster::reset_cluster(host, force),
        Request::InstallDeps { kubernetes_version, cilium_version } => deps::install_all(
            host,
            text::as_deref(&kubernetes_version),
            text::as_deref(&cilium_version),
        ),
        Request::Uninstall { force } => deps::confirm_uninstall(host, force),
        Request::Status => cluster::show_status(),
    }
}

} // verus!

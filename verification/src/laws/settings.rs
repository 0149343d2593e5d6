//! What the configuration means, and what the library's values stand for.
use crate::cli::Request;
use crate::cluster::{ClusterConfig, InitOptions, JoinConfig};
use crate::cmd;
use crate::cmd::{Command, Exit, Invocation, Outcome};
use crate::cni::CiliumConfig;
use crate::config;
use crate::config::{Entry, Host, Settings};
use crate::error::Error;
use crate::storage::StorageConfig;
use crate::text;
use vstd::prelude::*;

verus! {

// ── Settings ─────────────────────────────────────────────────────────────────

/// Whether no entry has this name.
pub open spec fn is_unnamed(
    entries: Seq<Entry<Seq<char>>>,
    section: Seq<char>,
    key: Seq<char>,
) -> bool {
    forall|i: int|
        0 <= i < entries.len() ==> !((#[trigger] entries[i]).section == section && entries[i].key
            == key)
}

/// A name stands for the value of its first entry, whatever else there is; a
/// name without an entry is missing, and an entry that is not a text is none.
pub proof fn the_first_entry_of_a_name_counts(
    before: Seq<Entry<Seq<char>>>,
    section: Seq<char>,
    key: Seq<char>,
    value: Seq<char>,
    after: Seq<Entry<Seq<char>>>,
)
    requires
        is_unnamed(before, section, key),
    ensures
        config::setting(
            before + seq![Entry { section, key, value: Some(value) }] + after,
            section,
            key,
        ) == Ok::<_, Error<Seq<char>>>(value),
        config::setting(
            before + seq![Entry { section, key, value: None }] + after,
            section,
            key,
        ) == Err::<Seq<char>, _>(Error::SettingNotText { section, key }),
        config::setting(before, section, key) == Err::<Seq<char>, _>(
            Error::MissingSetting { section, key },
        ),
    decreases before.len(),
{
    let text = seq![Entry { section, key, value: Some(value) }];
    let other = seq![Entry { section, key, value: None::<Seq<char>> }];
    if before.len() > 0 {
        let rest = before.skip(1);
        assert forall|i: int| 0 <= i < rest.len() implies !((#[trigger] rest[i]).section == section
            && rest[i].key == key) by {
            assert(rest[i] == before[i + 1]);
        }
        the_first_entry_of_a_name_counts(rest, section, key, value, after);
        assert(!(before[0].section == section && before[0].key == key));
        assert((before + text + after).skip(1) =~= rest + text + after);
        assert((before + other + after).skip(1) =~= rest + other + after);
        assert((before + text + after)[0] == before[0]);
        assert((before + other + after)[0] == before[0]);
    } else {
        assert((before + text + after)[0] == text[0]);
        assert((before + other + after)[0] == other[0]);
    }
}

/// Each setting is what stands in the configuration under its own name.
pub proof fn each_setting_is_read_by_its_name(
    settings: Settings,
    before: Seq<Entry<Seq<char>>>,
    section: Seq<char>,
    key: Seq<char>,
    value: Seq<char>,
    after: Seq<Entry<Seq<char>>>,
)
    requires
        is_unnamed(before, section, key),
        config::settings_of(
            before + seq![Entry { section, key, value: Some(value) }] + after,
            settings,
        ),
    ensures
        section == "network"@ && key == "pod_cidr"@ ==> settings.pod_cidr@ == value,
        section == "network"@ && key == "service_cidr"@ ==> settings.service_cidr@ == value,
        section == "runtime"@ && key == "containerd_socket"@ ==> settings.containerd_socket@ == value,
        section == "paths"@ && key == "bin_dir"@ ==> settings.bin_dir@ == value,
        section == "paths"@ && key == "sbin_dir"@ ==> settings.sbin_dir@ == value,
        section == "paths"@ && key == "cni_bin_dir"@ ==> settings.cni_bin_dir@ == value,
        section == "paths"@ && key == "cni_conf_dir"@ ==> settings.cni_conf_dir@ == value,
        section == "paths"@ && key == "containerd_conf_dir"@ ==> settings.containerd_conf_dir@ == value,
        section == "paths"@ && key == "kubernetes_conf_dir"@ ==> settings.kubernetes_conf_dir@ == value,
        section == "paths"@ && key == "kubelet_data_dir"@ ==> settings.kubelet_data_dir@ == value,
        section == "paths"@ && key == "etcd_data_dir"@ ==> settings.etcd_data_dir@ == value,
        section == "paths"@ && key == "containerd_data_dir"@ ==> settings.containerd_data_dir@ == value,
        section == "paths"@ && key == "containerd_run_dir"@ ==> settings.containerd_run_dir@ == value,
        section == "paths"@ && key == "systemd_unit_dir"@ ==> settings.systemd_unit_dir@ == value,
        section == "paths"@ && key == "crictl_config"@ ==> settings.crictl_config@ == value,
        section == "urls"@ && key == "containerd"@ ==> settings.url_containerd@ == value,
        section == "urls"@ && key == "containerd_service"@ ==> settings.url_containerd_service@ == value,
        section == "urls"@ && key == "runc"@ ==> settings.url_runc@ == value,
        section == "urls"@ && key == "cni_plugins"@ ==> settings.url_cni_plugins@ == value,
        section == "urls"@ && key == "crictl"@ ==> settings.url_crictl@ == value,
        section == "urls"@ && key == "kubernetes"@ ==> settings.url_kubernetes@ == value,
        section == "urls"@ && key == "helm"@ ==> settings.url_helm@ == value,
        section == "urls"@ && key == "cilium_cli"@ ==> settings.url_cilium_cli@ == value,
        section == "urls"@ && key == "cilium_helm_repo"@ ==> settings.url_cilium_helm_repo@ == value,
        section == "urls"@ && key == "gateway_api_crds"@ ==> settings.url_gateway_api_crds@ == value,
        section == "urls"@ && key == "openebs_localpv_helm_repo"@ ==> settings.url_openebs_localpv_helm_repo@ == value,
{
    the_first_entry_of_a_name_counts(before, section, key, value, after);
}

/// A configuration is refused for the first of these settings that cannot be
/// read, in this order.
pub proof fn settings_have_an_order()
    ensures
        config::setting_names().len() == 26,
        config::setting_names()[0] == ("network"@, "pod_cidr"@),
        config::setting_names()[1] == ("network"@, "service_cidr"@),
        config::setting_names()[2] == ("runtime"@, "containerd_socket"@),
        config::setting_names()[3] == ("paths"@, "bin_dir"@),
        config::setting_names()[4] == ("paths"@, "sbin_dir"@),
        config::setting_names()[5] == ("paths"@, "cni_bin_dir"@),
        config::setting_names()[6] == ("paths"@, "cni_conf_dir"@),
        config::setting_names()[7] == ("paths"@, "containerd_conf_dir"@),
        config::setting_names()[8] == ("paths"@, "kubernetes_conf_dir"@),
        config::setting_names()[9] == ("paths"@, "kubelet_data_dir"@),
        config::setting_names()[10] == ("paths"@, "etcd_data_dir"@),
        config::setting_names()[11] == ("paths"@, "containerd_data_dir"@),
        config::setting_names()[12] == ("paths"@, "containerd_run_dir"@),
        config::setting_names()[13] == ("paths"@, "systemd_unit_dir"@),
        config::setting_names()[14] == ("paths"@, "crictl_config"@),
        config::setting_names()[15] == ("urls"@, "containerd"@),
        config::setting_names()[16] == ("urls"@, "containerd_service"@),
        config::setting_names()[17] == ("urls"@, "runc"@),
        config::setting_names()[18] == ("urls"@, "cni_plugins"@),
        config::setting_names()[19] == ("urls"@, "crictl"@),
        config::setting_names()[20] == ("urls"@, "kubernetes"@),
        config::setting_names()[21] == ("urls"@, "helm"@),
        config::setting_names()[22] == ("urls"@, "cilium_cli"@),
        config::setting_names()[23] == ("urls"@, "cilium_helm_repo"@),
        config::setting_names()[24] == ("urls"@, "gateway_api_crds"@),
        config::setting_names()[25] == ("urls"@, "openebs_localpv_helm_repo"@),
{
}

/// The home directory is that of the invoking user, and without one that of
/// root.
pub proof fn the_home_is_of_the_invoking_user(host: Host)
    ensures
        host.user matches Some(user) ==> config::home_of(host) == user.home@,
        host.user is None ==> config::home_of(host) == "/root"@,
{
}

// ── Views ────────────────────────────────────────────────────────────────────

/// A value that may be left out stands for its characters, if it is there.
pub proof fn optional_values_keep_their_text(value: String)
    ensures
        text::optional(Some(value)) == Some(value@),
        text::optional(None) == None::<Seq<char>>,
{
}

/// A configuration stands for the characters of its own fields.
pub proof fn configurations_keep_their_fields(
    cluster: ClusterConfig,
    options: InitOptions,
    join: JoinConfig,
    cilium: CiliumConfig,
    storage: StorageConfig,
)
    ensures
        cluster@.control_plane_endpoint == cluster.control_plane_endpoint@,
        cluster@.pod_network_cidr == cluster.pod_network_cidr@,
        cluster@.service_cidr == cluster.service_cidr@,
        cluster@.kubernetes_version == text::optional(cluster.kubernetes_version),
        options@.pod_network_cidr == options.pod_network_cidr@,
        options@.service_cidr == options.service_cidr@,
        options@.kubernetes_version == text::optional(options.kubernetes_version),
        options@.cilium_version == text::optional(options.cilium_version),
        options@.gateway_api == options.gateway_api,
        options@.storage_version == text::optional(options.storage_version),
        options@.skip_cni == options.skip_cni,
        options@.skip_storage == options.skip_storage,
        join@.role == join.role,
        join@.token == join.token@,
        join@.api_server == join.api_server@,
        join@.ca_cert_hash == join.ca_cert_hash@,
        join@.certificate_key == text::optional(join.certificate_key),
        cilium@.version == text::optional(cilium.version),
        cilium@.pod_cidr == cilium.pod_cidr@,
        cilium@.gateway_api == cilium.gateway_api,
        storage@.version == text::optional(storage.version),
{
}

/// A request stands for the characters of its own fields.
pub proof fn requests_keep_their_fields(request: Request)
    ensures
        match request {
            Request::Init { endpoint, options } => request@ == (Request::Init {
                endpoint: text::optional(endpoint),
                options: options@,
            }),
            Request::Join {
                role,
                token,
                api_server,
                ca_cert_hash,
                certificate_key,
                kubernetes_version,
                cilium_version,
            } => request@ == (Request::Join {
                role: role@,
                token: token@,
                api_server: api_server@,
                ca_cert_hash: ca_cert_hash@,
                certificate_key: text::optional(certificate_key),
                kubernetes_version: text::optional(kubernetes_version),
                cilium_version: text::optional(cilium_version),
            }),
            Request::JoinToken { control_plane } => request@ == (Request::<Seq<char>>::JoinToken {
                control_plane,
            }),
            Request::Preflight => request@ == Request::<Seq<char>>::Preflight,
            Request::Reset { force } => request@ == (Request::<Seq<char>>::Reset { force }),
            Request::InstallDeps { kubernetes_version, cilium_version } => request@
                == (Request::InstallDeps {
                kubernetes_version: text::optional(kubernetes_version),
                cilium_version: text::optional(cilium_version),
            }),
            Request::Uninstall { force } => request@ == (Request::<Seq<char>>::Uninstall { force }),
            Request::Status => request@ == Request::<Seq<char>>::Status,
        },
{
}

/// A command, what is executed, and what came of it stand for the characters of
/// their own fields.
pub proof fn commands_keep_their_fields(
    command: Command,
    invocation: Invocation,
    outcome: Outcome,
    exit: Exit,
    cause: String,
    entry: Entry,
)
    ensures
        command@.privileged == command.privileged,
        command@.program == command.program@,
        command@.args.len() == command.args@.len(),
        forall|i: int|
            0 <= i < command.args@.len() ==> #[trigger] command@.args[i] == command.args@[i]@,
        invocation@.program == invocation.program@,
        invocation@.args.len() == invocation.args@.len(),
        forall|i: int|
            0 <= i < invocation.args@.len() ==> #[trigger] invocation@.args[i]
                == invocation.args@[i]@,
        match outcome {
            Outcome::Success(text) => outcome@ == Outcome::Success(text@),
            Outcome::NotStarted(cause) => outcome@ == Outcome::NotStarted(cause@),
            Outcome::Failure(status) => outcome@ == Outcome::Failure(status@),
        },
        cmd::exit_view(Ok(exit)) == Ok::<_, Seq<char>>(
            Exit { success: exit.success, status: exit.status@ },
        ),
        cmd::exit_view(Err(cause)) == Err::<Exit<Seq<char>>, _>(cause@),
        entry@.section == entry.section@,
        entry@.key == entry.key@,
        entry@.value == text::optional(entry.value),
{
}

} // verus!

//! Default versions, the paths and addresses that a build is configured with,
//! and what is known of the host.
use crate::cmd;
use crate::error::Error;
use crate::text;
use vstd::prelude::*;

verus! {

/// kubeadm, kubelet, and kubectl.
pub const DEFAULT_KUBERNETES_VERSION: &'static str = "1.35.3";

pub const DEFAULT_CONTAINERD_VERSION: &'static str = "2.2.2";

pub const DEFAULT_RUNC_VERSION: &'static str = "1.4.2";

pub const DEFAULT_CNI_PLUGINS_VERSION: &'static str = "1.9.1";

pub const DEFAULT_CRICTL_VERSION: &'static str = "1.35.0";

pub const DEFAULT_HELM_VERSION: &'static str = "4.1.3";

pub const DEFAULT_CILIUM_CLI_VERSION: &'static str = "0.19.2";

pub const DEFAULT_GATEWAY_API_VERSION: &'static str = "1.5.1";

pub const DEFAULT_OPENEBS_LOCALPV_VERSION: &'static str = "4.4.0";

/// Network defaults, where things are installed, and where they come from. URL
/// templates hold the placeholders `{version}` and `{arch}`.
#[derive(Debug, PartialEq, Eq)]
pub struct Settings {
    pub pod_cidr: String,
    pub service_cidr: String,
    pub containerd_socket: String,
    pub bin_dir: String,
    pub sbin_dir: String,
    pub cni_bin_dir: String,
    pub cni_conf_dir: String,
    pub containerd_conf_dir: String,
    pub kubernetes_conf_dir: String,
    pub kubelet_data_dir: String,
    pub etcd_data_dir: String,
    pub containerd_data_dir: String,
    pub containerd_run_dir: String,
    pub systemd_unit_dir: String,
    pub crictl_config: String,
    pub url_containerd: String,
    pub url_containerd_service: String,
    pub url_runc: String,
    pub url_cni_plugins: String,
    pub url_crictl: String,
    pub url_kubernetes: String,
    pub url_helm: String,
    pub url_cilium_cli: String,
    pub url_cilium_helm_repo: String,
    pub url_gateway_api_crds: String,
    pub url_openebs_localpv_helm_repo: String,
}

/// One value of a configuration file; one that is not a text is left out.
#[derive(Debug, PartialEq, Eq)]
pub struct Entry<T = String> {
    pub section: T,
    pub key: T,
    pub value: Option<T>,
}

impl View for Entry<String> {
    type V = Entry<Seq<char>>;

    open spec fn view(&self) -> Entry<Seq<char>> {
        Entry {
            section: self.section@,
            key: self.key@,
            value: text::optional(self.value),
        }
    }
}

/// The characters of the values of a configuration file.
pub open spec fn entries_view(entries: Seq<Entry>) -> Seq<Entry<Seq<char>>> {
    entries.map_values(|entry: Entry| entry@)
}

/// The first value that stands under a key of a section, or the reason that
/// there is none.
pub open spec fn setting(
    entries: Seq<Entry<Seq<char>>>,
    section: Seq<char>,
    key: Seq<char>,
) -> Result<Seq<char>, Error<Seq<char>>>
    decreases entries.len(),
{
    if entries.len() == 0 {
        Err(Error::MissingSetting { section, key })
    } else if entries[0].section == section && entries[0].key == key {
        match entries[0].value {
            Some(value) => Ok(value),
            None => Err(Error::SettingNotText { section, key }),
        }
    } else {
        setting(entries.skip(1), section, key)
    }
}

/// The section and the key of every setting.
pub open spec fn setting_names() -> Seq<(Seq<char>, Seq<char>)> {
    seq![
        ("network"@, "pod_cidr"@),
        ("network"@, "service_cidr"@),
        ("runtime"@, "containerd_socket"@),
        ("paths"@, "bin_dir"@),
        ("paths"@, "sbin_dir"@),
        ("paths"@, "cni_bin_dir"@),
        ("paths"@, "cni_conf_dir"@),
        ("paths"@, "containerd_conf_dir"@),
        ("paths"@, "kubernetes_conf_dir"@),
        ("paths"@, "kubelet_data_dir"@),
        ("paths"@, "etcd_data_dir"@),
        ("paths"@, "containerd_data_dir"@),
        ("paths"@, "containerd_run_dir"@),
        ("paths"@, "systemd_unit_dir"@),
        ("paths"@, "crictl_config"@),
        ("urls"@, "containerd"@),
        ("urls"@, "containerd_service"@),
        ("urls"@, "runc"@),
        ("urls"@, "cni_plugins"@),
        ("urls"@, "crictl"@),
        ("urls"@, "kubernetes"@),
        ("urls"@, "helm"@),
        ("urls"@, "cilium_cli"@),
        ("urls"@, "cilium_helm_repo"@),
        ("urls"@, "gateway_api_crds"@),
        ("urls"@, "openebs_localpv_helm_repo"@),
    ]
}

/// Whether settings are those that a configuration file gives.
pub open spec fn settings_of(entries: Seq<Entry<Seq<char>>>, settings: Settings) -> bool {
    &&& setting(entries, "network"@, "pod_cidr"@) == Ok::<_, Error<Seq<char>>>(settings.pod_cidr@)
    &&& setting(entries, "network"@, "service_cidr"@) == Ok::<_, Error<Seq<char>>>(settings.service_cidr@)
    &&& setting(entries, "runtime"@, "containerd_socket"@) == Ok::<_, Error<Seq<char>>>(settings.containerd_socket@)
    &&& setting(entries, "paths"@, "bin_dir"@) == Ok::<_, Error<Seq<char>>>(settings.bin_dir@)
    &&& setting(entries, "paths"@, "sbin_dir"@) == Ok::<_, Error<Seq<char>>>(settings.sbin_dir@)
    &&& setting(entries, "paths"@, "cni_bin_dir"@) == Ok::<_, Error<Seq<char>>>(settings.cni_bin_dir@)
    &&& setting(entries, "paths"@, "cni_conf_dir"@) == Ok::<_, Error<Seq<char>>>(settings.cni_conf_dir@)
    &&& setting(entries, "paths"@, "containerd_conf_dir"@) == Ok::<_, Error<Seq<char>>>(settings.containerd_conf_dir@)
    &&& setting(entries, "paths"@, "kubernetes_conf_dir"@) == Ok::<_, Error<Seq<char>>>(settings.kubernetes_conf_dir@)
    &&& setting(entries, "paths"@, "kubelet_data_dir"@) == Ok::<_, Error<Seq<char>>>(settings.kubelet_data_dir@)
    &&& setting(entries, "paths"@, "etcd_data_dir"@) == Ok::<_, Error<Seq<char>>>(settings.etcd_data_dir@)
    &&& setting(entries, "paths"@, "containerd_data_dir"@) == Ok::<_, Error<Seq<char>>>(settings.containerd_data_dir@)
    &&& setting(entries, "paths"@, "containerd_run_dir"@) == Ok::<_, Error<Seq<char>>>(settings.containerd_run_dir@)
    &&& setting(entries, "paths"@, "systemd_unit_dir"@) == Ok::<_, Error<Seq<char>>>(settings.systemd_unit_dir@)
    &&& setting(entries, "paths"@, "crictl_config"@) == Ok::<_, Error<Seq<char>>>(settings.crictl_config@)
    &&& setting(entries, "urls"@, "containerd"@) == Ok::<_, Error<Seq<char>>>(settings.url_containerd@)
    &&& setting(entries, "urls"@, "containerd_service"@) == Ok::<_, Error<Seq<char>>>(settings.url_containerd_service@)
    &&& setting(entries, "urls"@, "runc"@) == Ok::<_, Error<Seq<char>>>(settings.url_runc@)
    &&& setting(entries, "urls"@, "cni_plugins"@) == Ok::<_, Error<Seq<char>>>(settings.url_cni_plugins@)
    &&& setting(entries, "urls"@, "crictl"@) == Ok::<_, Error<Seq<char>>>(settings.url_crictl@)
    &&& setting(entries, "urls"@, "kubernetes"@) == Ok::<_, Error<Seq<char>>>(settings.url_kubernetes@)
    &&& setting(entries, "urls"@, "helm"@) == Ok::<_, Error<Seq<char>>>(settings.url_helm@)
    &&& setting(entries, "urls"@, "cilium_cli"@) == Ok::<_, Error<Seq<char>>>(settings.url_cilium_cli@)
    &&& setting(entries, "urls"@, "cilium_helm_repo"@) == Ok::<_, Error<Seq<char>>>(settings.url_cilium_helm_repo@)
    &&& setting(entries, "urls"@, "gateway_api_crds"@) == Ok::<_, Error<Seq<char>>>(settings.url_gateway_api_crds@)
    &&& setting(entries, "urls"@, "openebs_localpv_helm_repo"@) == Ok::<_, Error<Seq<char>>>(settings.url_openebs_localpv_helm_repo@)
}

/// Finds the first value that stands under a key of a section.
fn find(entries: &Vec<Entry>, section: &str, key: &str) -> (r: Result<String, Error>)
    ensures
        cmd::result_view(r) == setting(entries_view(entries@), section@, key@),
{
    let ghost all = entries_view(entries@);
    assert(all.skip(0) =~= all);
    for i in 0..entries.len()
        invariant
            all == entries_view(entries@),
            setting(all, section@, key@) == setting(all.skip(i as int), section@, key@),
    {
        assert(all.skip(i as int)[0] == entries@[i as int]@);
        if text::same(entries[i].section.as_str(), section) && text::same(
            entries[i].key.as_str(),
            key,
        ) {
            return match &entries[i].value {
                Some(value) => Ok(value.as_str().to_owned()),
                None => Err(
                    Error::SettingNotText { section: section.to_owned(), key: key.to_owned() },
                ),
            };
        }
        assert(all.skip(i as int).skip(1) =~= all.skip(i + 1));
    }
    assert(all.skip(entries@.len() as int).len() == 0);
    Err(Error::MissingSetting { section: section.to_owned(), key: key.to_owned() })
}

/// Takes a value that is known to be there.
fn required(entries: &Vec<Entry>, section: &str, key: &str) -> (r: String)
    requires
        setting(entries_view(entries@), section@, key@) is Ok,
    ensures
        setting(entries_view(entries@), section@, key@) == Ok::<_, Error<Seq<char>>>(r@),
{
    match find(entries, section, key) {
        Ok(value) => value,
        Err(_) => String::new(),
    }
}

impl Settings {
    /// Reads the settings from the values of a configuration file. The first
    /// setting that is missing there, or that is not a text, is an error.
    pub fn from_entries(entries: &Vec<Entry>) -> (r: Result<Settings, Error>)
        ensures
            match r {
                Ok(settings) => settings_of(entries_view(entries@), settings),
                Err(error) => exists|n: int|
                    {
                        &&& 0 <= n < setting_names().len()
                        &&& setting(
                            entries_view(entries@),
                            (#[trigger] setting_names()[n]).0,
                            setting_names()[n].1,
                        ) == Err::<Seq<char>, _>(error@)
                        &&& forall|i: int|
                            0 <= i < n ==> setting(
                                entries_view(entries@),
                                (#[trigger] setting_names()[i]).0,
                                setting_names()[i].1,
                            ) is Ok
                    },
            },
    {
        let names: Vec<(&str, &str)> = vec![
        ("network", "pod_cidr"),
        ("network", "service_cidr"),
        ("runtime", "containerd_socket"),
        ("paths", "bin_dir"),
        ("paths", "sbin_dir"),
        ("paths", "cni_bin_dir"),
        ("paths", "cni_conf_dir"),
        ("paths", "containerd_conf_dir"),
        ("paths", "kubernetes_conf_dir"),
        ("paths", "kubelet_data_dir"),
        ("paths", "etcd_data_dir"),
        ("paths", "containerd_data_dir"),
        ("paths", "containerd_run_dir"),
        ("paths", "systemd_unit_dir"),
        ("paths", "crictl_config"),
        ("urls", "containerd"),
        ("urls", "containerd_service"),
        ("urls", "runc"),
        ("urls", "cni_plugins"),
        ("urls", "crictl"),
        ("urls", "kubernetes"),
        ("urls", "helm"),
        ("urls", "cilium_cli"),
        ("urls", "cilium_helm_repo"),
        ("urls", "gateway_api_crds"),
        ("urls", "openebs_localpv_helm_repo"),
        ];
        let ghost all = entries_view(entries@);
        assert(names@.len() == setting_names().len());
        assert(forall|i: int|
            0 <= i < names@.len() ==> (names@[i].0@, names@[i].1@)
                == #[trigger] setting_names()[i]);
        for n in 0..names.len()
            invariant
                all == entries_view(entries@),
                names@.len() == setting_names().len(),
                forall|i: int|
                    0 <= i < names@.len() ==> (names@[i].0@, names@[i].1@)
                        == #[trigger] setting_names()[i],
                forall|i: int|
                    0 <= i < n ==> setting(
                        all,
                        (#[trigger] setting_names()[i]).0,
                        setting_names()[i].1,
                    ) is Ok,
        {
            let (section, key) = names[n];
            assert(setting_names()[n as int] == (section@, key@));
            match find(entries, section, key) {
                Ok(_) => {},
                Err(error) => {
                    return Err(error);
                },
            }
        }
        proof {
            lemma_settings_named(all);
        }
        let settings = Settings {
            pod_cidr: required(entries, "network", "pod_cidr"),
            service_cidr: required(entries, "network", "service_cidr"),
            containerd_socket: required(entries, "runtime", "containerd_socket"),
            bin_dir: required(entries, "paths", "bin_dir"),
            sbin_dir: required(entries, "paths", "sbin_dir"),
            cni_bin_dir: required(entries, "paths", "cni_bin_dir"),
            cni_conf_dir: required(entries, "paths", "cni_conf_dir"),
            containerd_conf_dir: required(entries, "paths", "containerd_conf_dir"),
            kubernetes_conf_dir: required(entries, "paths", "kubernetes_conf_dir"),
            kubelet_data_dir: required(entries, "paths", "kubelet_data_dir"),
            etcd_data_dir: required(entries, "paths", "etcd_data_dir"),
            containerd_data_dir: required(entries, "paths", "containerd_data_dir"),
            containerd_run_dir: required(entries, "paths", "containerd_run_dir"),
            systemd_unit_dir: required(entries, "paths", "systemd_unit_dir"),
            crictl_config: required(entries, "paths", "crictl_config"),
            url_containerd: required(entries, "urls", "containerd"),
            url_containerd_service: required(entries, "urls", "containerd_service"),
            url_runc: required(entries, "urls", "runc"),
            url_cni_plugins: required(entries, "urls", "cni_plugins"),
            url_crictl: required(entries, "urls", "crictl"),
            url_kubernetes: required(entries, "urls", "kubernetes"),
            url_helm: required(entries, "urls", "helm"),
            url_cilium_cli: required(entries, "urls", "cilium_cli"),
            url_cilium_helm_repo: required(entries, "urls", "cilium_helm_repo"),
            url_gateway_api_crds: required(entries, "urls", "gateway_api_crds"),
            url_openebs_localpv_helm_repo: required(entries, "urls", "openebs_localpv_helm_repo"),
        };
        Ok(settings)
    }
}

/// If no setting is missing, each has a value.
proof fn lemma_settings_named(entries: Seq<Entry<Seq<char>>>)
    requires
        forall|i: int|
            0 <= i < setting_names().len() ==> setting(
                entries,
                (#[trigger] setting_names()[i]).0,
                setting_names()[i].1,
            ) is Ok,
    ensures
        setting(entries, "network"@, "pod_cidr"@) is Ok,
        setting(entries, "network"@, "service_cidr"@) is Ok,
        setting(entries, "runtime"@, "containerd_socket"@) is Ok,
        setting(entries, "paths"@, "bin_dir"@) is Ok,
        setting(entries, "paths"@, "sbin_dir"@) is Ok,
        setting(entries, "paths"@, "cni_bin_dir"@) is Ok,
        setting(entries, "paths"@, "cni_conf_dir"@) is Ok,
        setting(entries, "paths"@, "containerd_conf_dir"@) is Ok,
        setting(entries, "paths"@, "kubernetes_conf_dir"@) is Ok,
        setting(entries, "paths"@, "kubelet_data_dir"@) is Ok,
        setting(entries, "paths"@, "etcd_data_dir"@) is Ok,
        setting(entries, "paths"@, "containerd_data_dir"@) is Ok,
        setting(entries, "paths"@, "containerd_run_dir"@) is Ok,
        setting(entries, "paths"@, "systemd_unit_dir"@) is Ok,
        setting(entries, "paths"@, "crictl_config"@) is Ok,
        setting(entries, "urls"@, "containerd"@) is Ok,
        setting(entries, "urls"@, "containerd_service"@) is Ok,
        setting(entries, "urls"@, "runc"@) is Ok,
        setting(entries, "urls"@, "cni_plugins"@) is Ok,
        setting(entries, "urls"@, "crictl"@) is Ok,
        setting(entries, "urls"@, "kubernetes"@) is Ok,
        setting(entries, "urls"@, "helm"@) is Ok,
        setting(entries, "urls"@, "cilium_cli"@) is Ok,
        setting(entries, "urls"@, "cilium_helm_repo"@) is Ok,
        setting(entries, "urls"@, "gateway_api_crds"@) is Ok,
        setting(entries, "urls"@, "openebs_localpv_helm_repo"@) is Ok,
{
    assert(setting_names()[0] == ("network"@, "pod_cidr"@));
    assert(setting_names()[1] == ("network"@, "service_cidr"@));
    assert(setting_names()[2] == ("runtime"@, "containerd_socket"@));
    assert(setting_names()[3] == ("paths"@, "bin_dir"@));
    assert(setting_names()[4] == ("paths"@, "sbin_dir"@));
    assert(setting_names()[5] == ("paths"@, "cni_bin_dir"@));
    assert(setting_names()[6] == ("paths"@, "cni_conf_dir"@));
    assert(setting_names()[7] == ("paths"@, "containerd_conf_dir"@));
    assert(setting_names()[8] == ("paths"@, "kubernetes_conf_dir"@));
    assert(setting_names()[9] == ("paths"@, "kubelet_data_dir"@));
    assert(setting_names()[10] == ("paths"@, "etcd_data_dir"@));
    assert(setting_names()[11] == ("paths"@, "containerd_data_dir"@));
    assert(setting_names()[12] == ("paths"@, "containerd_run_dir"@));
    assert(setting_names()[13] == ("paths"@, "systemd_unit_dir"@));
    assert(setting_names()[14] == ("paths"@, "crictl_config"@));
    assert(setting_names()[15] == ("urls"@, "containerd"@));
    assert(setting_names()[16] == ("urls"@, "containerd_service"@));
    assert(setting_names()[17] == ("urls"@, "runc"@));
    assert(setting_names()[18] == ("urls"@, "cni_plugins"@));
    assert(setting_names()[19] == ("urls"@, "crictl"@));
    assert(setting_names()[20] == ("urls"@, "kubernetes"@));
    assert(setting_names()[21] == ("urls"@, "helm"@));
    assert(setting_names()[22] == ("urls"@, "cilium_cli"@));
    assert(setting_names()[23] == ("urls"@, "cilium_helm_repo"@));
    assert(setting_names()[24] == ("urls"@, "gateway_api_crds"@));
    assert(setting_names()[25] == ("urls"@, "openebs_localpv_helm_repo"@));
}

/// The user who invoked the program, also when it runs under `sudo`.
#[derive(Debug, PartialEq, Eq)]
pub struct RealUser {
    pub home: String,
    pub uid: u32,
    pub gid: u32,
}

/// What is known of the host before a workflow starts.
#[derive(Debug, PartialEq, Eq)]
pub struct Host {
    /// Whether the process runs as root.
    pub root: bool,
    /// The processor architecture, as Rust names it.
    pub arch: String,
    /// The invoking user, if it is not root itself.
    pub user: Option<RealUser>,
    pub settings: Settings,
}

/// The home directory that receives the kubeconfig.
pub open spec fn home_of(host: Host) -> Seq<char> {
    match host.user {
        Some(user) => user.home@,
        None => "/root"@,
    }
}

impl Host {
    /// The home directory of the invoking user, or root's.
    pub fn home(&self) -> (r: &str)
        ensures
            r@ == home_of(*self),
    {
        match &self.user {
            Some(user) => user.home.as_str(),
            None => "/root",
        }
    }
}

/// The version to install: the one asked for, or the default.
pub fn version_or<'a>(version: Option<&'a str>, default: &'a str) -> (r: &'a str)
    ensures
        r@ == (match version {
            Some(v) => v@,
            None => default@,
        }),
{
    match version {
        Some(v) => v,
        None => default,
    }
}

} // verus!
